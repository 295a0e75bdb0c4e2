[package]
name = "stripper-xml"
version = "0.1.0"
edition = "2021"
publish = false

[dependencies]
hepmc2 = "*"
itertools = "*"
particle_id = "*"
quick-xml = { version = "*", features = ["serialize"] }
serde = { version = "1", features = ["derive"] }
serde_repr = "0.1"
strum = { version = "*", features = ["derive"] }
thiserror = "1"
