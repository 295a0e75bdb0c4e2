//! Codec and document model for event records in the STRIPPER XML dialect.
//!
//! The numbers of a particle, of a reweighting entry, of a cross section and
//! of a channel are packed into one text with commas. This crate reads and
//! writes such fields, holds the documents that they belong to, writes an
//! event record in its line-by-line layout, and turns a sub-event into a
//! particle graph and back.
//!
//! Every function is verified against a contract over the views of its
//! arguments and results. Reading a field is decided in full: the contract
//! says for every text whether it is read and as what, or which error it
//! gives.
//!
//! A floating-point value is held as the literal that was read ([`Float`]),
//! so that nothing is lost between reading and writing. The crate does no
//! floating-point arithmetic: a caller who wants machine doubles parses the
//! literals, which never fails, and one who has doubles writes them as
//! literals first.
//!
//! Documents are read by a parser of the caller's choice. It hands the text
//! of each field to the decoder of its type, after taking off the white
//! space around it ([`text::trim`]).

pub mod channels;
pub mod error;
pub mod event;
pub mod fields;
pub mod float;
pub mod hepmc;
pub mod integer;
pub mod normalization;
pub mod text;

pub use error::{NumberKind, ParseErr};
pub use event::{
    Event, Eventrecord, Id, Momentum, Particle, Reweight, Reweights, Status, SubEvent, WriteXML,
};
pub use float::Float;
