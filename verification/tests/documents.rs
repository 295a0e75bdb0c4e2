use std::fmt;
use std::marker::PhantomData;

use particle_id::sm_elementary_particles::{anti_top, gluon, top};
use serde::de::{self, Deserialize, Deserializer, IgnoredAny, MapAccess, Visitor};
use serde::ser::SerializeStruct;
use serde::Serialize;
use stripper_xml::channels::{Channel, Channels, Init};
use stripper_xml::error::ParseErr;
use stripper_xml::event::{
    Event, Eventrecord, Id, Momentum, Particle, Reweight, Reweights, Status, SubEvent, WriteXML,
    GENERATOR, VERSION,
};
use stripper_xml::float::Float;
use stripper_xml::normalization::{self, Contribution, Normalization, XSScale, XSection};
use stripper_xml::text::trim;
use Status::{Incoming, Outgoing};

/// A value that is read from the text of one field.
trait Decode: Sized {
    fn decode(text: &str) -> Result<Self, ParseErr>;
}

impl Decode for String {
    fn decode(text: &str) -> Result<Self, ParseErr> {
        Ok(text.to_owned())
    }
}

impl Decode for Float {
    fn decode(text: &str) -> Result<Self, ParseErr> {
        Float::decode(text)
    }
}

impl Decode for Id {
    fn decode(text: &str) -> Result<Self, ParseErr> {
        Id::decode(text)
    }
}

impl Decode for Momentum {
    fn decode(text: &str) -> Result<Self, ParseErr> {
        Momentum::decode(text)
    }
}

impl Decode for Reweights {
    fn decode(text: &str) -> Result<Self, ParseErr> {
        Reweights::decode(text)
    }
}

impl Decode for XSScale {
    fn decode(text: &str) -> Result<Self, ParseErr> {
        XSScale::decode(text)
    }
}

impl Decode for Channel {
    fn decode(text: &str) -> Result<Self, ParseErr> {
        Channel::decode(text)
    }
}

/// A field as serde reads it: one text, without the white space around it.
struct Field<T>(T);

impl<'de, T: Decode> Deserialize<'de> for Field<T> {
    fn deserialize<D: Deserializer<'de>>(deserializer: D) -> Result<Self, D::Error> {
        let text = String::deserialize(deserializer)?;
        T::decode(trim(&text)).map(Field).map_err(|e| de::Error::custom(e.message()))
    }
}

/// An element as serde reads it: a map from the names of its attributes and
/// children to their values.
trait Element: Sized {
    const NAME: &'static str;
    const FIELDS: &'static [&'static str];

    fn read<'de, A: MapAccess<'de>>(map: A) -> Result<Self, A::Error>;
}

struct Doc<T>(T);

struct ElementVisitor<T>(PhantomData<T>);

impl<'de, T: Element> Visitor<'de> for ElementVisitor<T> {
    type Value = T;

    fn expecting(&self, f: &mut fmt::Formatter) -> fmt::Result {
        f.write_str("an element ")?;
        f.write_str(T::NAME)
    }

    fn visit_map<A: MapAccess<'de>>(self, map: A) -> Result<T, A::Error> {
        T::read(map)
    }
}

impl<'de, T: Element> Deserialize<'de> for Doc<T> {
    fn deserialize<D: Deserializer<'de>>(deserializer: D) -> Result<Self, D::Error> {
        deserializer.deserialize_struct(T::NAME, T::FIELDS, ElementVisitor(PhantomData)).map(Doc)
    }
}

fn items<T>(docs: Vec<Doc<T>>) -> Vec<T> {
    docs.into_iter().map(|doc| doc.0).collect()
}

fn texts<T>(fields: Vec<Field<T>>) -> Vec<T> {
    fields.into_iter().map(|field| field.0).collect()
}

fn needed<T, E: de::Error>(value: Option<T>, name: &'static str) -> Result<T, E> {
    value.ok_or_else(|| de::Error::missing_field(name))
}

fn from_str<T: Element>(text: &str) -> Result<T, quick_xml::DeError> {
    quick_xml::de::from_str::<Doc<T>>(text).map(|doc| doc.0)
}

fn from_reader<T: Element>(bytes: &[u8]) -> Result<T, quick_xml::DeError> {
    quick_xml::de::from_reader::<_, Doc<T>>(bytes).map(|doc| doc.0)
}

impl Element for Particle {
    const NAME: &'static str = "p";
    const FIELDS: &'static [&'static str] = &["@id", "$text"];

    fn read<'de, A: MapAccess<'de>>(mut map: A) -> Result<Self, A::Error> {
        let mut id = None;
        let mut momentum = None;
        while let Some(key) = map.next_key::<String>()? {
            match key.as_str() {
                "@id" => id = Some(map.next_value::<Field<Id>>()?.0),
                "$text" => momentum = Some(map.next_value::<Field<Momentum>>()?.0),
                _ => {
                    map.next_value::<IgnoredAny>()?;
                }
            }
        }
        Ok(Particle { id: needed(id, "@id")?, momentum: needed(momentum, "$text")? })
    }
}

impl Element for Reweight {
    const NAME: &'static str = "rw";
    const FIELDS: &'static [&'static str] = &["@ch", "$text"];

    fn read<'de, A: MapAccess<'de>>(mut map: A) -> Result<Self, A::Error> {
        let mut channel = None;
        let mut reweights = None;
        while let Some(key) = map.next_key::<String>()? {
            match key.as_str() {
                "@ch" => channel = Some(map.next_value::<u32>()?),
                "$text" => reweights = Some(map.next_value::<Field<Reweights>>()?.0),
                _ => {
                    map.next_value::<IgnoredAny>()?;
                }
            }
        }
        Ok(Reweight { channel: needed(channel, "@ch")?, reweights: needed(reweights, "$text")? })
    }
}

impl Element for SubEvent {
    const NAME: &'static str = "se";
    const FIELDS: &'static [&'static str] = &["@w", "@muR", "@muF", "p", "rw"];

    fn read<'de, A: MapAccess<'de>>(mut map: A) -> Result<Self, A::Error> {
        let mut weight = None;
        let mut mu_r = None;
        let mut mu_f = None;
        let mut particles = Vec::new();
        let mut reweight = Vec::new();
        while let Some(key) = map.next_key::<String>()? {
            match key.as_str() {
                "@w" => weight = Some(map.next_value::<Field<Float>>()?.0),
                "@muR" => mu_r = Some(map.next_value::<Field<Float>>()?.0),
                "@muF" => mu_f = Some(map.next_value::<Field<Float>>()?.0),
                "p" => particles = items(map.next_value::<Vec<Doc<Particle>>>()?),
                "rw" => reweight = items(map.next_value::<Vec<Doc<Reweight>>>()?),
                _ => {
                    map.next_value::<IgnoredAny>()?;
                }
            }
        }
        Ok(SubEvent {
            weight: needed(weight, "@w")?,
            mu_r: needed(mu_r, "@muR")?,
            mu_f: needed(mu_f, "@muF")?,
            particles,
            reweight,
        })
    }
}

impl Element for Event {
    const NAME: &'static str = "e";
    const FIELDS: &'static [&'static str] = &["se"];

    fn read<'de, A: MapAccess<'de>>(mut map: A) -> Result<Self, A::Error> {
        let mut subevents = Vec::new();
        while let Some(key) = map.next_key::<String>()? {
            match key.as_str() {
                "se" => subevents = items(map.next_value::<Vec<Doc<SubEvent>>>()?),
                _ => {
                    map.next_value::<IgnoredAny>()?;
                }
            }
        }
        Ok(Event { subevents })
    }
}

impl Element for Eventrecord {
    const NAME: &'static str = "Eventrecord";
    const FIELDS: &'static [&'static str] =
        &["@nevents", "@nsubevents", "@nreweights", "@as", "@name", "e"];

    fn read<'de, A: MapAccess<'de>>(mut map: A) -> Result<Self, A::Error> {
        let mut nevents = None;
        let mut nsubevents = None;
        let mut nreweights = None;
        let mut alpha_s_power = None;
        let mut name = None;
        let mut events = Vec::new();
        while let Some(key) = map.next_key::<String>()? {
            match key.as_str() {
                "@nevents" => nevents = Some(map.next_value::<u64>()?),
                "@nsubevents" => nsubevents = Some(map.next_value::<u64>()?),
                "@nreweights" => nreweights = Some(map.next_value::<u64>()?),
                "@as" => alpha_s_power = Some(map.next_value::<u64>()?),
                "@name" => name = Some(map.next_value::<String>()?),
                "e" => events = items(map.next_value::<Vec<Doc<Event>>>()?),
                _ => {
                    map.next_value::<IgnoredAny>()?;
                }
            }
        }
        Ok(Eventrecord {
            nevents: needed(nevents, "@nevents")?,
            nsubevents: needed(nsubevents, "@nsubevents")?,
            nreweights: needed(nreweights, "@nreweights")?,
            alpha_s_power: needed(alpha_s_power, "@as")?,
            name: needed(name, "@name")?,
            events,
        })
    }
}

impl Element for Channels {
    const NAME: &'static str = "Channels";
    const FIELDS: &'static [&'static str] = &["Channel"];

    fn read<'de, A: MapAccess<'de>>(mut map: A) -> Result<Self, A::Error> {
        let mut channel = Vec::new();
        while let Some(key) = map.next_key::<String>()? {
            match key.as_str() {
                "Channel" => channel = texts(map.next_value::<Vec<Field<Channel>>>()?),
                _ => {
                    map.next_value::<IgnoredAny>()?;
                }
            }
        }
        Ok(Channels { channel })
    }
}

impl Element for Init {
    const NAME: &'static str = "Init";
    const FIELDS: &'static [&'static str] = &["Incoming", "Scales", "Channels"];

    fn read<'de, A: MapAccess<'de>>(mut map: A) -> Result<Self, A::Error> {
        let mut incoming = None;
        let mut scales = None;
        let mut channels = None;
        while let Some(key) = map.next_key::<String>()? {
            match key.as_str() {
                "Incoming" => incoming = Some(map.next_value::<Field<String>>()?.0),
                "Scales" => scales = Some(map.next_value::<Field<String>>()?.0),
                "Channels" => channels = Some(map.next_value::<Doc<Channels>>()?.0),
                _ => {
                    map.next_value::<IgnoredAny>()?;
                }
            }
        }
        Ok(Init {
            incoming: needed(incoming, "Incoming")?,
            scales: needed(scales, "Scales")?,
            channels: needed(channels, "Channels")?,
        })
    }
}

impl Element for XSection {
    const NAME: &'static str = "XSection";
    const FIELDS: &'static [&'static str] = &[
        "XSPos",
        "XSNeg",
        "MaxWeightPos",
        "MaxWeightNeg",
        "TotalEventsPos",
        "TotalEventsNeg",
        "AcceptedEventsPos",
        "AcceptedEventsNeg",
        "FactorPos",
        "FactorNeg",
    ];

    fn read<'de, A: MapAccess<'de>>(mut map: A) -> Result<Self, A::Error> {
        let mut xs_pos = None;
        let mut max_weight_pos = None;
        let mut total_events_pos = None;
        let mut accepted_events_pos = None;
        let mut factor_pos = None;
        while let Some(key) = map.next_key::<String>()? {
            match key.as_str() {
                "XSPos" | "XSNeg" => xs_pos = Some(map.next_value::<Field<XSScale>>()?.0),
                "MaxWeightPos" | "MaxWeightNeg" => {
                    max_weight_pos = Some(map.next_value::<Field<Float>>()?.0)
                }
                "TotalEventsPos" | "TotalEventsNeg" => {
                    total_events_pos = Some(map.next_value::<u64>()?)
                }
                "AcceptedEventsPos" | "AcceptedEventsNeg" => {
                    accepted_events_pos = Some(map.next_value::<u64>()?)
                }
                "FactorPos" | "FactorNeg" => {
                    factor_pos = Some(map.next_value::<Field<String>>()?.0)
                }
                _ => {
                    map.next_value::<IgnoredAny>()?;
                }
            }
        }
        Ok(XSection {
            xs_pos: needed(xs_pos, "XSPos")?,
            max_weight_pos: needed(max_weight_pos, "MaxWeightPos")?,
            total_events_pos: needed(total_events_pos, "TotalEventsPos")?,
            accepted_events_pos: needed(accepted_events_pos, "AcceptedEventsPos")?,
            factor_pos: needed(factor_pos, "FactorPos")?,
        })
    }
}

impl Element for normalization::Reweight {
    const NAME: &'static str = "rw";
    const FIELDS: &'static [&'static str] = &["rwentry"];

    fn read<'de, A: MapAccess<'de>>(mut map: A) -> Result<Self, A::Error> {
        let mut rwentry = Vec::new();
        while let Some(key) = map.next_key::<String>()? {
            match key.as_str() {
                "rwentry" => rwentry = texts(map.next_value::<Vec<Field<String>>>()?),
                _ => {
                    map.next_value::<IgnoredAny>()?;
                }
            }
        }
        Ok(normalization::Reweight { rwentry })
    }
}

impl Element for Contribution {
    const NAME: &'static str = "Contribution";
    const FIELDS: &'static [&'static str] = &["@name", "xsection", "rw"];

    fn read<'de, A: MapAccess<'de>>(mut map: A) -> Result<Self, A::Error> {
        let mut name = None;
        let mut xsection = None;
        let mut rw = None;
        while let Some(key) = map.next_key::<String>()? {
            match key.as_str() {
                "@name" => name = Some(map.next_value::<String>()?),
                "xsection" => xsection = Some(map.next_value::<Field<XSScale>>()?.0),
                "rw" => rw = Some(map.next_value::<Doc<normalization::Reweight>>()?.0),
                _ => {
                    map.next_value::<IgnoredAny>()?;
                }
            }
        }
        Ok(Contribution {
            name: needed(name, "@name")?,
            xsection: needed(xsection, "xsection")?,
            rw: needed(rw, "rw")?,
        })
    }
}

impl Element for Normalization {
    const NAME: &'static str = "Normalization";
    const FIELDS: &'static [&'static str] =
        &["@name", "XSection", "Contribution", "NumberOfRejectedEvents"];

    fn read<'de, A: MapAccess<'de>>(mut map: A) -> Result<Self, A::Error> {
        let mut name = None;
        let mut xsection = None;
        let mut contribution = None;
        let mut number_of_rejected_events = None;
        while let Some(key) = map.next_key::<String>()? {
            match key.as_str() {
                "@name" => name = Some(map.next_value::<String>()?),
                "XSection" => xsection = Some(map.next_value::<Doc<XSection>>()?.0),
                "Contribution" => contribution = Some(map.next_value::<Doc<Contribution>>()?.0),
                "NumberOfRejectedEvents" => {
                    number_of_rejected_events = Some(map.next_value::<Field<String>>()?.0)
                }
                _ => {
                    map.next_value::<IgnoredAny>()?;
                }
            }
        }
        Ok(Normalization {
            name: needed(name, "@name")?,
            xsection: needed(xsection, "XSection")?,
            contribution: needed(contribution, "Contribution")?,
            number_of_rejected_events: needed(
                number_of_rejected_events,
                "NumberOfRejectedEvents",
            )?,
        })
    }
}

fn float(literal: &str) -> Float {
    Float::parse(literal).unwrap()
}

fn number(value: &Float) -> f64 {
    value.as_str().parse().unwrap()
}

fn momentum(literals: [&str; 4]) -> Momentum {
    Momentum(literals.map(float))
}

const REF_SUBEVENT: &str = r#"<se w="-0.0002369763508" muR="91.16253934" muF="91.16253934">
<p id="1,21"> 5780.608219,0,0,5780.608219 </p>
<p id="1,21"> 334.3891359,0,0,-334.3891359 </p>
<p id="0,6"> 357.9061187,-58.25473457,9.621341818,-307.9843429 </p>
<p id="0,-6"> 5757.091237,58.25473457,-9.621341818,5754.203426 </p>
<rw ch="12"> 0.8893243414,0.05144448245,-0.0002369763508 </rw>
</se>"#;

#[test]
fn deser_subevent() {
    let ref_event = SubEvent {
        weight: float("-0.0002369763508"),
        mu_r: float("91.16253934"),
        mu_f: float("91.16253934"),
        particles: vec![
            Particle {
                id: Id { status: Incoming, pdg_id: gluon },
                momentum: momentum(["5780.608219", "0", "0", "5780.608219"]),
            },
            Particle {
                id: Id { status: Incoming, pdg_id: gluon },
                momentum: momentum(["334.3891359", "0", "0", "-334.3891359"]),
            },
            Particle {
                id: Id { status: Outgoing, pdg_id: top },
                momentum: momentum(["357.9061187", "-58.25473457", "9.621341818", "-307.9843429"]),
            },
            Particle {
                id: Id { status: Outgoing, pdg_id: anti_top },
                momentum: momentum(["5757.091237", "58.25473457", "-9.621341818", "5754.203426"]),
            },
        ],
        reweight: vec![Reweight {
            channel: 12,
            reweights: Reweights {
                x1: float("0.8893243414"),
                x2: float("0.05144448245"),
                log_coeff: vec![float("-0.0002369763508")],
            },
        }],
    };
    let event: SubEvent = from_str(REF_SUBEVENT).unwrap();
    assert_eq!(event, ref_event);
}

#[test]
fn subevent_holds_the_numbers_of_its_text() {
    let event: SubEvent = from_str(REF_SUBEVENT).unwrap();
    assert_eq!(number(&event.weight), -0.0002369763508);
    assert_eq!(number(&event.mu_r), 91.16253934);
    assert_eq!(number(&event.mu_f), 91.16253934);
    let statuses: Vec<Status> = event.particles.iter().map(|p| p.id.status).collect();
    assert_eq!(
        statuses,
        [Status::Incoming, Status::Incoming, Status::Outgoing, Status::Outgoing]
    );
    let identities: Vec<i32> = event.particles.iter().map(|p| p.id.pdg_id.id()).collect();
    assert_eq!(identities, [21, 21, 6, -6]);
    let momenta: Vec<Vec<f64>> =
        event.particles.iter().map(|p| p.momentum.0.iter().map(number).collect()).collect();
    assert_eq!(
        momenta,
        [
            [5780.608219, 0., 0., 5780.608219],
            [334.3891359, 0., 0., -334.3891359],
            [357.9061187, -58.25473457, 9.621341818, -307.9843429],
            [5757.091237, 58.25473457, -9.621341818, 5754.203426],
        ]
    );
    assert_eq!(event.reweight.len(), 1);
    assert_eq!(event.reweight[0].channel, 12);
    assert_eq!(number(&event.reweight[0].reweights.x1), 0.8893243414);
    assert_eq!(number(&event.reweight[0].reweights.x2), 0.05144448245);
    let coefficients: Vec<f64> = event.reweight[0].reweights.log_coeff.iter().map(number).collect();
    assert_eq!(coefficients, [-0.0002369763508]);
}

const REF_RECORD: &str = r#"<?xml version="1.0" encoding="UTF-8"?>
<Eventrecord nevents="2286" nsubevents="2286" nreweights="2286" as="2" name="Bm">
<!--
File generated with STRIPPER v0.1 for online data base
-->
<e>
<se w="-0.0002369763508" muR="91.16253934" muF="91.16253934">
<p id="1,21"> 5780.608219,0,0,5780.608219 </p>
<p id="1,21"> 334.3891359,0,0,-334.3891359 </p>
<p id="0,6"> 357.9061187,-58.25473457,9.621341818,-307.9843429 </p>
<p id="0,-6"> 5757.091237,58.25473457,-9.621341818,5754.203426 </p>
<rw ch="12"> 0.8893243414,0.05144448245,-0.0002369763508 </rw>
</se>
</e>
<e>
<se w="-0.0004385904665" muR="517.0997809" muF="517.0997809">
<p id="1,1"> 327.0442813,0,0,327.0442813 </p>
<p id="1,-1"> 4344.52245,0,0,-4344.52245 </p>
<p id="0,6"> 3334.580936,-386.757619,943.5205498,-3170.151619 </p>
<p id="0,-6"> 1336.985795,386.757619,-943.5205498,-847.3265495 </p>
<rw ch="1"> 0.05031450481,0.6683880692,-0.0004385904665 </rw>
</se>
</e>
<e>
<se w="-2.098171554e-05" muR="1140.717994" muF="1140.717994">
<p id="1,1"> 1610.067985,0,0,1610.067985 </p>
<p id="1,-1"> 4034.720799,0,0,-4034.720799 </p>
<p id="0,6"> 3362.889308,-2194.656814,598.8951393,-2470.642493 </p>
<p id="0,-6"> 2281.899476,2194.656814,-598.8951393,45.98967904 </p>
<rw ch="1"> 0.2477027669,0.6207262768,-2.098171554e-05 </rw>
</se>
</e>
<e>
<se w="-4.834595231e-05" muR="635.8532498" muF="635.8532498">
<p id="1,1"> 1299.986308,0,0,1299.986308 </p>
<p id="1,-1"> 3291.996472,0,0,-3291.996472 </p>
<p id="0,6"> 1510.408466,-1129.902831,557.4950784,814.9210479 </p>
<p id="0,-6"> 3081.574313,1129.902831,-557.4950784,-2806.931212 </p>
<rw ch="1"> 0.1999978935,0.5064609956,-4.834595231e-05 </rw>
</se>
</e>
</Eventrecord>
"#;

#[test]
fn deser_file() {
    let record: Eventrecord = from_str(REF_RECORD).unwrap();
    assert_eq!(record.nevents, 2286);
    assert_eq!(record.nsubevents, 2286);
    assert_eq!(record.nreweights, 2286);
    assert_eq!(record.alpha_s_power, 2);
    assert_eq!(record.name, "Bm");
    assert_eq!(record.events.len(), 4);
}

#[test]
fn ser_file() {
    let record: Eventrecord = from_str(REF_RECORD).unwrap();
    let mut tmp = r#"<?xml version="1.0" encoding="UTF-8"?>
"#
    .to_owned();
    record.write(&mut tmp);
    let record_2: Eventrecord = from_reader(tmp.as_bytes()).unwrap();
    assert_eq!(record, record_2);
}

#[test]
fn record_is_written_line_by_line() {
    let mut record: Eventrecord = from_str(REF_RECORD).unwrap();
    record.events.truncate(1);
    let mut text = String::new();
    record.write(&mut text);
    let expected = format!(
        r#"<Eventrecord nevents="2286" nsubevents="2286" nreweights="2286" as="2" name="Bm">
<!--
Record generated with {GENERATOR} {VERSION}
-->
<e>
<se w="-0.0002369763508" muR="91.16253934" muF="91.16253934">
<p id="1,21">5780.608219,0,0,5780.608219</p>
<p id="1,21">334.3891359,0,0,-334.3891359</p>
<p id="0,6">357.9061187,-58.25473457,9.621341818,-307.9843429</p>
<p id="0,-6">5757.091237,58.25473457,-9.621341818,5754.203426</p>
<rw ch="12">0.8893243414,0.05144448245,-0.0002369763508</rw>
</se>
</e>
</Eventrecord>
"#
    );
    assert_eq!(text, expected);
    assert_eq!(GENERATOR, "stripper-xml");
}

#[test]
fn empty_values_are_written_as_their_tags() {
    let mut text = String::new();
    Eventrecord::default().write(&mut text);
    assert_eq!(
        text,
        format!(
            "<Eventrecord nevents=\"0\" nsubevents=\"0\" nreweights=\"0\" as=\"0\" name=\"\">\n\
             <!--\nRecord generated with {GENERATOR} {VERSION}\n-->\n</Eventrecord>\n"
        )
    );
    let mut text = "before".to_owned();
    Event::default().write(&mut text);
    assert_eq!(text, "before<e>\n</e>\n");
    let mut text = String::new();
    SubEvent::default().write(&mut text);
    assert_eq!(text, "<se w=\"0\" muR=\"0\" muF=\"0\">\n</se>\n");
    let mut text = String::new();
    Event { subevents: vec![SubEvent::default(), SubEvent::default()] }.write(&mut text);
    assert_eq!(
        text,
        "<e>\n<se w=\"0\" muR=\"0\" muF=\"0\">\n</se>\n<se w=\"0\" muR=\"0\" muF=\"0\">\n</se>\n</e>\n"
    );
}

struct ParticleElement<'a>(&'a Particle);

impl Serialize for ParticleElement<'_> {
    fn serialize<S: serde::Serializer>(&self, serializer: S) -> Result<S::Ok, S::Error> {
        let mut element = serializer.serialize_struct("p", 2)?;
        element.serialize_field("@id", &self.0.id.encode())?;
        element.serialize_field("$text", &self.0.momentum.encode())?;
        element.end()
    }
}

struct ReweightElement<'a>(&'a Reweight);

impl Serialize for ReweightElement<'_> {
    fn serialize<S: serde::Serializer>(&self, serializer: S) -> Result<S::Ok, S::Error> {
        let mut element = serializer.serialize_struct("rw", 2)?;
        element.serialize_field("@ch", &self.0.channel)?;
        element.serialize_field("$text", &self.0.reweights.encode())?;
        element.end()
    }
}

#[test]
fn lines_are_what_the_xml_serializer_writes() {
    let event: SubEvent = from_str(REF_SUBEVENT).unwrap();
    for particle in &event.particles {
        let mut expected = String::new();
        ParticleElement(particle)
            .serialize(quick_xml::se::Serializer::new(&mut expected))
            .unwrap();
        expected.push('\n');
        let mut line = String::new();
        particle.write(&mut line);
        assert_eq!(line, expected);
    }
    for reweight in &event.reweight {
        let mut expected = String::new();
        ReweightElement(reweight)
            .serialize(quick_xml::se::Serializer::new(&mut expected))
            .unwrap();
        expected.push('\n');
        let mut line = String::new();
        reweight.write(&mut line);
        assert_eq!(line, expected);
    }
}

#[test]
fn deser_init() {
    const REF_CHANNELS: &str = r#"<?xml version="1.0" encoding="UTF-8"?>
<Init>
  <Incoming> p p with NNPDF31_nnlo_as_0118/0 </Incoming>
  <Scales> muR = HT, muF = HT </Scales>
  <Channels>
    <Channel> 0,5,1,1,2,2,3,3,4,4,5,5 </Channel>
    <Channel> 1,5,1,-1,2,-2,3,-3,4,-4,5,-5 </Channel>
    <Channel> 2,20,1,2,1,3,1,4,1,5,2,1,2,3,2,4,2,5,3,1,3,2,3,4,3,5,4,1,4,2,4,3,4,5,5,1,5,2,5,3,5,4 </Channel>
    <Channel> 3,20,1,-2,1,-3,1,-4,1,-5,2,-1,2,-3,2,-4,2,-5,3,-1,3,-2,3,-4,3,-5,4,-1,4,-2,4,-3,4,-5,5,-1,5,-2,5,-3,5,-4 </Channel>
    <Channel> 4,5,1,21,2,21,3,21,4,21,5,21 </Channel>
    <Channel> 5,5,-1,1,-2,2,-3,3,-4,4,-5,5 </Channel>
    <Channel> 6,5,-1,-1,-2,-2,-3,-3,-4,-4,-5,-5 </Channel>
    <Channel> 7,20,-1,2,-1,3,-1,4,-1,5,-2,1,-2,3,-2,4,-2,5,-3,1,-3,2,-3,4,-3,5,-4,1,-4,2,-4,3,-4,5,-5,1,-5,2,-5,3,-5,4 </Channel>
    <Channel> 8,20,-1,-2,-1,-3,-1,-4,-1,-5,-2,-1,-2,-3,-2,-4,-2,-5,-3,-1,-3,-2,-3,-4,-3,-5,-4,-1,-4,-2,-4,-3,-4,-5,-5,-1,-5,-2,-5,-3,-5,-4 </Channel>
    <Channel> 9,5,-1,21,-2,21,-3,21,-4,21,-5,21 </Channel>
    <Channel> 10,5,21,1,21,2,21,3,21,4,21,5 </Channel>
    <Channel> 11,5,21,-1,21,-2,21,-3,21,-4,21,-5 </Channel>
    <Channel> 12,1,21,21 </Channel>
  </Channels>
</Init>
"#;
    let init: Init = from_str(REF_CHANNELS).unwrap();
    assert_eq!(init.channels.channel[5].0, [5, 5, -1, 1, -2, 2, -3, 3, -4, 4, -5, 5]);
    assert_eq!(init.incoming, "p p with NNPDF31_nnlo_as_0118/0");
    assert_eq!(init.scales, "muR = HT, muF = HT");
    assert_eq!(init.channels.channel.len(), 13);
    assert_eq!(init.channels.channel[12].0, [12, 1, 21, 21]);
    assert_eq!(init.clone(), init);
}

#[test]
fn deser_xsection_neg() {
    pub const REF_XS: &str = r#"<XSection>
 <XSNeg> 687.103,0.978277 </XSNeg>
 <MaxWeightNeg> 796475 </MaxWeightNeg>
 <TotalEventsNeg> 488338734 </TotalEventsNeg>
 <AcceptedEventsNeg> 493310 </AcceptedEventsNeg>
 <FactorNeg> 803.98,1.14468 </FactorNeg>
</XSection>"#;
    let _xs: XSection = from_str(REF_XS).unwrap();
}

#[test]
fn deser_xsection_pos() {
    pub const REF_XS: &str = r#"<XSection>
 <XSPos> 687.103,0.978277 </XSPos>
 <MaxWeightPos> 796475 </MaxWeightPos>
 <TotalEventsPos> 488338734 </TotalEventsPos>
 <AcceptedEventsPos> 493310 </AcceptedEventsPos>
 <FactorPos> 803.98,1.14468 </FactorPos>
</XSection>"#;
    let _xs: XSection = from_str(REF_XS).unwrap();
}

#[test]
fn deser_normalization() {
    pub const REF_NORM: &str = r#"<?xml version="1.0" encoding="UTF-8"?>
<Normalization name="Cm">
<!--
File generated with STRIPPER v0.1 for online data base
-->
<XSection>
 <XSNeg> 687.103,0.978277 </XSNeg>
 <MaxWeightNeg> 796475 </MaxWeightNeg>
 <TotalEventsNeg> 488338734 </TotalEventsNeg>
 <AcceptedEventsNeg> 493310 </AcceptedEventsNeg>
 <FactorNeg> 803.98,1.14468 </FactorNeg>
</XSection>
<Contribution name="Cm">
  <xsection> 687.103,0.978277</xsection>
  <rw>
    <rwentry> x1 </rwentry>
    <rwentry> x2 </rwentry>
    <rwentry> log(muR**2) </rwentry>
    <rwentry> log(muF**2) </rwentry>
  </rw>
</Contribution>
<NumberOfRejectedEvents> 0 , 100</NumberOfRejectedEvents>
</Normalization>
"#;
    let norm: Normalization = from_str(REF_NORM).unwrap();
    assert_eq!(norm.name, "Cm");
    assert_eq!(norm.contribution.name, "Cm");
    let xsection: Vec<f64> = norm.contribution.xsection.0.iter().map(number).collect();
    assert_eq!(xsection, [687.103, 0.978277]);
    assert_eq!(norm.contribution.rw.rwentry, ["x1", "x2", "log(muR**2)", "log(muF**2)"]);
    assert_eq!(norm.number_of_rejected_events, "0 , 100");
    assert_eq!(norm.clone(), norm);
    let XSection { xs_pos, max_weight_pos, total_events_pos, accepted_events_pos, factor_pos } =
        norm.xsection;
    assert_eq!(xs_pos, XSScale([float("687.103"), float("0.978277")]));
    assert_eq!(number(&max_weight_pos), 796475.);
    assert_eq!(accepted_events_pos, 493310);
    assert_eq!(total_events_pos, 488338734);
    assert_eq!(factor_pos, "803.98,1.14468");
}

#[test]
fn a_written_subevent_is_read_back() {
    let event: SubEvent = from_str(REF_SUBEVENT).unwrap();
    let mut text = String::new();
    event.write(&mut text);
    let back: SubEvent = from_str(&text).unwrap();
    assert_eq!(back, event);
    assert_eq!(event.clone(), event);
}

#[test]
fn a_field_that_cannot_be_read_fails_the_document() {
    let message = |text: &str| from_str::<SubEvent>(text).err().unwrap().to_string();
    let short = message(r#"<se w="1" muR="1" muF="1"><p id="1,21"> 1,2,3 </p></se>"#);
    assert!(
        short.contains("'1,2,3' is not a comma-separated list with 4 float values"),
        "{short}"
    );
    let status = message(r#"<se w="1" muR="1" muF="1"><p id="2,21"> 1,2,3,4 </p></se>"#);
    assert!(status.contains("'2' is not a particle status"), "{status}");
    let weight = message(r#"<se w="heavy" muR="1" muF="1"></se>"#);
    assert!(weight.contains("'heavy' is not a floating-point number"), "{weight}");
    let identity = message(r#"<se w="1" muR="1" muF="1"><p id="1,gluon"> 1,2,3,4 </p></se>"#);
    assert!(identity.contains("'gluon' is not an integer"), "{identity}");
    let reweight = message(r#"<se w="1" muR="1" muF="1"><rw ch="1"> 0.5 </rw></se>"#);
    assert!(
        reweight.contains("'0.5' is not a comma-separated list with 2 float values"),
        "{reweight}"
    );
    let channel = r#"<Init><Incoming>p p</Incoming><Scales>HT</Scales>
        <Channels><Channel> 7 </Channel></Channels></Init>"#;
    let channel = from_str::<Init>(channel).err().unwrap().to_string();
    assert!(
        channel.contains("'7' is not a comma-separated list with 2 float values"),
        "{channel}"
    );
}

#[test]
fn defaults_are_empty() {
    assert_eq!(Init::default().channels.channel.len(), 0);
    assert_eq!(Channel::default().0, Vec::<i32>::new());
    let norm = Normalization::default();
    assert_eq!(norm.name, "");
    assert_eq!(norm.xsection.xs_pos.encode(), "0,0");
    assert_eq!(norm.contribution.rw.rwentry, Vec::<String>::new());
    let record = Eventrecord::default();
    assert_eq!((record.nevents, record.nsubevents, record.nreweights), (0, 0, 0));
    assert_eq!(Reweight::default().channel, 0);
}
