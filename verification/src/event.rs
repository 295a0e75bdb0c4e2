//! Event records: the document model, the compact fields of its particles
//! and reweighting entries, and the writer of the record's text.

use vstd::prelude::*;
use vstd::string::StringExecFns;
use particle_id::ParticleID;
pub use crate::error::ParseErr;
use crate::error::{outcome, NumberKind, ParseErrView};
use crate::fields::{
    all_float_literals, float_fields, lemma_float_field_text, lemma_float_fields_of_joined,
    lemma_integer_text, lemma_joined_float_fields, push_literals, read_floats, write_floats,
};
use crate::float::Float;
use crate::integer::{i32_to_string, i32_value, integer_text, parse_i32, push_u64};
use crate::text::{
    all_comma_free, chars_of, is_entry_text, is_field_text, join, join_commas, lemma_join_entries,
    lemma_split_join, seq_view, split, split_commas,
};

verus! {

/// The type `ParticleID` of the crate particle_id, as a value that is
/// carried through and not looked into.
#[verifier::external_type_specification]
#[verifier::external_body]
pub struct ExParticleID(ParticleID);

/// The code of the Monte Carlo numbering scheme that a particle identity
/// stands for.
pub uninterp spec fn pdg_code(id: ParticleID) -> i32;

/// Trusted: `ParticleID::new` of the crate particle_id wraps the code that
/// it is given.
pub assume_specification[ ParticleID::new ](id: i32) -> (r: ParticleID)
    ensures
        pdg_code(r) == id,
;

/// Trusted: `ParticleID::id` of the crate particle_id hands out the code
/// that the identity wraps.
pub assume_specification[ ParticleID::id ](this: ParticleID) -> (id: i32)
    ensures
        id == pdg_code(this),
;

/// Whether a particle enters the interaction or leaves it.
#[derive(Copy, Clone, Debug, Eq, PartialEq, Ord, PartialOrd, Hash, Structural)]
pub enum Status {
    Outgoing,
    Incoming,
}

impl Status {
    /// The token that stands for the status: `0` for outgoing, `1` for
    /// incoming.
    pub open spec fn token(self) -> Seq<char> {
        match self {
            Status::Outgoing => seq!['0'],
            Status::Incoming => seq!['1'],
        }
    }

    /// The status that a token stands for. Only the two tokens `0` and `1`
    /// stand for one.
    pub open spec fn of_token(token: Seq<char>) -> Option<Status> {
        if token == seq!['0'] {
            Some(Status::Outgoing)
        } else if token == seq!['1'] {
            Some(Status::Incoming)
        } else {
            None
        }
    }

    /// Reads a status from its token.
    pub fn parse(token: &str) -> (r: Result<Status, ParseErr>)
        ensures
            match r {
                Ok(status) => Status::of_token(token@) == Some(status),
                Err(e) => Status::of_token(token@) is None && e@ == ParseErrView::Status(token@),
            },
    {
        let chars = chars_of(token);
        if chars.len() == 1 && chars[0] == '0' {
            assert(token@ =~= seq!['0']);
            Ok(Status::Outgoing)
        } else if chars.len() == 1 && chars[0] == '1' {
            assert(token@ =~= seq!['1']);
            Ok(Status::Incoming)
        } else {
            assert(seq!['0'][0] == '0' && seq!['1'][0] == '1');
            Err(ParseErr::Status(token.to_owned()))
        }
    }

    /// The token that stands for the status.
    pub fn to_token(self) -> (r: String)
        ensures
            r@ == self.token(),
    {
        let mut r = String::new();
        match self {
            Status::Outgoing => r.push('0'),
            Status::Incoming => r.push('1'),
        }
        assert(r@ =~= self.token());
        r
    }
}

impl core::str::FromStr for Status {
    type Err = ParseErr;

    /// Reads a status from its token, as [`Status::parse`] does.
    fn from_str(token: &str) -> (r: Result<Status, ParseErr>)
        ensures
            match r {
                Ok(status) => Status::of_token(token@) == Some(status),
                Err(e) => Status::of_token(token@) is None && e@ == ParseErrView::Status(token@),
            },
    {
        Status::parse(token)
    }
}

/// What kind of particle it is, and whether it comes in or goes out.
#[derive(Copy, Clone, Debug, Eq, PartialEq, Ord, PartialOrd, Hash)]
pub struct Id {
    pub status: Status,
    pub pdg_id: ParticleID,
}

/// An [`Id`] with the particle's identity as its code.
pub struct IdView {
    pub status: Status,
    pub code: i32,
}

impl View for Id {
    type V = IdView;

    open spec fn view(&self) -> IdView {
        IdView { status: self.status, code: pdg_code(self.pdg_id) }
    }
}

impl Id {
    /// What reading `text` as an id gives: exactly two entries, a status and
    /// a particle code.
    pub open spec fn decoded(text: Seq<char>) -> Result<IdView, ParseErrView> {
        let tokens = split_commas(text);
        if tokens.len() != 2 {
            Err(ParseErrView::NumEntries(text, 2))
        } else {
            match (Status::of_token(tokens[0]), i32_value(tokens[1])) {
                (None, _) => Err(ParseErrView::Status(tokens[0])),
                (Some(_), None) => Err(ParseErrView::Field(tokens[1], NumberKind::Integer)),
                (Some(status), Some(code)) => Ok(IdView { status, code }),
            }
        }
    }

    /// How an id is written.
    pub open spec fn encoded(id: IdView) -> Seq<char> {
        join_commas(seq![id.status.token(), integer_text(id.code as int)])
    }

    /// Reads an id from the text of its field.
    pub fn decode(text: &str) -> (r: Result<Id, ParseErr>)
        ensures
            outcome(r) == Id::decoded(text@),
    {
        let tokens = split(text);
        if tokens.len() != 2 {
            return Err(ParseErr::NumEntries(text.to_owned(), 2));
        }
        assert(seq_view(tokens@)[0] == tokens[0]@);
        assert(seq_view(tokens@)[1] == tokens[1]@);
        let status = match Status::parse(tokens[0].as_str()) {
            Ok(status) => status,
            Err(e) => {
                return Err(e);
            },
        };
        match parse_i32(tokens[1].as_str()) {
            Some(code) => Ok(Id { status, pdg_id: ParticleID::new(code) }),
            None => Err(ParseErr::Field(tokens[1].clone(), NumberKind::Integer)),
        }
    }

    /// Writes the id as the text of its field. Reading that text gives the
    /// id back.
    pub fn encode(&self) -> (text: String)
        ensures
            text@ == Id::encoded(self@),
            Id::decoded(text@) == Ok::<_, ParseErrView>(self@),
            is_field_text(text@),
    {
        let mut tokens: Vec<String> = Vec::new();
        tokens.push(self.status.to_token());
        tokens.push(i32_to_string(self.pdg_id.id()));
        proof {
            assert(seq_view(tokens@) =~= seq![
                self.status.token(),
                integer_text(self@.code as int),
            ]);
            Id::lemma_decode_encode(self@);
            Id::lemma_field_text(self@);
        }
        join(&tokens)
    }

    /// A text with more or fewer than two entries is no id, whatever its
    /// entries are.
    pub proof fn lemma_wrong_arity(text: Seq<char>)
        requires
            split_commas(text).len() != 2,
        ensures
            Id::decoded(text) == Err::<IdView, _>(ParseErrView::NumEntries(text, 2)),
    {
    }

    /// A text whose first entry is neither `0` nor `1` is no id, whatever its
    /// second entry is.
    pub proof fn lemma_wrong_status(text: Seq<char>)
        requires
            split_commas(text).len() == 2,
            Status::of_token(split_commas(text)[0]) is None,
        ensures
            Id::decoded(text) == Err::<IdView, _>(ParseErrView::Status(split_commas(text)[0])),
    {
    }

    /// An id is written as the text of a field.
    pub proof fn lemma_field_text(id: IdView)
        ensures
            is_field_text(Id::encoded(id)),
    {
        let tokens = seq![id.status.token(), integer_text(id.code as int)];
        lemma_integer_text(id.code);
        assert forall|i: int| 0 <= i < tokens.len() implies is_entry_text(#[trigger] tokens[i]) by {
            if i == 0 {
                assert(tokens[0].len() == 1);
            }
        }
        lemma_join_entries(tokens);
    }

    /// Reading an id that was written gives the id back.
    pub proof fn lemma_decode_encode(id: IdView)
        ensures
            Id::decoded(Id::encoded(id)) == Ok::<_, ParseErrView>(id),
    {
        let tokens = seq![id.status.token(), integer_text(id.code as int)];
        lemma_integer_text(id.code);
        assert(all_comma_free(tokens)) by {
            assert(tokens[0][0] != ',');
        }
        lemma_split_join(tokens);
        assert(Status::of_token(tokens[0]) == Some(id.status)) by {
            assert(seq!['0'][0] != seq!['1'][0]);
        }
    }
}

/// The four-momentum of a particle: energy, then the momentum along x, y
/// and z.
#[derive(Debug, PartialEq, Eq, Hash)]
pub struct Momentum(pub [Float; 4]);

impl View for Momentum {
    type V = Seq<Seq<char>>;

    /// The literals of the four components.
    open spec fn view(&self) -> Seq<Seq<char>> {
        seq_view(self.0@)
    }
}

impl Momentum {
    /// What reading `text` as a momentum gives: exactly four floating-point
    /// entries.
    pub open spec fn decoded(text: Seq<char>) -> Result<Seq<Seq<char>>, ParseErrView> {
        float_fields(text, 4, true)
    }

    /// How a momentum is written.
    pub open spec fn encoded(momentum: Seq<Seq<char>>) -> Seq<char> {
        join_commas(momentum)
    }

    /// Four floating-point literals.
    pub open spec fn valid(momentum: Seq<Seq<char>>) -> bool {
        momentum.len() == 4 && all_float_literals(momentum)
    }

    /// Reads a momentum from the text of its field. A momentum that was read
    /// is written as the text that it was read from.
    pub fn decode(text: &str) -> (r: Result<Momentum, ParseErr>)
        ensures
            outcome(r) == Momentum::decoded(text@),
            r is Ok ==> Momentum::encoded(r->Ok_0@) == text@,
    {
        proof {
            if Momentum::decoded(text@) is Ok {
                Momentum::lemma_encode_decode(text@);
            }
        }
        match read_floats(text, 4, true) {
            Ok(mut values) => {
                let ghost all = seq_view(values@);
                let pz = values.pop().unwrap();
                let py = values.pop().unwrap();
                let px = values.pop().unwrap();
                let e = values.pop().unwrap();
                let momentum = Momentum([e, px, py, pz]);
                assert(momentum@ =~= all);
                Ok(momentum)
            },
            Err(e) => Err(e),
        }
    }

    /// Writes the momentum as the text of its field. Reading that text gives
    /// the momentum back.
    pub fn encode(&self) -> (text: String)
        ensures
            text@ == Momentum::encoded(self@),
            Momentum::valid(self@),
            Momentum::decoded(text@) == Ok::<_, ParseErrView>(self@),
            is_field_text(text@),
    {
        let text = write_floats(self.0.as_slice());
        proof {
            Momentum::lemma_decode_encode(self@);
        }
        text
    }

    /// A text with more or fewer than four entries is no momentum, whatever
    /// its entries are.
    pub proof fn lemma_wrong_arity(text: Seq<char>)
        requires
            split_commas(text).len() != 4,
        ensures
            Momentum::decoded(text) == Err::<Seq<Seq<char>>, _>(ParseErrView::NumEntries(text, 4)),
    {
    }

    /// Reading a momentum that was written gives the momentum back.
    pub proof fn lemma_decode_encode(momentum: Seq<Seq<char>>)
        requires
            Momentum::valid(momentum),
        ensures
            Momentum::decoded(Momentum::encoded(momentum)) == Ok::<_, ParseErrView>(momentum),
    {
        lemma_float_fields_of_joined(momentum, 4, true);
    }

    /// A text that reads as a momentum is written back as it stood, so what
    /// is written reads as the same four values.
    pub proof fn lemma_encode_decode(text: Seq<char>)
        requires
            Momentum::decoded(text) is Ok,
        ensures
            Momentum::encoded(Momentum::decoded(text)->Ok_0) == text,
            Momentum::decoded(Momentum::encoded(Momentum::decoded(text)->Ok_0))
                == Momentum::decoded(text),
            Momentum::valid(Momentum::decoded(text)->Ok_0),
    {
        lemma_joined_float_fields(text, 4, true);
    }
}

impl Clone for Momentum {
    fn clone(&self) -> (r: Self)
        ensures
            r@ == self@,
    {
        let r = Momentum(
            [self.0[0].clone(), self.0[1].clone(), self.0[2].clone(), self.0[3].clone()],
        );
        assert(r@ =~= self@);
        r
    }
}

impl Default for Momentum {
    /// Zero in every component.
    fn default() -> (r: Self)
        ensures
            r@ == seq![seq!['0'], seq!['0'], seq!['0'], seq!['0']],
    {
        let r = Momentum([Float::zero(), Float::zero(), Float::zero(), Float::zero()]);
        assert(r@ =~= seq![seq!['0'], seq!['0'], seq!['0'], seq!['0']]);
        r
    }
}

/// What a reweighting entry holds: the two momentum fractions of the
/// partons, then one coefficient for each logarithmic term.
#[derive(Debug, PartialEq, Eq, Hash)]
pub struct Reweights {
    pub x1: Float,
    pub x2: Float,
    pub log_coeff: Vec<Float>,
}

/// A [`Reweights`] with its values as literals.
pub struct ReweightsView {
    pub x1: Seq<char>,
    pub x2: Seq<char>,
    pub log_coeff: Seq<Seq<char>>,
}

impl ReweightsView {
    /// The literals in the order in which they are written.
    pub open spec fn tokens(self) -> Seq<Seq<char>> {
        seq![self.x1, self.x2] + self.log_coeff
    }
}

impl View for Reweights {
    type V = ReweightsView;

    open spec fn view(&self) -> ReweightsView {
        ReweightsView { x1: self.x1@, x2: self.x2@, log_coeff: seq_view(self.log_coeff@) }
    }
}

impl Reweights {
    /// What reading `text` as the values of a reweighting entry gives: at
    /// least two floating-point entries.
    pub open spec fn decoded(text: Seq<char>) -> Result<ReweightsView, ParseErrView> {
        match float_fields(text, 2, false) {
            Ok(tokens) => Ok(
                ReweightsView { x1: tokens[0], x2: tokens[1], log_coeff: tokens.skip(2) },
            ),
            Err(e) => Err(e),
        }
    }

    /// How the values of a reweighting entry are written.
    pub open spec fn encoded(reweights: ReweightsView) -> Seq<char> {
        join_commas(reweights.tokens())
    }

    /// Floating-point literals throughout.
    pub open spec fn valid(reweights: ReweightsView) -> bool {
        all_float_literals(reweights.tokens())
    }

    /// Reads the values of a reweighting entry from the text of its field.
    /// Values that were read are written as the text that they were read
    /// from.
    pub fn decode(text: &str) -> (r: Result<Reweights, ParseErr>)
        ensures
            outcome(r) == Reweights::decoded(text@),
            r is Ok ==> Reweights::encoded(r->Ok_0@) == text@,
    {
        proof {
            if Reweights::decoded(text@) is Ok {
                Reweights::lemma_encode_decode(text@);
            }
        }
        match read_floats(text, 2, false) {
            Ok(mut values) => {
                let ghost all = seq_view(values@);
                let x1 = values.remove(0);
                let x2 = values.remove(0);
                let reweights = Reweights { x1, x2, log_coeff: values };
                assert(reweights@.log_coeff =~= all.skip(2));
                assert(reweights@.x1 == all[0] && reweights@.x2 == all[1]);
                Ok(reweights)
            },
            Err(e) => Err(e),
        }
    }

    /// Writes the values as the text of their field. Reading that text gives
    /// the values back.
    pub fn encode(&self) -> (text: String)
        ensures
            text@ == Reweights::encoded(self@),
            Reweights::valid(self@),
            Reweights::decoded(text@) == Ok::<_, ParseErrView>(self@),
            is_field_text(text@),
    {
        let mut tokens: Vec<String> = Vec::new();
        tokens.push(self.x1.as_str().to_owned());
        tokens.push(self.x2.as_str().to_owned());
        assert(seq_view(tokens@) =~= seq![self.x1@, self.x2@]);
        push_literals(&mut tokens, self.log_coeff.as_slice());
        proof {
            Reweights::lemma_decode_encode(self@);
            lemma_float_field_text(self@.tokens());
        }
        join(&tokens)
    }

    /// A text with fewer than two entries holds no values of a reweighting
    /// entry, whatever its entries are.
    pub proof fn lemma_too_short(text: Seq<char>)
        requires
            split_commas(text).len() < 2,
        ensures
            Reweights::decoded(text) == Err::<ReweightsView, _>(
                ParseErrView::NumEntries(text, 2),
            ),
    {
    }

    /// Reading the values of a reweighting entry that were written gives
    /// them back.
    pub proof fn lemma_decode_encode(reweights: ReweightsView)
        requires
            Reweights::valid(reweights),
        ensures
            Reweights::decoded(Reweights::encoded(reweights)) == Ok::<_, ParseErrView>(reweights),
    {
        let tokens = reweights.tokens();
        lemma_float_fields_of_joined(tokens, 2, false);
        assert(tokens.skip(2) =~= reweights.log_coeff);
    }

    /// A text that reads as the values of a reweighting entry is written
    /// back as it stood.
    pub proof fn lemma_encode_decode(text: Seq<char>)
        requires
            Reweights::decoded(text) is Ok,
        ensures
            Reweights::encoded(Reweights::decoded(text)->Ok_0) == text,
            Reweights::valid(Reweights::decoded(text)->Ok_0),
    {
        lemma_joined_float_fields(text, 2, false);
        let tokens = float_fields(text, 2, false)->Ok_0;
        assert(Reweights::decoded(text)->Ok_0.tokens() =~= tokens);
    }
}

impl Clone for Reweights {
    fn clone(&self) -> (r: Self)
        ensures
            r@ == self@,
    {
        let log_coeff = self.log_coeff.clone();
        assert(seq_view(log_coeff@) =~= seq_view(self.log_coeff@));
        Reweights { x1: self.x1.clone(), x2: self.x2.clone(), log_coeff }
    }
}

impl Default for Reweights {
    /// Both fractions zero, and no coefficients.
    fn default() -> (r: Self)
        ensures
            r@ == (ReweightsView { x1: seq!['0'], x2: seq!['0'], log_coeff: Seq::empty() }),
    {
        let r = Reweights { x1: Float::zero(), x2: Float::zero(), log_coeff: Vec::new() };
        assert(r@.log_coeff =~= Seq::empty());
        r
    }
}

/// A particle of a sub-event.
#[derive(Debug, PartialEq, Eq, Hash)]
pub struct Particle {
    pub id: Id,
    pub momentum: Momentum,
}

/// A [`Particle`] by the views of its parts.
pub struct ParticleView {
    pub id: IdView,
    pub momentum: Seq<Seq<char>>,
}

impl View for Particle {
    type V = ParticleView;

    open spec fn view(&self) -> ParticleView {
        ParticleView { id: self.id@, momentum: self.momentum@ }
    }
}

impl Clone for Particle {
    fn clone(&self) -> (r: Self)
        ensures
            r@ == self@,
    {
        Particle { id: self.id, momentum: self.momentum.clone() }
    }
}

/// A reweighting entry of a sub-event: the channel it belongs to and its
/// values.
#[derive(Debug, PartialEq, Eq, Hash)]
pub struct Reweight {
    pub channel: u32,
    pub reweights: Reweights,
}

/// A [`Reweight`] by the views of its parts.
pub struct ReweightView {
    pub channel: u32,
    pub reweights: ReweightsView,
}

impl View for Reweight {
    type V = ReweightView;

    open spec fn view(&self) -> ReweightView {
        ReweightView { channel: self.channel, reweights: self.reweights@ }
    }
}

impl Clone for Reweight {
    fn clone(&self) -> (r: Self)
        ensures
            r@ == self@,
    {
        Reweight { channel: self.channel, reweights: self.reweights.clone() }
    }
}

impl Default for Reweight {
    /// Channel zero, with values zero and no coefficients.
    fn default() -> (r: Self)
        ensures
            r@ == (ReweightView {
                channel: 0,
                reweights: ReweightsView {
                    x1: seq!['0'],
                    x2: seq!['0'],
                    log_coeff: Seq::empty(),
                },
            }),
    {
        Reweight { channel: 0, reweights: Reweights::default() }
    }
}

/// One weighted realisation of an event.
#[derive(Debug, PartialEq, Eq, Hash)]
pub struct SubEvent {
    pub weight: Float,
    pub mu_r: Float,
    pub mu_f: Float,
    pub particles: Vec<Particle>,
    pub reweight: Vec<Reweight>,
}

/// A [`SubEvent`] by the views of its parts.
pub struct SubEventView {
    pub weight: Seq<char>,
    pub mu_r: Seq<char>,
    pub mu_f: Seq<char>,
    pub particles: Seq<ParticleView>,
    pub reweight: Seq<ReweightView>,
}

impl View for SubEvent {
    type V = SubEventView;

    open spec fn view(&self) -> SubEventView {
        SubEventView {
            weight: self.weight@,
            mu_r: self.mu_r@,
            mu_f: self.mu_f@,
            particles: seq_view(self.particles@),
            reweight: seq_view(self.reweight@),
        }
    }
}

impl Clone for SubEvent {
    fn clone(&self) -> (r: Self)
        ensures
            r@ == self@,
    {
        let particles = self.particles.clone();
        let reweight = self.reweight.clone();
        assert(seq_view(particles@) =~= seq_view(self.particles@));
        assert(seq_view(reweight@) =~= seq_view(self.reweight@));
        SubEvent {
            weight: self.weight.clone(),
            mu_r: self.mu_r.clone(),
            mu_f: self.mu_f.clone(),
            particles,
            reweight,
        }
    }
}

impl Default for SubEvent {
    /// A sub-event without particles and reweighting entries, with weight
    /// and scales zero.
    fn default() -> (r: Self)
        ensures
            r@ == (SubEventView {
                weight: seq!['0'],
                mu_r: seq!['0'],
                mu_f: seq!['0'],
                particles: Seq::empty(),
                reweight: Seq::empty(),
            }),
    {
        let r = SubEvent {
            weight: Float::zero(),
            mu_r: Float::zero(),
            mu_f: Float::zero(),
            particles: Vec::new(),
            reweight: Vec::new(),
        };
        assert(r@.particles =~= Seq::empty());
        assert(r@.reweight =~= Seq::empty());
        r
    }
}

/// An event: its sub-events, in the order in which they were recorded.
#[derive(Debug, PartialEq, Eq, Hash)]
pub struct Event {
    pub subevents: Vec<SubEvent>,
}

/// An [`Event`] by the views of its sub-events.
pub struct EventView {
    pub subevents: Seq<SubEventView>,
}

impl View for Event {
    type V = EventView;

    open spec fn view(&self) -> EventView {
        EventView { subevents: seq_view(self.subevents@) }
    }
}

impl Clone for Event {
    fn clone(&self) -> (r: Self)
        ensures
            r@ == self@,
    {
        let subevents = self.subevents.clone();
        assert(seq_view(subevents@) =~= seq_view(self.subevents@));
        Event { subevents }
    }
}

impl Default for Event {
    /// An event without sub-events.
    fn default() -> (r: Self)
        ensures
            r@ == (EventView { subevents: Seq::empty() }),
    {
        let r = Event { subevents: Vec::new() };
        assert(r@.subevents =~= Seq::empty());
        r
    }
}

/// A record of events. The three counts and the power of the strong coupling
/// are what the producer declared; nothing holds them to the events that the
/// record carries.
#[derive(Debug, PartialEq, Eq, Hash)]
pub struct Eventrecord {
    pub nevents: u64,
    pub nsubevents: u64,
    pub nreweights: u64,
    pub alpha_s_power: u64,
    pub name: String,
    pub events: Vec<Event>,
}

/// An [`Eventrecord`] by the views of its parts.
pub struct EventrecordView {
    pub nevents: u64,
    pub nsubevents: u64,
    pub nreweights: u64,
    pub alpha_s_power: u64,
    pub name: Seq<char>,
    pub events: Seq<EventView>,
}

impl View for Eventrecord {
    type V = EventrecordView;

    open spec fn view(&self) -> EventrecordView {
        EventrecordView {
            nevents: self.nevents,
            nsubevents: self.nsubevents,
            nreweights: self.nreweights,
            alpha_s_power: self.alpha_s_power,
            name: self.name@,
            events: seq_view(self.events@),
        }
    }
}

impl Clone for Eventrecord {
    fn clone(&self) -> (r: Self)
        ensures
            r@ == self@,
    {
        let events = self.events.clone();
        assert(seq_view(events@) =~= seq_view(self.events@));
        Eventrecord {
            nevents: self.nevents,
            nsubevents: self.nsubevents,
            nreweights: self.nreweights,
            alpha_s_power: self.alpha_s_power,
            name: self.name.clone(),
            events,
        }
    }
}

impl Default for Eventrecord {
    /// A record without a name and without events, with all counts zero.
    fn default() -> (r: Self)
        ensures
            r@ == (EventrecordView {
                nevents: 0,
                nsubevents: 0,
                nreweights: 0,
                alpha_s_power: 0,
                name: Seq::empty(),
                events: Seq::empty(),
            }),
    {
        let r = Eventrecord {
            nevents: 0,
            nsubevents: 0,
            nreweights: 0,
            alpha_s_power: 0,
            name: String::new(),
            events: Vec::new(),
        };
        assert(r@.events =~= Seq::empty());
        r
    }
}

/// The name under which the writer signs a record.
pub const GENERATOR: &'static str = "stripper-xml";

/// The version under which the writer signs a record.
pub const VERSION: &'static str = "0.1.0";

/// The line of a particle: its id as an attribute, its momentum as the text.
/// Both are texts of fields as they are written ([`is_field_text`]), so
/// nothing in them has to be escaped.
pub open spec fn particle_xml(p: ParticleView) -> Seq<char> {
    "<p id=\""@ + Id::encoded(p.id) + "\">"@ + Momentum::encoded(p.momentum) + "</p>\n"@
}

/// The line of a reweighting entry: its channel as an attribute, its values
/// as the text. Nothing in them has to be escaped.
pub open spec fn reweight_xml(rw: ReweightView) -> Seq<char> {
    "<rw ch=\""@ + integer_text(rw.channel as int) + "\">"@ + Reweights::encoded(rw.reweights)
        + "</rw>\n"@
}

/// The lines of the particles, in order.
pub open spec fn particles_xml(particles: Seq<ParticleView>) -> Seq<char>
    decreases particles.len(),
{
    if particles.len() == 0 {
        Seq::empty()
    } else {
        particles_xml(particles.drop_last()) + particle_xml(particles.last())
    }
}

/// The lines of the reweighting entries, in order.
pub open spec fn reweights_xml(reweights: Seq<ReweightView>) -> Seq<char>
    decreases reweights.len(),
{
    if reweights.len() == 0 {
        Seq::empty()
    } else {
        reweights_xml(reweights.drop_last()) + reweight_xml(reweights.last())
    }
}

/// The block of a sub-event: the opening tag with weight and scales on a
/// line, a line for each particle, a line for each reweighting entry, the
/// closing tag on a line.
pub open spec fn subevent_xml(se: SubEventView) -> Seq<char> {
    "<se w=\""@ + se.weight + "\" muR=\""@ + se.mu_r + "\" muF=\""@ + se.mu_f + "\">\n"@
        + particles_xml(se.particles) + reweights_xml(se.reweight) + "</se>\n"@
}

/// The blocks of the sub-events, in order.
pub open spec fn subevents_xml(subevents: Seq<SubEventView>) -> Seq<char>
    decreases subevents.len(),
{
    if subevents.len() == 0 {
        Seq::empty()
    } else {
        subevents_xml(subevents.drop_last()) + subevent_xml(subevents.last())
    }
}

/// The block of an event: the blocks of its sub-events between an opening
/// and a closing tag, each on a line.
pub open spec fn event_xml(event: EventView) -> Seq<char> {
    "<e>\n"@ + subevents_xml(event.subevents) + "</e>\n"@
}

/// The blocks of the events, in order.
pub open spec fn events_xml(events: Seq<EventView>) -> Seq<char>
    decreases events.len(),
{
    if events.len() == 0 {
        Seq::empty()
    } else {
        events_xml(events.drop_last()) + event_xml(events.last())
    }
}

/// The opening tag of a record, with all its attributes, on a line. The name
/// is written as it is.
pub open spec fn record_open_xml(record: EventrecordView) -> Seq<char> {
    "<Eventrecord nevents=\""@ + integer_text(record.nevents as int) + "\" nsubevents=\""@
        + integer_text(record.nsubevents as int) + "\" nreweights=\""@ + integer_text(
        record.nreweights as int,
    ) + "\" as=\""@ + integer_text(record.alpha_s_power as int) + "\" name=\""@ + record.name
        + "\">\n"@
}

/// The comment that names the writer and its version.
pub open spec fn signature_xml() -> Seq<char> {
    "<!--\nRecord generated with "@ + GENERATOR@ + " "@ + VERSION@ + "\n-->\n"@
}

/// The text of a record: the opening tag, the comment that names the writer,
/// the blocks of the events, the closing tag.
pub open spec fn record_xml(record: EventrecordView) -> Seq<char> {
    record_open_xml(record) + signature_xml() + events_xml(record.events) + "</Eventrecord>\n"@
}

/// Values that are written as text in the layout of event records.
pub trait WriteXML {
    /// The text that the value is written as.
    spec fn xml(&self) -> Seq<char>;

    /// Appends the text of the value to `out`.
    fn write(&self, out: &mut String)
        ensures
            final(out)@ == old(out)@ + self.xml(),
    ;
}

impl WriteXML for Particle {
    open spec fn xml(&self) -> Seq<char> {
        particle_xml(self@)
    }

    fn write(&self, out: &mut String) {
        out.append("<p id=\"");
        let id = self.id.encode();
        out.append(id.as_str());
        out.append("\">");
        let momentum = self.momentum.encode();
        out.append(momentum.as_str());
        out.append("</p>\n");
        assert(final(out)@ =~= old(out)@ + self.xml());
    }
}

impl WriteXML for Reweight {
    open spec fn xml(&self) -> Seq<char> {
        reweight_xml(self@)
    }

    fn write(&self, out: &mut String) {
        out.append("<rw ch=\"");
        push_u64(out, self.channel as u64);
        out.append("\">");
        let reweights = self.reweights.encode();
        out.append(reweights.as_str());
        out.append("</rw>\n");
        assert(final(out)@ =~= old(out)@ + self.xml());
    }
}

impl WriteXML for SubEvent {
    open spec fn xml(&self) -> Seq<char> {
        subevent_xml(self@)
    }

    fn write(&self, out: &mut String) {
        out.append("<se w=\"");
        out.append(self.weight.as_str());
        out.append("\" muR=\"");
        out.append(self.mu_r.as_str());
        out.append("\" muF=\"");
        out.append(self.mu_f.as_str());
        out.append("\">\n");
        let ghost head = out@;
        let ghost particles = self@.particles;
        let n = self.particles.len();
        let mut i: usize = 0;
        assert(out@ =~= head + particles_xml(particles.take(0)));
        while i < n
            invariant
                i <= n,
                n == self.particles.len(),
                particles == self@.particles,
                out@ == head + particles_xml(particles.take(i as int)),
            decreases n - i,
        {
            self.particles[i].write(out);
            proof {
                assert(particles.take(i + 1).drop_last() =~= particles.take(i as int));
                assert(out@ =~= head + particles_xml(particles.take(i + 1)));
            }
            i += 1;
        }
        assert(particles.take(n as int) =~= particles);
        let ghost middle = out@;
        let ghost reweights = self@.reweight;
        let m = self.reweight.len();
        let mut j: usize = 0;
        assert(out@ =~= middle + reweights_xml(reweights.take(0)));
        while j < m
            invariant
                j <= m,
                m == self.reweight.len(),
                reweights == self@.reweight,
                out@ == middle + reweights_xml(reweights.take(j as int)),
            decreases m - j,
        {
            self.reweight[j].write(out);
            proof {
                assert(reweights.take(j + 1).drop_last() =~= reweights.take(j as int));
                assert(out@ =~= middle + reweights_xml(reweights.take(j + 1)));
            }
            j += 1;
        }
        assert(reweights.take(m as int) =~= reweights);
        out.append("</se>\n");
        assert(final(out)@ =~= old(out)@ + self.xml());
    }
}

impl WriteXML for Event {
    open spec fn xml(&self) -> Seq<char> {
        event_xml(self@)
    }

    fn write(&self, out: &mut String) {
        out.append("<e>\n");
        let ghost head = out@;
        let ghost subevents = self@.subevents;
        let n = self.subevents.len();
        let mut i: usize = 0;
        assert(out@ =~= head + subevents_xml(subevents.take(0)));
        while i < n
            invariant
                i <= n,
                n == self.subevents.len(),
                subevents == self@.subevents,
                out@ == head + subevents_xml(subevents.take(i as int)),
            decreases n - i,
        {
            self.subevents[i].write(out);
            proof {
                assert(subevents.take(i + 1).drop_last() =~= subevents.take(i as int));
                assert(out@ =~= head + subevents_xml(subevents.take(i + 1)));
            }
            i += 1;
        }
        assert(subevents.take(n as int) =~= subevents);
        out.append("</e>\n");
        assert(final(out)@ =~= old(out)@ + self.xml());
    }
}

impl WriteXML for Eventrecord {
    open spec fn xml(&self) -> Seq<char> {
        record_xml(self@)
    }

    fn write(&self, out: &mut String) {
        out.append("<Eventrecord nevents=\"");
        push_u64(out, self.nevents);
        out.append("\" nsubevents=\"");
        push_u64(out, self.nsubevents);
        out.append("\" nreweights=\"");
        push_u64(out, self.nreweights);
        out.append("\" as=\"");
        push_u64(out, self.alpha_s_power);
        out.append("\" name=\"");
        out.append(self.name.as_str());
        out.append("\">\n");
        assert(out@ =~= old(out)@ + record_open_xml(self@));
        out.append("<!--\nRecord generated with ");
        out.append(GENERATOR);
        out.append(" ");
        out.append(VERSION);
        out.append("\n-->\n");
        assert(out@ =~= old(out)@ + record_open_xml(self@) + signature_xml());
        let ghost head = out@;
        let ghost events = self@.events;
        let n = self.events.len();
        let mut i: usize = 0;
        assert(out@ =~= head + events_xml(events.take(0)));
        while i < n
            invariant
                i <= n,
                n == self.events.len(),
                events == self@.events,
                out@ == head + events_xml(events.take(i as int)),
            decreases n - i,
        {
            self.events[i].write(out);
            proof {
                assert(events.take(i + 1).drop_last() =~= events.take(i as int));
                assert(out@ =~= head + events_xml(events.take(i + 1)));
            }
            i += 1;
        }
        assert(events.take(n as int) =~= events);
        out.append("</Eventrecord>\n");
        assert(final(out)@ =~= old(out)@ + self.xml());
    }
}

} // verus!
