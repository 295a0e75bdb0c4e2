//! The ways in which reading a compact field can fail.

use vstd::prelude::*;
use vstd::string::StringExecFns;
use crate::integer::{integer_text, push_u64};

verus! {

/// The kind of number that a token was expected to be.
#[derive(Clone, Copy, Debug, PartialEq, Eq, Hash, Structural)]
pub enum NumberKind {
    Integer,
    Float,
}

/// Why a compact field could not be read.
#[derive(Debug, PartialEq, Eq, Hash)]
pub enum ParseErr {
    /// The field, given first, does not have the number of comma-separated
    /// entries that is given second: exactly that many for a field of fixed
    /// length, at least that many otherwise.
    NumEntries(String, usize),
    /// The token is not a number of the kind that was expected in its place,
    /// or is out of that kind's range.
    Field(String, NumberKind),
    /// The token is not one of the particle statuses.
    Status(String),
}

/// A [`ParseErr`] with its texts as sequences of characters.
pub enum ParseErrView {
    NumEntries(Seq<char>, usize),
    Field(Seq<char>, NumberKind),
    Status(Seq<char>),
}

impl View for ParseErr {
    type V = ParseErrView;

    open spec fn view(&self) -> ParseErrView {
        match self {
            ParseErr::NumEntries(text, count) => ParseErrView::NumEntries(text@, *count),
            ParseErr::Field(token, kind) => ParseErrView::Field(token@, *kind),
            ParseErr::Status(token) => ParseErrView::Status(token@),
        }
    }
}

/// The outcome of reading a field, with the value or the error by its view.
pub open spec fn outcome<T: View>(r: Result<T, ParseErr>) -> Result<T::V, ParseErrView> {
    match r {
        Ok(value) => Ok(value@),
        Err(e) => Err(e@),
    }
}

/// The sentence that describes an error.
pub open spec fn message_text(e: ParseErrView) -> Seq<char> {
    match e {
        ParseErrView::NumEntries(text, count) => "'"@ + text
            + "' is not a comma-separated list with "@ + integer_text(count as int)
            + " float values"@,
        ParseErrView::Field(token, NumberKind::Integer) => "'"@ + token
            + "' is not an integer"@,
        ParseErrView::Field(token, NumberKind::Float) => "'"@ + token
            + "' is not a floating-point number"@,
        ParseErrView::Status(token) => "'"@ + token + "' is not a particle status"@,
    }
}

impl Clone for ParseErr {
    fn clone(&self) -> (r: Self)
        ensures
            r@ == self@,
    {
        match self {
            ParseErr::NumEntries(text, count) => ParseErr::NumEntries(text.clone(), *count),
            ParseErr::Field(token, kind) => ParseErr::Field(token.clone(), *kind),
            ParseErr::Status(token) => ParseErr::Status(token.clone()),
        }
    }
}

impl ParseErr {
    /// Describes the error in a sentence.
    pub fn message(&self) -> (r: String)
        ensures
            r@ == message_text(self@),
    {
        let mut r = String::new();
        r.append("'");
        match self {
            ParseErr::NumEntries(text, count) => {
                r.append(text.as_str());
                r.append("' is not a comma-separated list with ");
                push_u64(&mut r, *count as u64);
                r.append(" float values");
            },
            ParseErr::Field(token, NumberKind::Integer) => {
                r.append(token.as_str());
                r.append("' is not an integer");
            },
            ParseErr::Field(token, NumberKind::Float) => {
                r.append(token.as_str());
                r.append("' is not a floating-point number");
            },
            ParseErr::Status(token) => {
                r.append(token.as_str());
                r.append("' is not a particle status");
            },
        }
        assert(r@ =~= message_text(self@));
        r
    }
}

} // verus!
