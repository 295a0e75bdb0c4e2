//! Normalisation records: the cross section of a sample, the contribution
//! it belongs to, and how many events were generated and kept.

use vstd::prelude::*;
use crate::error::{outcome, ParseErr, ParseErrView};
use crate::fields::{
    all_float_literals, float_fields, lemma_float_fields_of_joined, lemma_joined_float_fields, read_floats, write_floats,
};
use crate::float::Float;
use crate::text::{is_field_text, join_commas, seq_view, split_commas};

verus! {

/// A cross section with its uncertainty.
#[derive(Debug, PartialEq, Eq, Hash)]
pub struct XSScale(pub [Float; 2]);

impl View for XSScale {
    type V = Seq<Seq<char>>;

    /// The literals of the value and of its uncertainty.
    open spec fn view(&self) -> Seq<Seq<char>> {
        seq_view(self.0@)
    }
}

impl XSScale {
    /// What reading `text` as a cross section gives: exactly two
    /// floating-point entries.
    pub open spec fn decoded(text: Seq<char>) -> Result<Seq<Seq<char>>, ParseErrView> {
        float_fields(text, 2, true)
    }

    /// How a cross section is written.
    pub open spec fn encoded(xs: Seq<Seq<char>>) -> Seq<char> {
        join_commas(xs)
    }

    /// Two floating-point literals.
    pub open spec fn valid(xs: Seq<Seq<char>>) -> bool {
        xs.len() == 2 && all_float_literals(xs)
    }

    /// Reads a cross section from the text of its field. A cross section
    /// that was read is written as the text that it was read from.
    pub fn decode(text: &str) -> (r: Result<XSScale, ParseErr>)
        ensures
            outcome(r) == XSScale::decoded(text@),
            r is Ok ==> XSScale::encoded(r->Ok_0@) == text@,
    {
        proof {
            if XSScale::decoded(text@) is Ok {
                XSScale::lemma_encode_decode(text@);
            }
        }
        match read_floats(text, 2, true) {
            Ok(mut values) => {
                let ghost all = seq_view(values@);
                let error = values.pop().unwrap();
                let value = values.pop().unwrap();
                let xs = XSScale([value, error]);
                assert(xs@ =~= all);
                Ok(xs)
            },
            Err(e) => Err(e),
        }
    }

    /// Writes the cross section as the text of its field. Reading that text
    /// gives the cross section back.
    pub fn encode(&self) -> (text: String)
        ensures
            text@ == XSScale::encoded(self@),
            XSScale::valid(self@),
            XSScale::decoded(text@) == Ok::<_, ParseErrView>(self@),
            is_field_text(text@),
    {
        let text = write_floats(self.0.as_slice());
        proof {
            XSScale::lemma_decode_encode(self@);
        }
        text
    }

    /// Reading a cross section that was written gives it back.
    pub proof fn lemma_decode_encode(xs: Seq<Seq<char>>)
        requires
            XSScale::valid(xs),
        ensures
            XSScale::decoded(XSScale::encoded(xs)) == Ok::<_, ParseErrView>(xs),
    {
        lemma_float_fields_of_joined(xs, 2, true);
    }

    /// A text that reads as a cross section is written back as it stood.
    pub proof fn lemma_encode_decode(text: Seq<char>)
        requires
            XSScale::decoded(text) is Ok,
        ensures
            XSScale::encoded(XSScale::decoded(text)->Ok_0) == text,
            XSScale::valid(XSScale::decoded(text)->Ok_0),
    {
        lemma_joined_float_fields(text, 2, true);
    }

    /// A text with more or fewer than two entries is no cross section,
    /// whatever its entries are.
    pub proof fn lemma_wrong_arity(text: Seq<char>)
        requires
            split_commas(text).len() != 2,
        ensures
            XSScale::decoded(text) == Err::<Seq<Seq<char>>, _>(ParseErrView::NumEntries(text, 2)),
    {
    }
}

impl Clone for XSScale {
    fn clone(&self) -> (r: Self)
        ensures
            r@ == self@,
    {
        let r = XSScale([self.0[0].clone(), self.0[1].clone()]);
        assert(r@ =~= self@);
        r
    }
}

impl Default for XSScale {
    /// Zero, with an uncertainty of zero.
    fn default() -> (r: Self)
        ensures
            r@ == seq![seq!['0'], seq!['0']],
    {
        let r = XSScale([Float::zero(), Float::zero()]);
        assert(r@ =~= seq![seq!['0'], seq!['0']]);
        r
    }
}

/// The labels of the values that the reweighting entries of a sample hold,
/// in order.
#[derive(Debug, Eq, PartialEq, Ord, PartialOrd, Hash)]
pub struct Reweight {
    pub rwentry: Vec<String>,
}

/// A [`Reweight`] with its labels as sequences of characters.
pub struct ReweightView {
    pub rwentry: Seq<Seq<char>>,
}

impl View for Reweight {
    type V = ReweightView;

    open spec fn view(&self) -> ReweightView {
        ReweightView { rwentry: seq_view(self.rwentry@) }
    }
}

impl Clone for Reweight {
    fn clone(&self) -> (r: Self)
        ensures
            r@ == self@,
    {
        let rwentry = self.rwentry.clone();
        assert(seq_view(rwentry@) =~= seq_view(self.rwentry@));
        Reweight { rwentry }
    }
}

impl Default for Reweight {
    /// No labels.
    fn default() -> (r: Self)
        ensures
            r@ == (ReweightView { rwentry: Seq::empty() }),
    {
        let r = Reweight { rwentry: Vec::new() };
        assert(r@.rwentry =~= Seq::empty());
        r
    }
}

/// The contribution that a sample belongs to.
#[derive(Debug, PartialEq, Eq, Hash)]
pub struct Contribution {
    pub name: String,
    pub xsection: XSScale,
    pub rw: Reweight,
}

/// A [`Contribution`] by the views of its parts.
pub struct ContributionView {
    pub name: Seq<char>,
    pub xsection: Seq<Seq<char>>,
    pub rw: ReweightView,
}

impl View for Contribution {
    type V = ContributionView;

    open spec fn view(&self) -> ContributionView {
        ContributionView { name: self.name@, xsection: self.xsection@, rw: self.rw@ }
    }
}

impl Clone for Contribution {
    fn clone(&self) -> (r: Self)
        ensures
            r@ == self@,
    {
        Contribution {
            name: self.name.clone(),
            xsection: self.xsection.clone(),
            rw: self.rw.clone(),
        }
    }
}

impl Default for Contribution {
    /// A contribution without a name and without labels, with a cross
    /// section of zero.
    fn default() -> (r: Self)
        ensures
            r@ == (ContributionView {
                name: Seq::empty(),
                xsection: seq![seq!['0'], seq!['0']],
                rw: ReweightView { rwentry: Seq::empty() },
            }),
    {
        Contribution { name: String::new(), xsection: XSScale::default(), rw: Reweight::default() }
    }
}

/// The cross section of a sample and the numbers behind it. A sample holds
/// the events of positive weight or those of negative weight; the fields
/// are the same for both.
#[derive(Debug, PartialEq, Eq, Hash)]
pub struct XSection {
    pub xs_pos: XSScale,
    pub max_weight_pos: Float,
    pub total_events_pos: u64,
    pub accepted_events_pos: u64,
    /// The correction factor with its uncertainty, as it was written.
    pub factor_pos: String,
}

/// An [`XSection`] by the views of its parts.
pub struct XSectionView {
    pub xs_pos: Seq<Seq<char>>,
    pub max_weight_pos: Seq<char>,
    pub total_events_pos: u64,
    pub accepted_events_pos: u64,
    pub factor_pos: Seq<char>,
}

impl View for XSection {
    type V = XSectionView;

    open spec fn view(&self) -> XSectionView {
        XSectionView {
            xs_pos: self.xs_pos@,
            max_weight_pos: self.max_weight_pos@,
            total_events_pos: self.total_events_pos,
            accepted_events_pos: self.accepted_events_pos,
            factor_pos: self.factor_pos@,
        }
    }
}

impl Clone for XSection {
    fn clone(&self) -> (r: Self)
        ensures
            r@ == self@,
    {
        XSection {
            xs_pos: self.xs_pos.clone(),
            max_weight_pos: self.max_weight_pos.clone(),
            total_events_pos: self.total_events_pos,
            accepted_events_pos: self.accepted_events_pos,
            factor_pos: self.factor_pos.clone(),
        }
    }
}

impl Default for XSection {
    /// All numbers zero, the correction factor empty.
    fn default() -> (r: Self)
        ensures
            r@ == (XSectionView {
                xs_pos: seq![seq!['0'], seq!['0']],
                max_weight_pos: seq!['0'],
                total_events_pos: 0,
                accepted_events_pos: 0,
                factor_pos: Seq::empty(),
            }),
    {
        XSection {
            xs_pos: XSScale::default(),
            max_weight_pos: Float::zero(),
            total_events_pos: 0,
            accepted_events_pos: 0,
            factor_pos: String::new(),
        }
    }
}

/// The normalisation of a sample.
#[derive(Debug, PartialEq, Eq, Hash)]
pub struct Normalization {
    pub name: String,
    pub xsection: XSection,
    pub contribution: Contribution,
    /// How many events were rejected, as it was written. The text is kept
    /// and not read as numbers.
    pub number_of_rejected_events: String,
}

/// A [`Normalization`] by the views of its parts.
pub struct NormalizationView {
    pub name: Seq<char>,
    pub xsection: XSectionView,
    pub contribution: ContributionView,
    pub number_of_rejected_events: Seq<char>,
}

impl View for Normalization {
    type V = NormalizationView;

    open spec fn view(&self) -> NormalizationView {
        NormalizationView {
            name: self.name@,
            xsection: self.xsection@,
            contribution: self.contribution@,
            number_of_rejected_events: self.number_of_rejected_events@,
        }
    }
}

impl Clone for Normalization {
    fn clone(&self) -> (r: Self)
        ensures
            r@ == self@,
    {
        Normalization {
            name: self.name.clone(),
            xsection: self.xsection.clone(),
            contribution: self.contribution.clone(),
            number_of_rejected_events: self.number_of_rejected_events.clone(),
        }
    }
}

impl Default for Normalization {
    /// Every text empty, every number zero.
    fn default() -> (r: Self)
        ensures
            r@ == (NormalizationView {
                name: Seq::empty(),
                xsection: XSectionView {
                    xs_pos: seq![seq!['0'], seq!['0']],
                    max_weight_pos: seq!['0'],
                    total_events_pos: 0,
                    accepted_events_pos: 0,
                    factor_pos: Seq::empty(),
                },
                contribution: ContributionView {
                    name: Seq::empty(),
                    xsection: seq![seq!['0'], seq!['0']],
                    rw: ReweightView { rwentry: Seq::empty() },
                },
                number_of_rejected_events: Seq::empty(),
            }),
    {
        Normalization {
            name: String::new(),
            xsection: XSection::default(),
            contribution: Contribution::default(),
            number_of_rejected_events: String::new(),
        }
    }
}

} // verus!
