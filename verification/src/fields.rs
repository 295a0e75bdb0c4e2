//! Compact fields: lists of numbers packed into one text with commas.
//!
//! A field either has a fixed number of entries or a least number of them.
//! Reading checks the number of entries first and then each entry in turn,
//! so the error names the first entry that is no number.

use vstd::prelude::*;
use crate::error::{NumberKind, ParseErr, ParseErrView};
use crate::float::{is_float_literal, lemma_float_literal_chars, Float};
use crate::integer::{
    digits_of, i32_to_string, i32_value, integer_text, is_digit, lemma_digits_of,
    lemma_integer_text_value, parse_i32,
};
use crate::text::{
    comma_free, is_entry_char, is_entry_text, is_field_text, join, join_commas,
    lemma_join_entries, lemma_join_split, lemma_split_join, lemma_split_tokens, seq_view, split,
    split_commas,
};

verus! {

/// Whether a field with `found` entries has as many as it must: exactly
/// `count` if `exact`, at least `count` otherwise.
pub open spec fn arity_ok(found: nat, count: usize, exact: bool) -> bool {
    if exact {
        found == count
    } else {
        found >= count
    }
}

/// Every token is a floating-point literal.
pub open spec fn all_float_literals(tokens: Seq<Seq<char>>) -> bool {
    forall|i: int| 0 <= i < tokens.len() ==> is_float_literal(#[trigger] tokens[i])
}

/// The first token that is no floating-point literal, if there is one.
pub open spec fn first_non_float(tokens: Seq<Seq<char>>) -> Option<Seq<char>>
    decreases tokens.len(),
{
    if tokens.len() == 0 {
        None
    } else if !is_float_literal(tokens.first()) {
        Some(tokens.first())
    } else {
        first_non_float(tokens.drop_first())
    }
}

/// What reading `text` as a field of floating-point values gives: the
/// literals of its entries, or the error.
pub open spec fn float_fields(text: Seq<char>, count: usize, exact: bool) -> Result<
    Seq<Seq<char>>,
    ParseErrView,
> {
    let tokens = split_commas(text);
    if !arity_ok(tokens.len(), count, exact) {
        Err(ParseErrView::NumEntries(text, count))
    } else {
        match first_non_float(tokens) {
            Some(token) => Err(ParseErrView::Field(token, NumberKind::Float)),
            None => Ok(tokens),
        }
    }
}

/// There is a first token that is no literal exactly when some token is none.
pub proof fn lemma_first_non_float(tokens: Seq<Seq<char>>)
    ensures
        first_non_float(tokens) is None <==> all_float_literals(tokens),
    decreases tokens.len(),
{
    if tokens.len() > 0 {
        let rest = tokens.drop_first();
        lemma_first_non_float(rest);
        if is_float_literal(tokens.first()) {
            if all_float_literals(rest) {
                assert forall|i: int| 0 <= i < tokens.len() implies is_float_literal(
                    #[trigger] tokens[i],
                ) by {
                    if i > 0 {
                        assert(tokens[i] == rest[i - 1]);
                    }
                }
            }
            if all_float_literals(tokens) {
                assert forall|i: int| 0 <= i < rest.len() implies is_float_literal(
                    #[trigger] rest[i],
                ) by {
                    assert(rest[i] == tokens[i + 1]);
                }
            }
        } else {
            assert(!is_float_literal(tokens[0]));
        }
    }
}

/// The first token that is no literal stands after literals only.
pub proof fn lemma_first_non_float_place(tokens: Seq<Seq<char>>)
    requires
        first_non_float(tokens) is Some,
    ensures
        exists|i: int|
            0 <= i < tokens.len() && #[trigger] tokens[i] == first_non_float(tokens)->Some_0
                && !is_float_literal(tokens[i]) && all_float_literals(tokens.take(i)),
    decreases tokens.len(),
{
    if !is_float_literal(tokens.first()) {
        assert(tokens[0] == tokens.first());
        assert(all_float_literals(tokens.take(0)));
    } else {
        let rest = tokens.drop_first();
        lemma_first_non_float_place(rest);
        let i = choose|i: int|
            0 <= i < rest.len() && #[trigger] rest[i] == first_non_float(rest)->Some_0
                && !is_float_literal(rest[i]) && all_float_literals(rest.take(i));
        assert(tokens[i + 1] == rest[i]);
        assert forall|j: int| 0 <= j < tokens.take(i + 1).len() implies is_float_literal(
            #[trigger] tokens.take(i + 1)[j],
        ) by {
            if j > 0 {
                assert(tokens.take(i + 1)[j] == rest.take(i)[j - 1]);
            }
        }
    }
}

/// Reads `text` as a field of floating-point values with exactly `count`
/// entries if `exact`, with at least `count` otherwise.
pub fn read_floats(text: &str, count: usize, exact: bool) -> (r: Result<Vec<Float>, ParseErr>)
    ensures
        match r {
            Ok(values) => float_fields(text@, count, exact) == Ok::<_, ParseErrView>(
                seq_view(values@),
            ),
            Err(e) => float_fields(text@, count, exact) == Err::<Seq<Seq<char>>, _>(e@),
        },
{
    let tokens = split(text);
    let n = tokens.len();
    if (exact && n != count) || (!exact && n < count) {
        return Err(ParseErr::NumEntries(text.to_owned(), count));
    }
    let ghost all = split_commas(text@);
    let mut values: Vec<Float> = Vec::new();
    let mut i: usize = 0;
    proof {
        assert(all.skip(0) =~= all);
        assert(seq_view(values@) =~= all.take(0));
    }
    while i < n
        invariant
            i <= n,
            n == tokens.len(),
            all == seq_view(tokens@),
            all == split_commas(text@),
            arity_ok(all.len(), count, exact),
            first_non_float(all) == first_non_float(all.skip(i as int)),
            seq_view(values@) == all.take(i as int),
        decreases n - i,
    {
        let ghost rest = all.skip(i as int);
        proof {
            assert(rest.first() == tokens[i as int]@);
            assert(rest.drop_first() =~= all.skip(i + 1));
        }
        match Float::parse(tokens[i].as_str()) {
            Some(value) => {
                let ghost before = seq_view(values@);
                values.push(value);
                proof {
                    assert(seq_view(values@) =~= before.push(value@));
                    assert(all.take(i + 1) =~= all.take(i as int).push(all[i as int]));
                }
            },
            None => {
                return Err(ParseErr::Field(tokens[i].clone(), NumberKind::Float));
            },
        }
        i += 1;
    }
    proof {
        assert(all.take(n as int) =~= all);
        assert(all.skip(n as int).len() == 0);
    }
    Ok(values)
}

/// Floating-point literals joined with commas make the text of a field.
pub proof fn lemma_float_field_text(tokens: Seq<Seq<char>>)
    requires
        all_float_literals(tokens),
    ensures
        is_field_text(join_commas(tokens)),
{
    assert forall|i: int| 0 <= i < tokens.len() implies is_entry_text(#[trigger] tokens[i]) by {
        lemma_float_literal_chars(tokens[i]);
    }
    lemma_join_entries(tokens);
}

/// Appends the literal of each value to `tokens`. Each of them is a literal,
/// as every value of its type is.
pub fn push_literals(tokens: &mut Vec<String>, values: &[Float])
    ensures
        seq_view(final(tokens)@) == seq_view(old(tokens)@) + seq_view(values@),
        all_float_literals(seq_view(values@)),
{
    let n = values.len();
    let mut i: usize = 0;
    proof {
        assert(seq_view(tokens@) =~= seq_view(old(tokens)@) + seq_view(values@).take(0));
    }
    while i < n
        invariant
            i <= n,
            n == values.len(),
            seq_view(tokens@) == seq_view(old(tokens)@) + seq_view(values@).take(i as int),
            all_float_literals(seq_view(values@).take(i as int)),
        decreases n - i,
    {
        let ghost before = seq_view(tokens@);
        let token = values[i].as_str().to_owned();
        tokens.push(token);
        proof {
            assert(seq_view(tokens@) =~= before.push(values[i as int]@));
            assert(seq_view(values@).take(i + 1) =~= seq_view(values@).take(i as int).push(
                values[i as int]@,
            ));
            assert(seq_view(tokens@) =~= seq_view(old(tokens)@) + seq_view(values@).take(i + 1));
        }
        i += 1;
    }
    proof {
        assert(seq_view(values@).take(n as int) =~= seq_view(values@));
    }
}

/// Writes floating-point values as one field.
pub fn write_floats(values: &[Float]) -> (text: String)
    ensures
        text@ == join_commas(seq_view(values@)),
        all_float_literals(seq_view(values@)),
        is_field_text(text@),
{
    let mut tokens: Vec<String> = Vec::new();
    push_literals(&mut tokens, values);
    proof {
        assert(seq_view(tokens@) =~= seq_view(values@));
        lemma_float_field_text(seq_view(values@));
    }
    join(&tokens)
}

/// Writing floating-point literals, at least one, as a field and reading the
/// field gives the literals back, whenever their number is one that the
/// field admits.
pub proof fn lemma_float_fields_of_joined(tokens: Seq<Seq<char>>, count: usize, exact: bool)
    requires
        tokens.len() >= 1,
        all_float_literals(tokens),
        arity_ok(tokens.len(), count, exact),
    ensures
        float_fields(join_commas(tokens), count, exact) == Ok::<_, ParseErrView>(tokens),
{
    assert forall|i: int| 0 <= i < tokens.len() implies comma_free(#[trigger] tokens[i]) by {
        lemma_float_literal_chars(tokens[i]);
    }
    lemma_split_join(tokens);
    lemma_first_non_float(tokens);
}

/// A field of floating-point values that was read is written as it stood.
pub proof fn lemma_joined_float_fields(text: Seq<char>, count: usize, exact: bool)
    requires
        float_fields(text, count, exact) is Ok,
    ensures
        join_commas(float_fields(text, count, exact)->Ok_0) == text,
        all_float_literals(float_fields(text, count, exact)->Ok_0),
        float_fields(text, count, exact)->Ok_0.len() >= 1,
        arity_ok(float_fields(text, count, exact)->Ok_0.len(), count, exact),
{
    lemma_join_split(text);
    lemma_split_tokens(text);
    lemma_first_non_float(split_commas(text));
}

/// Every token denotes a 32-bit signed integer.
pub open spec fn all_i32_literals(tokens: Seq<Seq<char>>) -> bool {
    forall|i: int| 0 <= i < tokens.len() ==> i32_value(#[trigger] tokens[i]) is Some
}

/// The first token that denotes no 32-bit signed integer, if there is one.
pub open spec fn first_non_i32(tokens: Seq<Seq<char>>) -> Option<Seq<char>>
    decreases tokens.len(),
{
    if tokens.len() == 0 {
        None
    } else if i32_value(tokens.first()) is None {
        Some(tokens.first())
    } else {
        first_non_i32(tokens.drop_first())
    }
}

/// The integers that the tokens denote, each of which must denote one.
pub open spec fn i32_values(tokens: Seq<Seq<char>>) -> Seq<i32> {
    tokens.map_values(|token: Seq<char>| i32_value(token)->Some_0)
}

/// The integers, each as it is written.
pub open spec fn i32_texts(values: Seq<i32>) -> Seq<Seq<char>> {
    values.map_values(|value: i32| integer_text(value as int))
}

/// What reading `text` as a field of 32-bit signed integers gives.
pub open spec fn i32_fields(text: Seq<char>, count: usize, exact: bool) -> Result<
    Seq<i32>,
    ParseErrView,
> {
    let tokens = split_commas(text);
    if !arity_ok(tokens.len(), count, exact) {
        Err(ParseErrView::NumEntries(text, count))
    } else {
        match first_non_i32(tokens) {
            Some(token) => Err(ParseErrView::Field(token, NumberKind::Integer)),
            None => Ok(i32_values(tokens)),
        }
    }
}

/// There is a first token that denotes no integer exactly when some token
/// denotes none.
pub proof fn lemma_first_non_i32(tokens: Seq<Seq<char>>)
    ensures
        first_non_i32(tokens) is None <==> all_i32_literals(tokens),
    decreases tokens.len(),
{
    if tokens.len() > 0 {
        let rest = tokens.drop_first();
        lemma_first_non_i32(rest);
        if i32_value(tokens.first()) is Some {
            if all_i32_literals(rest) {
                assert forall|i: int| 0 <= i < tokens.len() implies i32_value(
                    #[trigger] tokens[i],
                ) is Some by {
                    if i > 0 {
                        assert(tokens[i] == rest[i - 1]);
                    }
                }
            }
            if all_i32_literals(tokens) {
                assert forall|i: int| 0 <= i < rest.len() implies i32_value(
                    #[trigger] rest[i],
                ) is Some by {
                    assert(rest[i] == tokens[i + 1]);
                }
            }
        } else {
            assert(i32_value(tokens[0]) is None);
        }
    }
}

/// The first token that denotes no integer stands after tokens that all
/// denote one.
pub proof fn lemma_first_non_i32_place(tokens: Seq<Seq<char>>)
    requires
        first_non_i32(tokens) is Some,
    ensures
        exists|i: int|
            0 <= i < tokens.len() && #[trigger] tokens[i] == first_non_i32(tokens)->Some_0
                && i32_value(tokens[i]) is None && all_i32_literals(tokens.take(i)),
    decreases tokens.len(),
{
    if i32_value(tokens.first()) is None {
        assert(tokens[0] == tokens.first());
        assert(all_i32_literals(tokens.take(0)));
    } else {
        let rest = tokens.drop_first();
        lemma_first_non_i32_place(rest);
        let i = choose|i: int|
            0 <= i < rest.len() && #[trigger] rest[i] == first_non_i32(rest)->Some_0
                && i32_value(rest[i]) is None && all_i32_literals(rest.take(i));
        assert(tokens[i + 1] == rest[i]);
        assert forall|j: int| 0 <= j < tokens.take(i + 1).len() implies i32_value(
            #[trigger] tokens.take(i + 1)[j],
        ) is Some by {
            if j > 0 {
                assert(tokens.take(i + 1)[j] == rest.take(i)[j - 1]);
            }
        }
    }
}

/// Reads `text` as a field of 32-bit signed integers with exactly `count`
/// entries if `exact`, with at least `count` otherwise.
pub fn read_i32s(text: &str, count: usize, exact: bool) -> (r: Result<Vec<i32>, ParseErr>)
    ensures
        match r {
            Ok(values) => i32_fields(text@, count, exact) == Ok::<_, ParseErrView>(values@),
            Err(e) => i32_fields(text@, count, exact) == Err::<Seq<i32>, _>(e@),
        },
{
    let tokens = split(text);
    let n = tokens.len();
    if (exact && n != count) || (!exact && n < count) {
        return Err(ParseErr::NumEntries(text.to_owned(), count));
    }
    let ghost all = split_commas(text@);
    let mut values: Vec<i32> = Vec::new();
    let mut i: usize = 0;
    proof {
        assert(all.skip(0) =~= all);
        assert(values@ =~= i32_values(all.take(0)));
    }
    while i < n
        invariant
            i <= n,
            n == tokens.len(),
            all == seq_view(tokens@),
            all == split_commas(text@),
            arity_ok(all.len(), count, exact),
            first_non_i32(all) == first_non_i32(all.skip(i as int)),
            values@ == i32_values(all.take(i as int)),
        decreases n - i,
    {
        let ghost rest = all.skip(i as int);
        proof {
            assert(rest.first() == tokens[i as int]@);
            assert(rest.drop_first() =~= all.skip(i + 1));
        }
        match parse_i32(tokens[i].as_str()) {
            Some(value) => {
                values.push(value);
                proof {
                    assert(all.take(i + 1) =~= all.take(i as int).push(all[i as int]));
                    assert(values@ =~= i32_values(all.take(i + 1)));
                }
            },
            None => {
                return Err(ParseErr::Field(tokens[i].clone(), NumberKind::Integer));
            },
        }
        i += 1;
    }
    proof {
        assert(all.take(n as int) =~= all);
        assert(all.skip(n as int).len() == 0);
    }
    Ok(values)
}

/// Writes integers as one field.
pub fn write_i32s(values: &[i32]) -> (text: String)
    ensures
        text@ == join_commas(i32_texts(values@)),
        is_field_text(text@),
{
    let mut tokens: Vec<String> = Vec::new();
    let n = values.len();
    let mut i: usize = 0;
    while i < n
        invariant
            i <= n,
            n == values.len(),
            seq_view(tokens@) == i32_texts(values@).take(i as int),
        decreases n - i,
    {
        let ghost before = seq_view(tokens@);
        let token = i32_to_string(values[i]);
        tokens.push(token);
        proof {
            assert(seq_view(tokens@) =~= before.push(token@));
            assert(i32_texts(values@).take(i + 1) =~= i32_texts(values@).take(i as int).push(
                token@,
            ));
        }
        i += 1;
    }
    proof {
        assert(i32_texts(values@).take(n as int) =~= i32_texts(values@));
        lemma_i32_field_text(values@);
    }
    join(&tokens)
}

/// An integer as it is written is made of the characters of entries, holds
/// no comma and denotes that integer.
pub proof fn lemma_integer_text(value: i32)
    ensures
        is_entry_text(integer_text(value as int)),
        comma_free(integer_text(value as int)),
        i32_value(integer_text(value as int)) == Some(value),
{
    let n = value as int;
    let s = integer_text(n);
    lemma_integer_text_value(n);
    if n < 0 {
        let digits = digits_of((-n) as nat);
        lemma_digits_of((-n) as nat);
        assert forall|i: int| 0 <= i < s.len() implies is_entry_char(#[trigger] s[i]) by {
            if i > 0 {
                assert(s[i] == digits[i - 1]);
            }
        }
    } else {
        lemma_digits_of(n as nat);
        assert forall|i: int| 0 <= i < s.len() implies is_entry_char(#[trigger] s[i]) by {
            assert(is_digit(s[i]));
        }
    }
}

/// Integers joined with commas make the text of a field.
pub proof fn lemma_i32_field_text(values: Seq<i32>)
    ensures
        is_field_text(join_commas(i32_texts(values))),
{
    let tokens = i32_texts(values);
    assert forall|i: int| 0 <= i < tokens.len() implies is_entry_text(#[trigger] tokens[i]) by {
        lemma_integer_text(values[i]);
    }
    lemma_join_entries(tokens);
}

/// Writing integers, at least one, as a field and reading the field gives
/// the integers back, whenever their number is one that the field admits.
pub proof fn lemma_i32_fields_of_joined(values: Seq<i32>, count: usize, exact: bool)
    requires
        values.len() >= 1,
        arity_ok(values.len(), count, exact),
    ensures
        i32_fields(join_commas(i32_texts(values)), count, exact) == Ok::<_, ParseErrView>(values),
{
    let tokens = i32_texts(values);
    assert forall|i: int| 0 <= i < tokens.len() implies comma_free(#[trigger] tokens[i])
        && i32_value(tokens[i]) == Some(values[i]) by {
        lemma_integer_text(values[i]);
    }
    lemma_split_join(tokens);
    lemma_first_non_i32(tokens);
    assert(i32_values(tokens) =~= values);
}

/// A field of integers that was read has at least one entry, and as many as
/// the field must have.
pub proof fn lemma_i32_fields_len(text: Seq<char>, count: usize, exact: bool)
    requires
        i32_fields(text, count, exact) is Ok,
    ensures
        i32_fields(text, count, exact)->Ok_0.len() >= 1,
        arity_ok(i32_fields(text, count, exact)->Ok_0.len(), count, exact),
        i32_fields(text, count, exact)->Ok_0.len() == split_commas(text).len(),
{
    lemma_split_tokens(text);
}

} // verus!
