//! Floating-point values as they appear in compact fields.
//!
//! A value is held as the decimal literal that denotes it. The grammar of
//! literals is the one that Rust's standard library reads as a double:
//!
//! ```text
//! Float  ::= Sign? ( 'inf' | 'infinity' | 'nan' | Number )
//! Number ::= ( Digit+ | Digit+ '.' Digit* | Digit* '.' Digit+ ) Exp?
//! Exp    ::= 'e' Sign? Digit+
//! Sign   ::= [+-]
//! Digit  ::= [0-9]
//! ```
//!
//! with letters in either case. Turning a literal into a machine double, and
//! a machine double into its shortest literal, is left to the caller.

use vstd::prelude::*;
use crate::error::{NumberKind, ParseErr, ParseErrView};
use crate::integer::{all_digits, is_digit, is_sign, unsigned_part};
use crate::text::{chars_of, comma_free, is_entry_char, is_entry_text};

verus! {

/// The number of digits that `s` starts with.
pub open spec fn digit_run(s: Seq<char>) -> nat
    decreases s.len(),
{
    if s.len() > 0 && is_digit(s[0]) {
        1 + digit_run(s.skip(1))
    } else {
        0
    }
}

/// `c` is the letter given in its two cases.
pub open spec fn is_letter(c: char, lower: char, upper: char) -> bool {
    c == lower || c == upper
}

/// The word `inf`, in either case.
pub open spec fn is_inf(s: Seq<char>) -> bool {
    &&& s.len() == 3
    &&& is_letter(s[0], 'i', 'I')
    &&& is_letter(s[1], 'n', 'N')
    &&& is_letter(s[2], 'f', 'F')
}

/// The word `infinity`, in either case.
pub open spec fn is_infinity(s: Seq<char>) -> bool {
    &&& s.len() == 8
    &&& is_letter(s[0], 'i', 'I')
    &&& is_letter(s[1], 'n', 'N')
    &&& is_letter(s[2], 'f', 'F')
    &&& is_letter(s[3], 'i', 'I')
    &&& is_letter(s[4], 'n', 'N')
    &&& is_letter(s[5], 'i', 'I')
    &&& is_letter(s[6], 't', 'T')
    &&& is_letter(s[7], 'y', 'Y')
}

/// The word `nan`, in either case.
pub open spec fn is_nan(s: Seq<char>) -> bool {
    &&& s.len() == 3
    &&& is_letter(s[0], 'n', 'N')
    &&& is_letter(s[1], 'a', 'A')
    &&& is_letter(s[2], 'n', 'N')
}

/// An exponent: the letter e, an optional sign, one or more digits.
pub open spec fn is_exponent(s: Seq<char>) -> bool {
    &&& s.len() >= 2
    &&& is_letter(s[0], 'e', 'E')
    &&& unsigned_part(s.skip(1)).len() >= 1
    &&& all_digits(unsigned_part(s.skip(1)))
}

/// The text of a number with the given parts: the digits before the point,
/// the point and the digits after it if there is a point, the exponent.
pub open spec fn number_text(
    whole: Seq<char>,
    fraction: Option<Seq<char>>,
    exponent: Seq<char>,
) -> Seq<char> {
    match fraction {
        Some(digits) => whole + seq!['.'] + digits + exponent,
        None => whole + exponent,
    }
}

/// Whether the parts make a number: digits before the point and digits
/// after it, at least one digit in all, and an exponent or nothing in its
/// place.
pub open spec fn is_number_parts(
    whole: Seq<char>,
    fraction: Option<Seq<char>>,
    exponent: Seq<char>,
) -> bool {
    &&& all_digits(whole)
    &&& match fraction {
        Some(digits) => all_digits(digits) && whole.len() + digits.len() >= 1,
        None => whole.len() >= 1,
    }
    &&& (exponent.len() == 0 || is_exponent(exponent))
}

/// An unsigned decimal number: digits with at most one point among them, at
/// least one digit in all, and an optional exponent.
pub open spec fn is_number(s: Seq<char>) -> bool {
    exists|whole: Seq<char>, fraction: Option<Seq<char>>, exponent: Seq<char>|
        is_number_parts(whole, fraction, exponent) && #[trigger] number_text(
            whole,
            fraction,
            exponent,
        ) == s
}

/// How a text is found to be a number when it is read from the left: the
/// digits it starts with, a point and the digits that follow if a point
/// comes next, and what is left is an exponent or nothing.
pub open spec fn scans_as_number(s: Seq<char>) -> bool {
    let whole = digit_run(s);
    let tail = s.skip(whole as int);
    if tail.len() > 0 && tail[0] == '.' {
        let fraction = digit_run(tail.skip(1));
        let rest = tail.skip(1 + fraction as int);
        whole + fraction >= 1 && (rest.len() == 0 || is_exponent(rest))
    } else {
        whole >= 1 && (tail.len() == 0 || is_exponent(tail))
    }
}

/// Whether the token `s` is a floating-point literal: an optional sign, then
/// one of the three words or a number.
pub open spec fn is_float_literal(s: Seq<char>) -> bool {
    let body = unsigned_part(s);
    is_inf(body) || is_infinity(body) || is_nan(body) || is_number(body)
}

/// A run of digits is no longer than the text, and is the whole text exactly
/// when the text holds digits only.
pub proof fn lemma_digit_run(s: Seq<char>)
    ensures
        digit_run(s) <= s.len(),
        digit_run(s) == s.len() <==> all_digits(s),
        forall|i: int| 0 <= i < digit_run(s) ==> is_digit(#[trigger] s[i]),
    decreases s.len(),
{
    if s.len() > 0 && is_digit(s[0]) {
        let t = s.skip(1);
        lemma_digit_run(t);
        assert forall|i: int| 0 <= i < digit_run(s) implies is_digit(#[trigger] s[i]) by {
            if i > 0 {
                assert(s[i] == t[i - 1]);
            }
        }
        if all_digits(s) {
            assert forall|i: int| 0 <= i < t.len() implies is_digit(#[trigger] t[i]) by {
                assert(t[i] == s[i + 1]);
            }
        }
        if digit_run(s) == s.len() {
            assert forall|i: int| 0 <= i < s.len() implies is_digit(#[trigger] s[i]) by {
                if i > 0 {
                    assert(s[i] == t[i - 1]);
                }
            }
        }
    } else if s.len() > 0 {
        assert(!is_digit(s[0]));
    }
}

/// Digits followed by what does not start with a digit: the run of digits
/// ends where they end.
proof fn lemma_digit_run_of_digits(digits: Seq<char>, rest: Seq<char>)
    requires
        all_digits(digits),
        rest.len() == 0 || !is_digit(rest[0]),
    ensures
        digit_run(digits + rest) == digits.len(),
    decreases digits.len(),
{
    let s = digits + rest;
    if digits.len() == 0 {
        assert(s =~= rest);
    } else {
        assert(s[0] == digits[0]);
        assert forall|i: int| 0 <= i < digits.skip(1).len() implies is_digit(
            #[trigger] digits.skip(1)[i],
        ) by {
            assert(digits.skip(1)[i] == digits[i + 1]);
        }
        lemma_digit_run_of_digits(digits.skip(1), rest);
        assert(s.skip(1) =~= digits.skip(1) + rest);
    }
}

/// A text is a number exactly when it is found to be one when read from the
/// left.
pub proof fn lemma_number_scan(s: Seq<char>)
    ensures
        is_number(s) <==> scans_as_number(s),
{
    if is_number(s) {
        let (whole, fraction, exponent) = choose|
            whole: Seq<char>,
            fraction: Option<Seq<char>>,
            exponent: Seq<char>,
        |
            is_number_parts(whole, fraction, exponent) && #[trigger] number_text(
                whole,
                fraction,
                exponent,
            ) == s;
        match fraction {
            Some(digits) => {
                let tail = seq!['.'] + digits + exponent;
                assert(s =~= whole + tail);
                lemma_digit_run_of_digits(whole, tail);
                assert(s.skip(whole.len() as int) =~= tail);
                assert(tail.skip(1) =~= digits + exponent);
                lemma_digit_run_of_digits(digits, exponent);
                assert(tail.skip(1 + digits.len() as int) =~= exponent);
            },
            None => {
                lemma_digit_run_of_digits(whole, exponent);
                assert(s.skip(whole.len() as int) =~= exponent);
            },
        }
    }
    if scans_as_number(s) {
        let run = digit_run(s) as int;
        let whole = s.take(run);
        let tail = s.skip(run);
        lemma_digit_run(s);
        if tail.len() > 0 && tail[0] == '.' {
            let after = tail.skip(1);
            let digits = after.take(digit_run(after) as int);
            let rest = tail.skip(1 + digit_run(after) as int);
            lemma_digit_run(after);
            assert(number_text(whole, Some(digits), rest) =~= s);
            assert(is_number_parts(whole, Some(digits), rest));
        } else {
            assert(number_text(whole, None, tail) =~= s);
            assert(is_number_parts(whole, None, tail));
        }
    }
}

/// An exponent is made of the characters of entries.
proof fn lemma_exponent_chars(s: Seq<char>)
    requires
        is_exponent(s),
    ensures
        is_entry_text(s),
{
    let t = s.skip(1);
    let digits = unsigned_part(t);
    assert forall|i: int| 0 <= i < s.len() implies is_entry_char(#[trigger] s[i]) by {
        if i >= 1 {
            assert(s[i] == t[i - 1]);
            if t.len() > 0 && is_sign(t[0]) {
                if i >= 2 {
                    assert(t[i - 1] == digits[i - 2]);
                }
            } else {
                assert(t[i - 1] == digits[i - 1]);
            }
        }
    }
}

/// A text that scans as a number is made of the characters of entries.
proof fn lemma_number_chars(s: Seq<char>)
    requires
        scans_as_number(s),
    ensures
        is_entry_text(s),
{
    let whole = digit_run(s) as int;
    let tail = s.skip(whole);
    lemma_digit_run(s);
    if tail.len() > 0 && tail[0] == '.' {
        let after = tail.skip(1);
        let fraction = digit_run(after) as int;
        let rest = tail.skip(1 + fraction);
        lemma_digit_run(after);
        if rest.len() > 0 {
            lemma_exponent_chars(rest);
        }
        assert forall|i: int| 0 <= i < s.len() implies is_entry_char(#[trigger] s[i]) by {
            if i < whole {
            } else if i == whole {
                assert(s[i] == tail[0]);
            } else if i < whole + 1 + fraction {
                assert(s[i] == after[i - whole - 1]);
            } else {
                assert(s[i] == rest[i - whole - 1 - fraction]);
            }
        }
    } else {
        if tail.len() > 0 {
            lemma_exponent_chars(tail);
        }
        assert forall|i: int| 0 <= i < s.len() implies is_entry_char(#[trigger] s[i]) by {
            if i >= whole {
                assert(s[i] == tail[i - whole]);
            }
        }
    }
}

/// A floating-point literal is made of the characters of entries. It holds
/// no comma, so it is one entry of any field that it is joined into.
pub proof fn lemma_float_literal_chars(s: Seq<char>)
    requires
        is_float_literal(s),
    ensures
        is_entry_text(s),
        comma_free(s),
{
    let body = unsigned_part(s);
    if is_number(body) {
        lemma_number_scan(body);
        lemma_number_chars(body);
    }
    assert forall|i: int| 0 <= i < s.len() implies is_entry_char(#[trigger] s[i]) by {
        if s.len() > 0 && is_sign(s[0]) {
            if i >= 1 {
                assert(s[i] == body[i - 1]);
            }
        } else {
            assert(s[i] == body[i]);
        }
    }
}

fn letter(c: char, lower: char, upper: char) -> (r: bool)
    ensures
        r == is_letter(c, lower, upper),
{
    c == lower || c == upper
}

/// The number of digits in `chars` from position `from` on.
fn digit_run_from(chars: &Vec<char>, from: usize) -> (k: usize)
    requires
        from <= chars.len(),
    ensures
        k == digit_run(chars@.skip(from as int)),
        from + k <= chars.len(),
{
    let n = chars.len();
    let mut i = from;
    while i < n && chars[i] >= '0' && chars[i] <= '9'
        invariant
            from <= i <= n,
            n == chars.len(),
            digit_run(chars@.skip(from as int)) == (i - from) + digit_run(chars@.skip(i as int)),
        decreases n - i,
    {
        proof {
            let s = chars@.skip(i as int);
            assert(s[0] == chars[i as int]);
            assert(s.skip(1) =~= chars@.skip(i + 1));
        }
        i += 1;
    }
    proof {
        let s = chars@.skip(i as int);
        if i < n {
            assert(s[0] == chars[i as int]);
        }
    }
    i - from
}

fn is_special_from(chars: &Vec<char>, from: usize) -> (r: bool)
    requires
        from <= chars.len(),
    ensures
        r == {
            let s = chars@.skip(from as int);
            is_inf(s) || is_infinity(s) || is_nan(s)
        },
{
    let n = chars.len() - from;
    if n == 3 {
        (letter(chars[from], 'i', 'I') && letter(chars[from + 1], 'n', 'N') && letter(
            chars[from + 2],
            'f',
            'F',
        )) || (letter(chars[from], 'n', 'N') && letter(chars[from + 1], 'a', 'A') && letter(
            chars[from + 2],
            'n',
            'N',
        ))
    } else if n == 8 {
        letter(chars[from], 'i', 'I') && letter(chars[from + 1], 'n', 'N') && letter(
            chars[from + 2],
            'f',
            'F',
        ) && letter(chars[from + 3], 'i', 'I') && letter(chars[from + 4], 'n', 'N') && letter(
            chars[from + 5],
            'i',
            'I',
        ) && letter(chars[from + 6], 't', 'T') && letter(chars[from + 7], 'y', 'Y')
    } else {
        false
    }
}

fn is_exponent_from(chars: &Vec<char>, from: usize) -> (r: bool)
    requires
        from <= chars.len(),
    ensures
        r == is_exponent(chars@.skip(from as int)),
{
    let n = chars.len();
    if n - from < 2 || !letter(chars[from], 'e', 'E') {
        return false;
    }
    let ghost s = chars@.skip(from as int);
    let signed = chars[from + 1] == '+' || chars[from + 1] == '-';
    let digits: usize = if signed { from + 2 } else { from + 1 };
    proof {
        assert(s.skip(1) =~= chars@.skip(from + 1));
        assert(s.skip(1)[0] == chars[from + 1]);
        assert(s.skip(1).skip(1) =~= chars@.skip(from + 2));
        assert(unsigned_part(s.skip(1)) == chars@.skip(digits as int));
        lemma_digit_run(chars@.skip(digits as int));
    }
    let run = digit_run_from(chars, digits);
    digits < n && run == n - digits
}

fn is_number_from(chars: &Vec<char>, from: usize) -> (r: bool)
    requires
        from <= chars.len(),
    ensures
        r == is_number(chars@.skip(from as int)),
{
    proof {
        lemma_number_scan(chars@.skip(from as int));
    }
    let n = chars.len();
    let ghost s = chars@.skip(from as int);
    let whole = digit_run_from(chars, from);
    let point = from + whole;
    proof {
        assert(s.skip(whole as int) =~= chars@.skip(point as int));
        if point < n {
            assert(chars@.skip(point as int)[0] == chars[point as int]);
        }
    }
    if point < n && chars[point] == '.' {
        let fraction = digit_run_from(chars, point + 1);
        let rest = point + 1 + fraction;
        proof {
            let tail = chars@.skip(point as int);
            assert(tail.skip(1) =~= chars@.skip(point + 1));
            assert(tail.skip(1 + fraction) =~= chars@.skip(rest as int));
        }
        (whole > 0 || fraction > 0) && (rest == n || is_exponent_from(chars, rest))
    } else {
        whole > 0 && (point == n || is_exponent_from(chars, point))
    }
}

/// Whether `token` is a floating-point literal.
pub fn is_float_token(token: &str) -> (r: bool)
    ensures
        r == is_float_literal(token@),
{
    let chars = chars_of(token);
    let signed = chars.len() > 0 && (chars[0] == '+' || chars[0] == '-');
    let from: usize = if signed { 1 } else { 0 };
    proof {
        assert(chars@.skip(0) =~= chars@);
    }
    is_special_from(&chars, from) || is_number_from(&chars, from)
}

/// A floating-point value, held as the literal that denotes it.
///
/// Two values are equal when their literals are: `1.0` and `1` denote the
/// same number and are different values of this type.
#[derive(Debug, PartialEq, Eq, Hash)]
pub struct Float {
    text: String,
}

impl View for Float {
    type V = Seq<char>;

    closed spec fn view(&self) -> Seq<char> {
        self.text@
    }
}

impl Float {
    #[verifier::type_invariant]
    spec fn well_formed(&self) -> bool {
        is_float_literal(self.text@)
    }

    /// Reads a token as a floating-point value; `None` if it is no literal.
    pub fn parse(token: &str) -> (r: Option<Float>)
        ensures
            match r {
                Some(value) => is_float_literal(token@) && value@ == token@,
                None => !is_float_literal(token@),
            },
    {
        if is_float_token(token) {
            Some(Float { text: token.to_owned() })
        } else {
            None
        }
    }

    /// Reads the text of a field that holds one floating-point value.
    pub fn decode(text: &str) -> (r: Result<Float, ParseErr>)
        ensures
            match r {
                Ok(value) => is_float_literal(text@) && value@ == text@,
                Err(e) => !is_float_literal(text@) && e@ == ParseErrView::Field(
                    text@,
                    NumberKind::Float,
                ),
            },
    {
        match Float::parse(text) {
            Some(value) => Ok(value),
            None => Err(ParseErr::Field(text.to_owned(), NumberKind::Float)),
        }
    }

    /// The value zero, written `0`.
    pub fn zero() -> (r: Float)
        ensures
            r@ == seq!['0'],
    {
        let mut text = String::new();
        text.push('0');
        proof {
            let s = text@;
            assert(s =~= seq!['0']);
            assert(unsigned_part(s) == s);
            assert(digit_run(s.skip(1)) == 0);
            assert(digit_run(s) == 1);
            lemma_number_scan(s);
        }
        Float { text }
    }

    /// The literal that denotes the value.
    pub fn as_str(&self) -> (r: &str)
        ensures
            r@ == self@,
            is_float_literal(self@),
    {
        proof {
            use_type_invariant(self);
        }
        self.text.as_str()
    }
}

impl Clone for Float {
    fn clone(&self) -> (r: Self)
        ensures
            r@ == self@,
    {
        proof {
            use_type_invariant(self);
        }
        Float { text: self.text.clone() }
    }
}

impl Default for Float {
    /// Zero.
    fn default() -> (r: Self)
        ensures
            r@ == seq!['0'],
    {
        Float::zero()
    }
}

} // verus!
