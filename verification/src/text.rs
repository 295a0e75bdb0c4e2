//! Comma-packed text fields: splitting a field into its tokens and joining
//! tokens back into a field.

use vstd::prelude::*;
use vstd::string::StrSliceExecFns;
use itertools::Itertools;

verus! {

/// The tokens of `s`: the maximal comma-free pieces, in order. A text without
/// a comma is one token, so there is always at least one.
pub open spec fn split_commas(s: Seq<char>) -> Seq<Seq<char>>
    decreases s.len(),
{
    if s.len() == 0 {
        seq![Seq::<char>::empty()]
    } else {
        let init = split_commas(s.drop_last());
        if s.last() == ',' {
            init.push(Seq::<char>::empty())
        } else {
            init.drop_last().push(init.last().push(s.last()))
        }
    }
}

/// No character of `s` is a comma.
pub open spec fn comma_free(s: Seq<char>) -> bool {
    forall|i: int| 0 <= i < s.len() ==> #[trigger] s[i] != ','
}

/// Whether `c` is one of the characters that the entries of compact fields
/// are made of: a digit, a sign, the point, or a letter of the Latin
/// alphabet.
pub open spec fn is_entry_char(c: char) -> bool {
    ||| '0' <= c && c <= '9'
    ||| c == '+'
    ||| c == '-'
    ||| c == '.'
    ||| 'a' <= c && c <= 'z'
    ||| 'A' <= c && c <= 'Z'
}

/// Whether `s` is made of the characters of entries and of commas. Such a
/// text holds no white space and none of the characters that mark up a
/// document, so it stands in an attribute or between tags as it is.
pub open spec fn is_field_text(s: Seq<char>) -> bool {
    forall|i: int| 0 <= i < s.len() ==> is_entry_char(#[trigger] s[i]) || s[i] == ','
}

/// Whether `s` is made of the characters of entries.
pub open spec fn is_entry_text(s: Seq<char>) -> bool {
    forall|i: int| 0 <= i < s.len() ==> is_entry_char(#[trigger] s[i])
}

/// Trusted: `String::push` of the standard library appends the character to
/// the end of the string.
pub assume_specification[ String::push ](s: &mut String, c: char)
    ensures
        final(s)@ == old(s)@.push(c),
;

/// The views of the items of a sequence, in order.
pub open spec fn seq_view<T: View>(items: Seq<T>) -> Seq<T::V> {
    items.map_values(|item: T| item@)
}

/// Every token is free of commas.
pub open spec fn all_comma_free(tokens: Seq<Seq<char>>) -> bool {
    forall|i: int| 0 <= i < tokens.len() ==> comma_free(#[trigger] tokens[i])
}

/// A text has at least one token, and no token holds a comma.
pub proof fn lemma_split_tokens(s: Seq<char>)
    ensures
        split_commas(s).len() >= 1,
        all_comma_free(split_commas(s)),
    decreases s.len(),
{
    if s.len() > 0 {
        lemma_split_tokens(s.drop_last());
    }
}

/// The characters of `text`, in order.
pub fn chars_of(text: &str) -> (chars: Vec<char>)
    ensures
        chars@ == text@,
{
    let mut chars: Vec<char> = Vec::new();
    for c in it: text.chars()
        invariant
            it.seq() == text@,
            chars@ == text@.take(it.index() as int),
    {
        proof {
            let i = it.index() as int;
            assert(text@.take(i + 1) =~= text@.take(i).push(c));
        }
        chars.push(c);
    }
    proof {
        assert(text@.take(text@.len() as int) =~= text@);
    }
    chars
}

/// Splits `text` at every comma.
pub fn split(text: &str) -> (tokens: Vec<String>)
    ensures
        seq_view(tokens@) == split_commas(text@),
{
    let mut done: Vec<String> = Vec::new();
    let mut current = String::new();
    proof {
        assert(text@.take(0) =~= Seq::<char>::empty());
    }
    for c in it: text.chars()
        invariant
            it.seq() == text@,
            seq_view(done@).push(current@) == split_commas(text@.take(it.index() as int)),
    {
        proof {
            let i = it.index() as int;
            assert(text@.take(i + 1).drop_last() =~= text@.take(i));
            assert(text@.take(i + 1).last() == c);
            lemma_split_tokens(text@.take(i));
        }
        if c == ',' {
            let ghost before = seq_view(done@);
            let ghost token = current@;
            done.push(current);
            current = String::new();
            proof {
                assert(seq_view(done@) =~= before.push(token));
            }
        } else {
            let ghost before = current@;
            current.push(c);
            proof {
                let init = seq_view(done@).push(before);
                assert(init.drop_last() =~= seq_view(done@));
            }
        }
    }
    proof {
        assert(text@.take(text@.len() as int) =~= text@);
    }
    let ghost before = seq_view(done@);
    done.push(current);
    proof {
        assert(seq_view(done@) =~= before.push(current@));
    }
    done
}

/// Whether `c` is white space in a document: a blank, a tab, a carriage
/// return or a line feed.
pub open spec fn is_space(c: char) -> bool {
    c == ' ' || c == '\t' || c == '\r' || c == '\n'
}

/// `s` without the white space that it starts with.
pub open spec fn trimmed_start(s: Seq<char>) -> Seq<char>
    decreases s.len(),
{
    if s.len() > 0 && is_space(s.first()) {
        trimmed_start(s.drop_first())
    } else {
        s
    }
}

/// `s` without the white space that it ends with.
pub open spec fn trimmed_end(s: Seq<char>) -> Seq<char>
    decreases s.len(),
{
    if s.len() > 0 && is_space(s.last()) {
        trimmed_end(s.drop_last())
    } else {
        s
    }
}

/// `s` without the white space around it. White space inside stays.
pub open spec fn trimmed(s: Seq<char>) -> Seq<char> {
    trimmed_end(trimmed_start(s))
}

/// The text of a field as it stands in a document, without the white space
/// around it.
pub fn trim(text: &str) -> (r: &str)
    ensures
        r@ == trimmed(text@),
{
    let chars = chars_of(text);
    let n = chars.len();
    let mut start: usize = 0;
    proof {
        assert(text@.skip(0) =~= text@);
    }
    while start < n && is_space_char(chars[start])
        invariant
            start <= n,
            n == chars.len(),
            chars@ == text@,
            trimmed_start(text@) == trimmed_start(text@.skip(start as int)),
        decreases n - start,
    {
        proof {
            let s = text@.skip(start as int);
            assert(s.first() == chars[start as int]);
            assert(s.drop_first() =~= text@.skip(start + 1));
        }
        start += 1;
    }
    let ghost rest = text@.skip(start as int);
    proof {
        if start < n {
            assert(rest.first() == chars[start as int]);
        }
        assert(trimmed_start(text@) == rest);
        assert(rest =~= text@.subrange(start as int, n as int));
    }
    let mut end: usize = n;
    while end > start && is_space_char(chars[end - 1])
        invariant
            start <= end <= n,
            n == chars.len(),
            chars@ == text@,
            trimmed_end(rest) == trimmed_end(text@.subrange(start as int, end as int)),
        decreases end,
    {
        proof {
            let s = text@.subrange(start as int, end as int);
            assert(s.last() == chars[end - 1]);
            assert(s.drop_last() =~= text@.subrange(start as int, end - 1));
        }
        end -= 1;
    }
    proof {
        let s = text@.subrange(start as int, end as int);
        if end > start {
            assert(s.last() == chars[end - 1]);
        }
    }
    text.substring_char(start, end)
}

/// A text without white space at its ends is what is left of it when it is
/// trimmed. The text of a field is such a text, and so is an empty text.
pub proof fn lemma_trimmed_is_fixed(s: Seq<char>)
    requires
        s.len() > 0 ==> !is_space(s.first()) && !is_space(s.last()),
    ensures
        trimmed(s) == s,
{
}

/// The text of a field holds no white space, so it is read as it was written
/// from a document that has white space around it.
pub proof fn lemma_trimmed_field_text(s: Seq<char>)
    requires
        is_field_text(s),
    ensures
        trimmed(s) == s,
{
    if s.len() > 0 {
        assert(is_entry_char(s[0]) || s[0] == ',');
        assert(is_entry_char(s[s.len() - 1]) || s[s.len() - 1] == ',');
    }
}

/// What is left of a trimmed text has no white space at its ends, so that
/// trimming it again changes nothing.
pub proof fn lemma_trimmed_twice(s: Seq<char>)
    ensures
        trimmed(s).len() > 0 ==> !is_space(trimmed(s).first()) && !is_space(trimmed(s).last()),
        trimmed(trimmed(s)) == trimmed(s),
{
    lemma_trimmed_start(s);
    lemma_trimmed_end(trimmed_start(s));
    let t = trimmed(s);
    if t.len() > 0 {
        lemma_trimmed_is_fixed(t);
    }
}

/// What is left of a text that is trimmed at the start does not start with
/// white space.
proof fn lemma_trimmed_start(s: Seq<char>)
    ensures
        trimmed_start(s).len() > 0 ==> !is_space(trimmed_start(s).first()),
    decreases s.len(),
{
    if s.len() > 0 && is_space(s.first()) {
        lemma_trimmed_start(s.drop_first());
    }
}

/// What is left of a text that is trimmed at the end starts as the text does
/// and does not end with white space.
proof fn lemma_trimmed_end(s: Seq<char>)
    ensures
        trimmed_end(s).len() > 0 ==> !is_space(trimmed_end(s).last()) && trimmed_end(s).first()
            == s.first(),
    decreases s.len(),
{
    if s.len() > 0 && is_space(s.last()) {
        lemma_trimmed_end(s.drop_last());
    }
}

fn is_space_char(c: char) -> (r: bool)
    ensures
        r == is_space(c),
{
    c == ' ' || c == '\t' || c == '\r' || c == '\n'
}

/// The tokens written one after the other with a comma between neighbours.
pub open spec fn join_commas(tokens: Seq<Seq<char>>) -> Seq<char>
    decreases tokens.len(),
{
    if tokens.len() == 0 {
        Seq::<char>::empty()
    } else if tokens.len() == 1 {
        tokens[0]
    } else {
        join_commas(tokens.drop_last()) + seq![','] + tokens.last()
    }
}

/// Joins the tokens with commas.
///
/// Trusted: `Itertools::join` of the crate itertools, called on the strings
/// of `tokens` with the separator `,`. It writes the first string, then for
/// each further string the separator and that string; nothing for no strings.
#[verifier::external_body]
pub(crate) fn join(tokens: &Vec<String>) -> (text: String)
    ensures
        text@ == join_commas(seq_view(tokens@)),
{
    tokens.iter().join(",")
}

/// Splitting a text and joining the pieces gives the text back.
pub proof fn lemma_join_split(s: Seq<char>)
    ensures
        join_commas(split_commas(s)) == s,
    decreases s.len(),
{
    if s.len() > 0 {
        let init = split_commas(s.drop_last());
        lemma_join_split(s.drop_last());
        lemma_split_tokens(s.drop_last());
        let tokens = split_commas(s);
        if s.last() == ',' {
            assert(tokens.drop_last() =~= init);
            assert(join_commas(tokens) =~= s.drop_last().push(','));
        } else if init.len() == 1 {
            assert(tokens[0] =~= init[0].push(s.last()));
        } else {
            assert(tokens.drop_last() =~= init.drop_last());
            assert(join_commas(tokens) =~= join_commas(init).push(s.last()));
        }
        assert(s.drop_last().push(s.last()) =~= s);
    }
}

/// The tokens of a text that ends in a comma-free piece after a comma.
proof fn lemma_split_append(head: Seq<char>, token: Seq<char>)
    requires
        comma_free(token),
    ensures
        split_commas(head + seq![','] + token) == split_commas(head).push(token),
    decreases token.len(),
{
    let s = head + seq![','] + token;
    if token.len() == 0 {
        assert(s.drop_last() =~= head);
        assert(token =~= Seq::<char>::empty());
    } else {
        let shorter = token.drop_last();
        lemma_split_append(head, shorter);
        assert(s.drop_last() =~= head + seq![','] + shorter);
        assert(s.last() == token.last());
        let init = split_commas(head).push(shorter);
        assert(init.drop_last() =~= split_commas(head));
        assert(shorter.push(token.last()) =~= token);
    }
}

/// A comma-free text is its own single token.
proof fn lemma_split_single(token: Seq<char>)
    requires
        comma_free(token),
    ensures
        split_commas(token) == seq![token],
    decreases token.len(),
{
    if token.len() > 0 {
        lemma_split_single(token.drop_last());
        assert(seq![token.drop_last()].drop_last().push(token.drop_last().push(token.last()))
            =~= seq![token]) by {
            assert(token.drop_last().push(token.last()) =~= token);
        }
    } else {
        assert(token =~= Seq::<char>::empty());
    }
}

/// Joining comma-free tokens, at least one, and splitting the text gives the
/// tokens back.
pub proof fn lemma_split_join(tokens: Seq<Seq<char>>)
    requires
        tokens.len() >= 1,
        all_comma_free(tokens),
    ensures
        split_commas(join_commas(tokens)) == tokens,
    decreases tokens.len(),
{
    if tokens.len() == 1 {
        lemma_split_single(tokens[0]);
        assert(seq![tokens[0]] =~= tokens);
    } else {
        let init = tokens.drop_last();
        lemma_split_join(init);
        lemma_split_append(join_commas(init), tokens.last());
        assert(init.push(tokens.last()) =~= tokens);
    }
}

/// Entries joined with commas make the text of a field, and each of them is
/// free of commas.
pub proof fn lemma_join_entries(tokens: Seq<Seq<char>>)
    requires
        forall|i: int| 0 <= i < tokens.len() ==> is_entry_text(#[trigger] tokens[i]),
    ensures
        is_field_text(join_commas(tokens)),
        all_comma_free(tokens),
    decreases tokens.len(),
{
    assert forall|i: int| 0 <= i < tokens.len() implies comma_free(#[trigger] tokens[i]) by {
        assert(is_entry_text(tokens[i]));
    }
    if tokens.len() >= 2 {
        lemma_join_entries(tokens.drop_last());
        assert(is_entry_text(tokens.last()));
    } else if tokens.len() == 1 {
        assert(is_entry_text(tokens[0]));
    }
}

} // verus!
