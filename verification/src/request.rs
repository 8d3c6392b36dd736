//! The request parser: the request target, read from the first line of the
//! bytes of a request. Method, version and headers are not looked at.

use vstd::prelude::*;
use vstd::utf8::{decode_utf8, valid_utf8};
use crate::text::{chars_of, text_of};

verus! {

/// ASCII white space: the space and the characters from the tab to the
/// carriage return (tab, line feed, vertical tab, form feed, carriage return).
pub open spec fn is_space(c: char) -> bool {
    c == ' ' || '\t' <= c <= '\r'
}

/// The number of characters of `s` before its first line feed; its length
/// where it holds none.
pub open spec fn line_len(s: Seq<char>) -> nat
    decreases s.len(),
{
    if s.len() == 0 || s[0] == '\n' {
        0
    } else {
        1 + line_len(s.skip(1))
    }
}

/// The first line of a text: what stands before its first line feed.
pub open spec fn first_line(s: Seq<char>) -> Seq<char> {
    s.take(line_len(s) as int)
}

/// The number of characters that `s` begins with before any white space.
pub open spec fn word_len(s: Seq<char>) -> nat
    decreases s.len(),
{
    if s.len() == 0 || is_space(s[0]) {
        0
    } else {
        1 + word_len(s.skip(1))
    }
}

/// The tokens of a line: its longest runs of characters that are not white
/// space, in order.
pub open spec fn tokens(s: Seq<char>) -> Seq<Seq<char>>
    decreases s.len(),
    via tokens_decreases
{
    if s.len() == 0 {
        Seq::empty()
    } else if is_space(s[0]) {
        tokens(s.skip(1))
    } else {
        seq![s.take(word_len(s) as int)] + tokens(s.skip(word_len(s) as int))
    }
}

#[via_fn]
proof fn tokens_decreases(s: Seq<char>) {
    if s.len() != 0 && !is_space(s[0]) {
        lemma_word_len_bounds(s);
    }
}

/// A run of characters that are not white space is no longer than the text
/// that it begins, and not empty where the text begins with such a character.
pub proof fn lemma_word_len_bounds(s: Seq<char>)
    ensures
        word_len(s) <= s.len(),
        s.len() > 0 && !is_space(s[0]) ==> word_len(s) >= 1,
    decreases s.len(),
{
    if s.len() != 0 && !is_space(s[0]) {
        lemma_word_len_bounds(s.skip(1));
    }
}

/// A word: a non-empty text that holds no white space.
pub open spec fn is_word(t: Seq<char>) -> bool {
    t.len() > 0 && forall|j: int| 0 <= j < t.len() ==> !is_space(#[trigger] t[j])
}

/// The run that `word_len` measures holds no white space.
pub proof fn lemma_word_holds_no_space(s: Seq<char>)
    ensures
        forall|j: int| 0 <= j < word_len(s) ==> !is_space(#[trigger] s[j]),
    decreases s.len(),
{
    if s.len() != 0 && !is_space(s[0]) {
        lemma_word_holds_no_space(s.skip(1));
        lemma_word_len_bounds(s.skip(1));
        assert forall|j: int| 0 <= j < word_len(s) implies !is_space(#[trigger] s[j]) by {
            if j > 0 {
                assert(s[j] == s.skip(1)[j - 1]);
            }
        }
    }
}

/// Every token of a line is a word.
pub proof fn lemma_tokens_are_words(s: Seq<char>)
    ensures
        forall|i: int| 0 <= i < tokens(s).len() ==> is_word(#[trigger] tokens(s)[i]),
    decreases s.len(),
{
    if s.len() == 0 {
        assert(tokens(s).len() == 0);
    } else if is_space(s[0]) {
        lemma_tokens_are_words(s.skip(1));
        assert(tokens(s) == tokens(s.skip(1)));
    } else {
        lemma_word_len_bounds(s);
        lemma_word_holds_no_space(s);
        let n = word_len(s) as int;
        lemma_tokens_are_words(s.skip(n));
        assert(is_word(s.take(n)));
        assert forall|i: int| 0 <= i < tokens(s).len() implies is_word(
            #[trigger] tokens(s)[i],
        ) by {
            if i > 0 {
                assert(tokens(s)[i] == tokens(s.skip(n))[i - 1]);
            }
        }
    }
}

/// The request target of a request text: the second token of its first line,
/// and `/` where that line has fewer than two tokens.
pub open spec fn request_target(text: Seq<char>) -> Seq<char> {
    let t = tokens(first_line(text));
    if t.len() >= 2 {
        t[1]
    } else {
        seq!['/']
    }
}

/// What `String::from_utf8_lossy` makes of a sequence of bytes.
pub uninterp spec fn utf8_lossy(bytes: Seq<u8>) -> Seq<char>;

/// Calls `String::from_utf8_lossy`, which reads the bytes as UTF-8 and puts
/// the replacement character in place of what is not. The contract gives the
/// result its name, and says that bytes that are UTF-8 give the text that they
/// encode.
#[verifier::external_body]
fn lossy_text(bytes: &[u8]) -> (text: String)
    ensures
        text@ == utf8_lossy(bytes@),
        valid_utf8(bytes@) ==> text@ == decode_utf8(bytes@),
{
    String::from_utf8_lossy(bytes).into_owned()
}

fn is_space_char(c: char) -> (b: bool)
    ensures
        b == is_space(c),
{
    c == ' ' || ('\t' <= c && c <= '\r')
}

fn line_end(v: &Vec<char>) -> (end: usize)
    ensures
        end == line_len(v@),
        end <= v.len(),
{
    let mut i: usize = 0;
    proof {
        assert(v@.skip(0) == v@);
    }
    while i < v.len() && v[i] != '\n'
        invariant
            i <= v.len(),
            i + line_len(v@.skip(i as int)) == line_len(v@),
        decreases v.len() - i,
    {
        proof {
            assert(v@.skip(i as int).skip(1) == v@.skip(i + 1));
        }
        i += 1;
    }
    i
}

fn skip_spaces(v: &Vec<char>, from: usize, end: usize) -> (i: usize)
    requires
        from <= end <= v.len(),
    ensures
        from <= i <= end,
        tokens(v@.subrange(i as int, end as int)) == tokens(v@.subrange(from as int, end as int)),
        i < end ==> !is_space(v@[i as int]),
{
    let mut i: usize = from;
    while i < end && is_space_char(v[i])
        invariant
            from <= i <= end <= v.len(),
            tokens(v@.subrange(i as int, end as int)) == tokens(
                v@.subrange(from as int, end as int),
            ),
        decreases end - i,
    {
        proof {
            assert(v@.subrange(i as int, end as int).skip(1) == v@.subrange(i + 1, end as int));
        }
        i += 1;
    }
    i
}

fn skip_word(v: &Vec<char>, from: usize, end: usize) -> (i: usize)
    requires
        from <= end <= v.len(),
    ensures
        i == from + word_len(v@.subrange(from as int, end as int)),
        i <= end,
{
    let mut i: usize = from;
    while i < end && !is_space_char(v[i])
        invariant
            from <= i <= end <= v.len(),
            i - from + word_len(v@.subrange(i as int, end as int)) == word_len(
                v@.subrange(from as int, end as int),
            ),
        decreases end - i,
    {
        proof {
            assert(v@.subrange(i as int, end as int).skip(1) == v@.subrange(i + 1, end as int));
        }
        i += 1;
    }
    i
}

/// The request target of a request that was read as text.
pub fn target_of_text(text: &str) -> (path: String)
    ensures
        path@ == request_target(text@),
        tokens(first_line(text@)).len() < 2 ==> path@ == seq!['/'],
{
    let v = chars_of(text);
    let end = line_end(&v);
    let ghost line = v@.subrange(0, end as int);
    let a = skip_spaces(&v, 0, end);
    if a == end {
        assert(tokens(v@.subrange(a as int, end as int)) == Seq::<Seq<char>>::empty());
        return root();
    }
    let b = skip_word(&v, a, end);
    let c = skip_spaces(&v, b, end);
    let ghost first = v@.subrange(a as int, end as int);
    let ghost second = v@.subrange(c as int, end as int);
    proof {
        assert(first.skip(b - a) == v@.subrange(b as int, end as int));
        assert(tokens(line) == seq![first.take(b - a)] + tokens(second));
    }
    if c == end {
        assert(tokens(second) == Seq::<Seq<char>>::empty());
        return root();
    }
    let d = skip_word(&v, c, end);
    proof {
        assert(tokens(second) == seq![second.take(d - c)] + tokens(second.skip(d - c)));
        assert(second.take(d - c) == v@.subrange(c as int, d as int));
        assert(tokens(line)[1] == second.take(d - c));
    }
    text_of(&v, c, d)
}

fn root() -> (path: String)
    ensures
        path@ == seq!['/'],
{
    let mut path = String::new();
    path.push('/');
    path
}

/// The request target of the bytes that were read from a connection: the
/// bytes are read as UTF-8, with the replacement character for what is not,
/// and the target is taken from that text.
pub fn request_path(buf: &[u8]) -> (path: String)
    ensures
        path@ == request_target(utf8_lossy(buf@)),
        valid_utf8(buf@) ==> path@ == request_target(decode_utf8(buf@)),
{
    let text = lossy_text(buf);
    target_of_text(text.as_str())
}

} // verus!
