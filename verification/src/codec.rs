//! The percent codec: escaping a file name for a JSON string, and decoding the
//! percent escapes of a request target.
//!
//! The two directions are not inverse to each other: encoding escapes three
//! characters only, decoding reads every escape.

use vstd::prelude::*;
use crate::text::chars_of;

verus! {

/// The value of a hexadecimal digit, in either case; `None` for any other
/// character.
pub open spec fn hex_value(c: char) -> Option<u8> {
    if '0' <= c <= '9' {
        Some((c as int - '0' as int) as u8)
    } else if 'a' <= c <= 'f' {
        Some((c as int - 'a' as int + 10) as u8)
    } else if 'A' <= c <= 'F' {
        Some((c as int - 'A' as int + 10) as u8)
    } else {
        None
    }
}

/// The byte that two hexadecimal digits write, high digit first; `None` unless
/// both are hexadecimal digits.
pub open spec fn hex_byte(hi: char, lo: char) -> Option<u8> {
    match (hex_value(hi), hex_value(lo)) {
        (Some(h), Some(l)) => Some((16 * h + l) as u8),
        _ => None,
    }
}

/// The upper-case hexadecimal digit of a value below 16.
pub open spec fn hex_digit(n: int) -> char
    recommends
        0 <= n < 16,
{
    if n < 10 {
        ('0' as int + n) as char
    } else {
        ('A' as int + n - 10) as char
    }
}

/// The escape of one byte: a percent sign and the byte's two hexadecimal
/// digits.
pub open spec fn percent_triplet(b: u8) -> Seq<char> {
    seq!['%', hex_digit(b as int / 16), hex_digit(b as int % 16)]
}

/// Whether encoding escapes the character: the space, the double quote and the
/// number sign.
pub open spec fn is_escaped(c: char) -> bool {
    c == ' ' || c == '"' || c == '#'
}

/// What encoding writes for one character.
pub open spec fn encoded_char(c: char) -> Seq<char> {
    if is_escaped(c) {
        percent_triplet(c as u8)
    } else {
        seq![c]
    }
}

/// The encoding of a name: each character's encoding, in order.
pub open spec fn encoded(s: Seq<char>) -> Seq<char>
    decreases s.len(),
{
    if s.len() == 0 {
        Seq::empty()
    } else {
        encoded_char(s[0]) + encoded(s.skip(1))
    }
}

/// Whether a well-formed escape begins at index `i` of `s`: a percent sign
/// followed by two hexadecimal digits.
pub open spec fn escape_at(s: Seq<char>, i: int) -> bool {
    &&& 0 <= i
    &&& i + 2 < s.len()
    &&& s[i] == '%'
    &&& hex_byte(s[i + 1], s[i + 2]) is Some
}

/// The decoding of a path, read from left to right. A percent sign with two
/// characters behind it takes both with it: where they write a byte, the
/// character with that byte's number stands for the three, and where they do
/// not, the three stay as they are. Every other character stays, a percent
/// sign with fewer than two characters behind it too.
pub open spec fn decoded(s: Seq<char>) -> Seq<char>
    decreases s.len(),
{
    if s.len() == 0 {
        Seq::empty()
    } else if s[0] == '%' && s.len() >= 3 {
        match hex_byte(s[1], s[2]) {
            Some(b) => seq![b as char] + decoded(s.skip(3)),
            None => seq!['%', s[1], s[2]] + decoded(s.skip(3)),
        }
    } else {
        seq![s[0]] + decoded(s.skip(1))
    }
}

fn digit_value(c: char) -> (r: Option<u8>)
    ensures
        r == hex_value(c),
{
    if '0' <= c && c <= '9' {
        Some((c as u32 - '0' as u32) as u8)
    } else if 'a' <= c && c <= 'f' {
        Some((c as u32 - 'a' as u32 + 10) as u8)
    } else if 'A' <= c && c <= 'F' {
        Some((c as u32 - 'A' as u32 + 10) as u8)
    } else {
        None
    }
}

/// Reads two characters as the hexadecimal digits of a byte.
pub fn parse_hex_byte(hi: char, lo: char) -> (r: Option<u8>)
    ensures
        r == hex_byte(hi, lo),
{
    match (digit_value(hi), digit_value(lo)) {
        (Some(h), Some(l)) => Some(16 * h + l),
        _ => None,
    }
}

fn digit_of(n: u8) -> (c: char)
    requires
        n < 16,
    ensures
        c == hex_digit(n as int),
{
    if n < 10 {
        (48u8 + n) as char
    } else {
        (65u8 + (n - 10)) as char
    }
}

/// Writes a byte as its escape.
pub fn percent_encode_byte(b: u8) -> (out: String)
    ensures
        out@ == percent_triplet(b),
{
    let mut out = String::new();
    out.push('%');
    out.push(digit_of(b / 16));
    out.push(digit_of(b % 16));
    out
}

/// Encodes a file name for a JSON string: the space becomes `%20`, the double
/// quote `%22`, the number sign `%23`, and every other character stays.
pub fn url_encode(input: &str) -> (out: String)
    ensures
        out@ == encoded(input@),
{
    let mut out = String::new();
    proof {
        assert(input@.skip(0) == input@);
        assert(out@ + encoded(input@) == encoded(input@));
    }
    for c in it: input.chars()
        invariant
            it.seq() == input@,
            out@ + encoded(input@.skip(it.index())) == encoded(input@),
    {
        let ghost at = it.index();
        let ghost before = out@;
        let ghost rest = input@.skip(at);
        if c == ' ' || c == '"' || c == '#' {
            out.push('%');
            out.push(digit_of(c as u8 / 16));
            out.push(digit_of(c as u8 % 16));
        } else {
            out.push(c);
        }
        proof {
            assert(rest.skip(1) == input@.skip(at + 1));
            assert(out@ == before + encoded_char(c));
            assert(encoded(rest) == encoded_char(c) + encoded(rest.skip(1)));
            assert(out@ + encoded(input@.skip(at + 1)) == before + encoded(rest));
        }
    }
    proof {
        assert(input@.skip(input@.len() as int) == Seq::<char>::empty());
        assert(out@ + Seq::<char>::empty() == out@);
    }
    out
}

/// Decodes the percent escapes of a request target. Nothing is refused: what
/// is no escape stays as it is.
pub fn url_decode(input: &str) -> (out: String)
    ensures
        out@ == decoded(input@),
{
    let v = chars_of(input);
    let mut out = String::new();
    let mut i: usize = 0;
    proof {
        assert(v@.skip(0) == v@);
        assert(out@ + decoded(v@) == decoded(v@));
    }
    while i < v.len()
        invariant
            i <= v.len(),
            v@ == input@,
            out@ + decoded(v@.skip(i as int)) == decoded(v@),
        decreases v.len() - i,
    {
        let c = v[i];
        let ghost before = out@;
        let ghost rest = v@.skip(i as int);
        if c == '%' && v.len() - i >= 3 {
            let hi = v[i + 1];
            let lo = v[i + 2];
            match parse_hex_byte(hi, lo) {
                Some(b) => {
                    out.push(b as char);
                },
                None => {
                    out.push('%');
                    out.push(hi);
                    out.push(lo);
                },
            }
            proof {
                assert(rest.skip(3) == v@.skip(i + 3));
                assert(out@ + decoded(rest.skip(3)) == before + decoded(rest));
            }
            i += 3;
        } else {
            out.push(c);
            proof {
                assert(rest.skip(1) == v@.skip(i + 1));
                assert(out@ + decoded(rest.skip(1)) == before + decoded(rest));
            }
            i += 1;
        }
    }
    proof {
        assert(v@.skip(v@.len() as int) == Seq::<char>::empty());
        assert(out@ + Seq::<char>::empty() == out@);
    }
    out
}

/// Decoding the escape of a byte gives the one character with that byte's
/// number, for every byte, the printable ASCII characters among them.
pub proof fn lemma_decode_percent_triplet(b: u8)
    ensures
        hex_byte(percent_triplet(b)[1], percent_triplet(b)[2]) == Some(b),
        decoded(percent_triplet(b)) == seq![b as char],
{
    let t = percent_triplet(b);
    assert(hex_value(hex_digit(b as int / 16)) == Some((b as int / 16) as u8));
    assert(hex_value(hex_digit(b as int % 16)) == Some((b as int % 16) as u8));
    assert(hex_byte(t[1], t[2]) == Some(b));
    assert(t.skip(3) == Seq::<char>::empty());
    assert(decoded(t.skip(3)) == Seq::<char>::empty());
    assert(decoded(t) == seq![b as char] + Seq::<char>::empty());
}

/// Decoding leaves a text unchanged in which no well-formed escape begins:
/// one in which every percent sign is followed by fewer than two characters,
/// or by two that are not both hexadecimal digits.
pub proof fn lemma_decode_keeps_malformed(s: Seq<char>)
    requires
        forall|i: int| !escape_at(s, i),
    ensures
        decoded(s) == s,
    decreases s.len(),
{
    if s.len() == 0 {
    } else if s[0] == '%' && s.len() >= 3 {
        assert(!escape_at(s, 0));
        let rest = s.skip(3);
        assert forall|i: int| !escape_at(rest, i) by {
            assert(!escape_at(s, i + 3));
        }
        lemma_decode_keeps_malformed(rest);
        assert(seq!['%', s[1], s[2]] + rest == s);
    } else {
        let rest = s.skip(1);
        assert forall|i: int| !escape_at(rest, i) by {
            assert(!escape_at(s, i + 1));
        }
        lemma_decode_keeps_malformed(rest);
        assert(seq![s[0]] + rest == s);
    }
}

/// Decoding what encoding wrote first gives back the text that follows it
/// decoded behind the character that was encoded, unless that character is
/// the percent sign.
pub proof fn lemma_decode_encoded_char(c: char, tail: Seq<char>)
    requires
        c != '%',
    ensures
        decoded(encoded_char(c) + tail) == seq![c] + decoded(tail),
{
    let s = encoded_char(c) + tail;
    if is_escaped(c) {
        let b = c as u8;
        lemma_decode_percent_triplet(b);
        assert(s[0] == '%' && s[1] == percent_triplet(b)[1] && s[2] == percent_triplet(b)[2]);
        assert(s.skip(3) == tail);
        assert(b as char == c);
    } else {
        assert(s[0] == c);
        assert(s.skip(1) == tail);
    }
}

/// Decoding undoes encoding on every name that holds no percent sign.
pub proof fn lemma_decode_inverts_encode(s: Seq<char>)
    requires
        !s.contains('%'),
    ensures
        decoded(encoded(s)) == s,
    decreases s.len(),
{
    if s.len() == 0 {
        assert(encoded(s) == Seq::<char>::empty());
    } else {
        let rest = s.skip(1);
        assert(s[0] != '%');
        assert forall|i: int| 0 <= i < rest.len() implies rest[i] != '%' by {
            assert(rest[i] == s[i + 1]);
        }
        lemma_decode_inverts_encode(rest);
        lemma_decode_encoded_char(s[0], encoded(rest));
        assert(seq![s[0]] + rest == s);
    }
}

} // verus!
