//! Conversions between text and vectors of characters, and tests on them.

use vstd::prelude::*;

verus! {

/// `String::push` appends the one character to the end of the string.
pub assume_specification[ String::push ](s: &mut String, c: char)
    ensures
        final(s)@ == old(s)@.push(c),
;

/// The characters of `s`, in order.
pub fn chars_of(s: &str) -> (v: Vec<char>)
    ensures
        v@ == s@,
{
    let mut v: Vec<char> = Vec::new();
    for c in it: s.chars()
        invariant
            it.seq() == s@,
            v@ == s@.take(it.index()),
    {
        v.push(c);
    }
    v
}

/// The text made of the characters of `v` from index `from` up to, not
/// including, index `to`.
pub fn text_of(v: &Vec<char>, from: usize, to: usize) -> (s: String)
    requires
        from <= to <= v.len(),
    ensures
        s@ == v@.subrange(from as int, to as int),
{
    let mut s = String::new();
    let mut i: usize = from;
    while i < to
        invariant
            from <= i <= to <= v.len(),
            s@ == v@.subrange(from as int, i as int),
        decreases to - i,
    {
        s.push(v[i]);
        i += 1;
    }
    s
}

/// The characters of `v` from index `start` on.
pub fn chars_from(v: &Vec<char>, start: usize) -> (rest: Vec<char>)
    requires
        start <= v.len(),
    ensures
        rest@ == v@.skip(start as int),
{
    let mut rest: Vec<char> = Vec::new();
    let mut i: usize = start;
    while i < v.len()
        invariant
            start <= i <= v.len(),
            rest@ == v@.subrange(start as int, i as int),
        decreases v.len() - i,
    {
        rest.push(v[i]);
        i += 1;
    }
    rest
}

/// Whether `v` begins with the characters of `prefix`.
pub fn starts_with(v: &Vec<char>, prefix: &str) -> (b: bool)
    ensures
        b == prefix@.is_prefix_of(v@),
{
    let p = chars_of(prefix);
    if p.len() > v.len() {
        return false;
    }
    let mut i: usize = 0;
    while i < p.len()
        invariant
            i <= p.len() <= v.len(),
            p@ == prefix@,
            p@.take(i as int) == v@.take(i as int),
        decreases p.len() - i,
    {
        if p[i] != v[i] {
            assert(p@[i as int] != v@.subrange(0, p@.len() as int)[i as int]);
            return false;
        }
        assert(p@.take(i + 1) == p@.take(i as int).push(p@[i as int]));
        assert(v@.take(i + 1) == v@.take(i as int).push(v@[i as int]));
        i += 1;
    }
    assert(p@.take(p@.len() as int) == p@);
    true
}

/// Whether `v` ends with the characters of `suffix`.
pub fn ends_with(v: &Vec<char>, suffix: &str) -> (b: bool)
    ensures
        b == suffix@.is_suffix_of(v@),
{
    let p = chars_of(suffix);
    if p.len() > v.len() {
        return false;
    }
    let base: usize = v.len() - p.len();
    let mut i: usize = 0;
    while i < p.len()
        invariant
            i <= p.len() <= v.len(),
            base == v.len() - p.len(),
            p@ == suffix@,
            p@.take(i as int) == v@.subrange(base as int, base + i),
        decreases p.len() - i,
    {
        if p[i] != v[base + i] {
            assert(p@[i as int] != v@.subrange(base as int, v@.len() as int)[i as int]);
            return false;
        }
        assert(p@.take(i + 1) == p@.take(i as int).push(p@[i as int]));
        assert(v@.subrange(base as int, base + i + 1) == v@.subrange(base as int, base + i).push(
            v@[base + i],
        ));
        i += 1;
    }
    assert(p@.take(p@.len() as int) == p@);
    true
}

/// Whether `v` holds exactly the characters of `other`.
pub fn same_text(v: &Vec<char>, other: &str) -> (b: bool)
    ensures
        b == (v@ == other@),
{
    let n: usize = other.unicode_len();
    let b = v.len() == n && starts_with(v, other);
    proof {
        if v@.len() == other@.len() {
            assert(v@.subrange(0, v@.len() as int) == v@);
        }
    }
    b
}

} // verus!
