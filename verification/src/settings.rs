//! The settings of the server, and the lines of the file that sets them.

use vstd::prelude::*;
use crate::text::{chars_of, same_text, text_of};

verus! {

/// Whether `char::is_whitespace` holds of a character.
pub uninterp spec fn white_space(c: char) -> bool;

/// `char::is_whitespace` tells whether the character has the Unicode property
/// `White_Space`. The contract only gives the result its name.
pub assume_specification[ char::is_whitespace ](c: char) -> (b: bool)
    ensures
        b == white_space(c),
;

/// The characters that are white space.
pub open spec fn blank() -> spec_fn(char) -> bool {
    |c: char| white_space(c)
}

/// The double quote.
pub open spec fn quote() -> spec_fn(char) -> bool {
    |c: char| c == '"'
}

/// Every character but the equals sign.
pub open spec fn not_equals() -> spec_fn(char) -> bool {
    |c: char| c != '='
}

/// The number of characters at the start of `s` of which `p` holds.
pub open spec fn leading(s: Seq<char>, p: spec_fn(char) -> bool) -> nat
    decreases s.len(),
{
    if s.len() > 0 && p(s[0]) {
        1 + leading(s.skip(1), p)
    } else {
        0
    }
}

/// The number of characters at the end of `s` of which `p` holds.
pub open spec fn trailing(s: Seq<char>, p: spec_fn(char) -> bool) -> nat
    decreases s.len(),
{
    if s.len() > 0 && p(s.last()) {
        1 + trailing(s.drop_last(), p)
    } else {
        0
    }
}

/// `s` without the characters at its start and at its end of which `p` holds.
pub open spec fn strip(s: Seq<char>, p: spec_fn(char) -> bool) -> Seq<char> {
    let rest = s.skip(leading(s, p) as int);
    rest.take(rest.len() - trailing(rest, p))
}

/// What a line of the settings file sets: the line is stripped of white space;
/// an empty line, a comment, which begins with `#`, and a line without an
/// equals sign set nothing. Of any other line, the key is what stands before
/// the first equals sign, stripped of white space, and the value is what
/// follows it, stripped of white space and then of double quotes.
pub open spec fn env_pair(line: Seq<char>) -> Option<(Seq<char>, Seq<char>)> {
    let t = strip(line, blank());
    let k = leading(t, not_equals()) as int;
    if t.len() == 0 || t[0] == '#' || k == t.len() {
        None
    } else {
        Some((strip(t.take(k), blank()), strip(strip(t.skip(k + 1), blank()), quote())))
    }
}

/// The run at the start of a text lies within it, `p` holds of each of its
/// characters, and not of the character behind it.
pub proof fn lemma_leading_run(s: Seq<char>, p: spec_fn(char) -> bool)
    ensures
        leading(s, p) <= s.len(),
        forall|j: int| 0 <= j < leading(s, p) ==> p(#[trigger] s[j]),
        leading(s, p) < s.len() ==> !p(s[leading(s, p) as int]),
    decreases s.len(),
{
    if s.len() > 0 && p(s[0]) {
        lemma_leading_run(s.skip(1), p);
        assert forall|j: int| 0 <= j < leading(s, p) implies p(#[trigger] s[j]) by {
            if j > 0 {
                assert(s[j] == s.skip(1)[j - 1]);
            }
        }
    }
}

/// The run at the end of a text lies within it, and `p` does not hold of the
/// character before it.
pub proof fn lemma_trailing_run(s: Seq<char>, p: spec_fn(char) -> bool)
    ensures
        trailing(s, p) <= s.len(),
        trailing(s, p) < s.len() ==> !p(s[s.len() - trailing(s, p) - 1]),
    decreases s.len(),
{
    if s.len() > 0 && p(s.last()) {
        lemma_trailing_run(s.drop_last(), p);
    }
}

/// What `strip` leaves neither begins nor ends with a character of which `p`
/// holds, and it is a part of the text.
pub proof fn lemma_strip_leaves_no_margin(s: Seq<char>, p: spec_fn(char) -> bool)
    ensures
        strip(s, p).len() > 0 ==> !p(strip(s, p)[0]) && !p(strip(s, p).last()),
        exists|a: int, b: int| 0 <= a <= b <= s.len() && strip(s, p) == s.subrange(a, b),
{
    lemma_leading_run(s, p);
    let a = leading(s, p) as int;
    let rest = s.skip(a);
    lemma_trailing_run(rest, p);
    let b = s.len() - trailing(rest, p);
    assert(strip(s, p) == s.subrange(a, b));
    if strip(s, p).len() > 0 {
        assert(strip(s, p)[0] == s[a]);
        assert(strip(s, p).last() == rest[rest.len() - trailing(rest, p) - 1]);
    }
}

/// The key that a line sets holds no equals sign, and neither begins nor ends
/// with white space.
pub proof fn lemma_key_is_clean(line: Seq<char>)
    ensures
        match env_pair(line) {
            Some((key, _)) => {
                &&& !key.contains('=')
                &&& key.len() > 0 ==> !white_space(key[0]) && !white_space(key.last())
            },
            None => true,
        },
{
    let t = strip(line, blank());
    let k = leading(t, not_equals()) as int;
    if env_pair(line) is Some {
        lemma_leading_run(t, not_equals());
        let raw = t.take(k);
        lemma_strip_leaves_no_margin(raw, blank());
        let key = strip(raw, blank());
        let (a, b) = choose|a: int, b: int| 0 <= a <= b <= raw.len() && key == raw.subrange(a, b);
        assert forall|j: int| 0 <= j < key.len() implies key[j] != '=' by {
            assert(key[j] == t[a + j]);
            assert((not_equals())(t[a + j]));
        }
    }
}

#[derive(Clone, Copy)]
enum Class {
    Blank,
    Quote,
    NotEquals,
}

impl Class {
    spec fn pred(self) -> spec_fn(char) -> bool {
        match self {
            Class::Blank => blank(),
            Class::Quote => quote(),
            Class::NotEquals => not_equals(),
        }
    }

    fn holds(&self, c: char) -> (b: bool)
        ensures
            b == (self.pred())(c),
    {
        match self {
            Class::Blank => c.is_whitespace(),
            Class::Quote => c == '"',
            Class::NotEquals => c != '=',
        }
    }
}

fn skip_leading(v: &Vec<char>, from: usize, to: usize, class: Class) -> (i: usize)
    requires
        from <= to <= v.len(),
    ensures
        i == from + leading(v@.subrange(from as int, to as int), class.pred()),
        from <= i <= to,
{
    let mut i: usize = from;
    while i < to && class.holds(v[i])
        invariant
            from <= i <= to <= v.len(),
            i - from + leading(v@.subrange(i as int, to as int), class.pred()) == leading(
                v@.subrange(from as int, to as int),
                class.pred(),
            ),
        decreases to - i,
    {
        proof {
            assert(v@.subrange(i as int, to as int).skip(1) == v@.subrange(i + 1, to as int));
        }
        i += 1;
    }
    i
}

fn skip_trailing(v: &Vec<char>, from: usize, to: usize, class: Class) -> (i: usize)
    requires
        from <= to <= v.len(),
    ensures
        i == to - trailing(v@.subrange(from as int, to as int), class.pred()),
        from <= i <= to,
{
    let mut i: usize = to;
    while i > from && class.holds(v[i - 1])
        invariant
            from <= i <= to <= v.len(),
            to - i + trailing(v@.subrange(from as int, i as int), class.pred()) == trailing(
                v@.subrange(from as int, to as int),
                class.pred(),
            ),
        decreases i,
    {
        proof {
            assert(v@.subrange(from as int, i as int).drop_last() == v@.subrange(
                from as int,
                i - 1,
            ));
        }
        i -= 1;
    }
    i
}

fn strip_range(v: &Vec<char>, from: usize, to: usize, class: Class) -> (r: (usize, usize))
    requires
        from <= to <= v.len(),
    ensures
        from <= r.0 <= r.1 <= to,
        v@.subrange(r.0 as int, r.1 as int) == strip(
            v@.subrange(from as int, to as int),
            class.pred(),
        ),
{
    let a = skip_leading(v, from, to, class);
    let b = skip_trailing(v, a, to, class);
    proof {
        let s = v@.subrange(from as int, to as int);
        let rest = s.skip(a - from);
        assert(rest == v@.subrange(a as int, to as int));
        assert(rest.take(b - a) == v@.subrange(a as int, b as int));
    }
    (a, b)
}

/// Reads one line of the settings file: the key and the value that it sets,
/// or `None` where it sets nothing.
pub fn parse_env_line(line: &str) -> (r: Option<(String, String)>)
    ensures
        match (env_pair(line@), r) {
            (Some((key, value)), Some((k, v))) => k@ == key && v@ == value,
            (None, None) => true,
            _ => false,
        },
{
    let v = chars_of(line);
    let (a, b) = strip_range(&v, 0, v.len(), Class::Blank);
    let ghost t = v@.subrange(a as int, b as int);
    proof {
        assert(v@.subrange(0, v@.len() as int) == v@);
    }
    if a == b || v[a] == '#' {
        return None;
    }
    let eq = skip_leading(&v, a, b, Class::NotEquals);
    if eq == b {
        return None;
    }
    let (ka, kb) = strip_range(&v, a, eq, Class::Blank);
    let (va, vb) = strip_range(&v, eq + 1, b, Class::Blank);
    let (qa, qb) = strip_range(&v, va, vb, Class::Quote);
    proof {
        assert(t.take(eq - a) == v@.subrange(a as int, eq as int));
        assert(t.skip(eq - a + 1) == v@.subrange(eq + 1, b as int));
    }
    Some((text_of(&v, ka, kb), text_of(&v, qa, qb)))
}

/// The settings of the server: the port on which it listens and the
/// directory of the tracks.
#[derive(Clone, Debug, PartialEq, Eq)]
pub struct Settings {
    pub port: String,
    pub track_dir: String,
}

/// The settings as texts.
pub struct SettingsView {
    pub port: Seq<char>,
    pub track_dir: Seq<char>,
}

impl View for Settings {
    type V = SettingsView;

    open spec fn view(&self) -> SettingsView {
        SettingsView { port: self.port@, track_dir: self.track_dir@ }
    }
}

/// The settings after `key` was set to `value`: `PORT` sets the port,
/// `MP3_DIR` the track directory, and any other key sets nothing.
pub open spec fn assigned(s: SettingsView, key: Seq<char>, value: Seq<char>) -> SettingsView {
    if key == "PORT"@ {
        SettingsView { port: value, track_dir: s.track_dir }
    } else if key == "MP3_DIR"@ {
        SettingsView { port: s.port, track_dir: value }
    } else {
        s
    }
}

/// The settings after a line of the settings file was read.
pub open spec fn after_line(s: SettingsView, line: Seq<char>) -> SettingsView {
    match env_pair(line) {
        Some((key, value)) => assigned(s, key, value),
        None => s,
    }
}

impl Settings {
    /// The settings of a server for which nothing was set: port `12345`, and
    /// the working directory for the tracks.
    pub fn new() -> (s: Settings)
        ensures
            s@.port == "12345"@,
            s@.track_dir == "."@,
    {
        Settings { port: "12345".to_owned(), track_dir: ".".to_owned() }
    }

    /// Sets `key` to `value`.
    pub fn assign(&mut self, key: &str, value: String)
        ensures
            final(self)@ == assigned(old(self)@, key@, value@),
    {
        let k = chars_of(key);
        if same_text(&k, "PORT") {
            self.port = value;
        } else if same_text(&k, "MP3_DIR") {
            self.track_dir = value;
        }
    }

    /// Reads one line of the settings file, and sets what it sets.
    pub fn read_line(&mut self, line: &str)
        ensures
            final(self)@ == after_line(old(self)@, line@),
    {
        match parse_env_line(line) {
            Some((key, value)) => {
                self.assign(key.as_str(), value);
            },
            None => {},
        }
    }

    /// The address on which the server listens: every interface, at the port.
    pub fn address(&self) -> (a: String)
        ensures
            a@ == "0.0.0.0:"@ + self@.port,
    {
        let mut a = "0.0.0.0:".to_owned();
        a.append(self.port.as_str());
        a
    }
}

} // verus!
