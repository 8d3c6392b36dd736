//! Content types, and the content type of an asset by its extension.

use vstd::prelude::*;
use crate::text::{chars_from, chars_of, same_text};

verus! {

/// The content types that responses carry.
#[derive(Clone, Copy, Debug, PartialEq, Eq, Structural)]
pub enum ContentType {
    Html,
    Css,
    JavaScript,
    OctetStream,
    Json,
    Mpeg,
    Plain,
}

impl ContentType {
    /// The content type as it stands in the header.
    pub open spec fn text(self) -> Seq<char> {
        match self {
            ContentType::Html => "text/html"@,
            ContentType::Css => "text/css"@,
            ContentType::JavaScript => "application/javascript"@,
            ContentType::OctetStream => "application/octet-stream"@,
            ContentType::Json => "application/json"@,
            ContentType::Mpeg => "audio/mpeg"@,
            ContentType::Plain => "text/plain"@,
        }
    }

    /// The content type as it stands in the header.
    pub fn as_str(&self) -> (s: &'static str)
        ensures
            s@ == self.text(),
    {
        match self {
            ContentType::Html => "text/html",
            ContentType::Css => "text/css",
            ContentType::JavaScript => "application/javascript",
            ContentType::OctetStream => "application/octet-stream",
            ContentType::Json => "application/json",
            ContentType::Mpeg => "audio/mpeg",
            ContentType::Plain => "text/plain",
        }
    }
}

/// The index of the last occurrence of `c` in `s`.
pub open spec fn last_index_of(s: Seq<char>, c: char) -> Option<int>
    decreases s.len(),
{
    if s.len() == 0 {
        None
    } else if s.last() == c {
        Some(s.len() - 1)
    } else {
        last_index_of(s.drop_last(), c)
    }
}

/// The file name of a path: what follows its last slash, and the whole path
/// where it holds none.
pub open spec fn file_name(path: Seq<char>) -> Seq<char> {
    match last_index_of(path, '/') {
        Some(i) => path.skip(i + 1),
        None => path,
    }
}

/// The extension of a path: what follows the last dot of its file name.
/// A file name without a dot has none, nor one whose only dot is its first
/// character.
pub open spec fn extension(path: Seq<char>) -> Option<Seq<char>> {
    let name = file_name(path);
    match last_index_of(name, '.') {
        Some(i) => if i > 0 {
            Some(name.skip(i + 1))
        } else {
            None
        },
        None => None,
    }
}

/// The content type of an asset: `css`, `js` and `html` have their own, every
/// other extension and none are a stream of octets.
pub open spec fn asset_type(path: Seq<char>) -> ContentType {
    match extension(path) {
        Some(e) => if e == "css"@ {
            ContentType::Css
        } else if e == "js"@ {
            ContentType::JavaScript
        } else if e == "html"@ {
            ContentType::Html
        } else {
            ContentType::OctetStream
        },
        None => ContentType::OctetStream,
    }
}

fn find_last(v: &Vec<char>, c: char) -> (r: Option<usize>)
    ensures
        match r {
            Some(i) => last_index_of(v@, c) == Some(i as int) && i < v.len(),
            None => last_index_of(v@, c) is None,
        },
{
    let mut i: usize = v.len();
    proof {
        assert(v@.take(v@.len() as int) == v@);
    }
    while i > 0
        invariant
            i <= v.len(),
            last_index_of(v@.take(i as int), c) == last_index_of(v@, c),
        decreases i,
    {
        if v[i - 1] == c {
            return Some(i - 1);
        }
        proof {
            assert(v@.take(i as int).drop_last() == v@.take(i - 1));
        }
        i -= 1;
    }
    None
}

/// The content type of the asset with the given path.
pub fn content_type_of(path: &str) -> (t: ContentType)
    ensures
        t == asset_type(path@),
{
    let v = chars_of(path);
    let name = match find_last(&v, '/') {
        Some(i) => chars_from(&v, i + 1),
        None => v,
    };
    match find_last(&name, '.') {
        Some(i) => {
            if i > 0 {
                let ext = chars_from(&name, i + 1);
                if same_text(&ext, "css") {
                    ContentType::Css
                } else if same_text(&ext, "js") {
                    ContentType::JavaScript
                } else if same_text(&ext, "html") {
                    ContentType::Html
                } else {
                    ContentType::OctetStream
                }
            } else {
                ContentType::OctetStream
            }
        },
        None => ContentType::OctetStream,
    }
}

} // verus!
