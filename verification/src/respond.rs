//! The responder: the response to a routed request, once the caller has
//! looked the resource up.

use vstd::prelude::*;
use vstd::utf8::encode_utf8;
use crate::codec::{encoded, url_encode};
use crate::media::{asset_type, content_type_of, ContentType};
use crate::route::{Layout, ResourceClass, Route};
use crate::text::{chars_of, ends_with};

verus! {

/// The status of a response.
#[derive(Clone, Copy, Debug, PartialEq, Eq, Structural)]
pub enum Status {
    Success,
    NotFound,
    ServerError,
}

impl Status {
    /// The status line of a response with this status.
    pub open spec fn line(self) -> Seq<char> {
        match self {
            Status::Success => "HTTP/1.1 200 OK"@,
            Status::NotFound => "HTTP/1.1 404 NOT FOUND"@,
            Status::ServerError => "HTTP/1.1 500 INTERNAL SERVER ERROR"@,
        }
    }

    /// The status line of a response with this status.
    pub fn as_str(&self) -> (s: &'static str)
        ensures
            s@ == self.line(),
    {
        match self {
            Status::Success => "HTTP/1.1 200 OK",
            Status::NotFound => "HTTP/1.1 404 NOT FOUND",
            Status::ServerError => "HTTP/1.1 500 INTERNAL SERVER ERROR",
        }
    }

    /// The status code.
    pub open spec fn code_of(self) -> u16 {
        match self {
            Status::Success => 200,
            Status::NotFound => 404,
            Status::ServerError => 500,
        }
    }

    /// The status code.
    pub fn code(&self) -> (c: u16)
        ensures
            c == self.code_of(),
    {
        match self {
            Status::Success => 200,
            Status::NotFound => 404,
            Status::ServerError => 500,
        }
    }
}

/// What the caller found when it looked a resource up.
#[derive(Clone, Debug, PartialEq, Eq)]
pub enum Found {
    /// No file stands under the key.
    Missing,
    /// The file could not be read, or the directory could not be walked.
    Failed,
    /// The bytes of the file.
    Content(Vec<u8>),
    /// The names of the entries of the directory, in the order in which the
    /// directory gave them.
    Names(Vec<String>),
}

/// A response: status, content type and body.
#[derive(Clone, Debug, PartialEq, Eq)]
pub struct Response {
    pub status: Status,
    pub content_type: ContentType,
    pub body: Vec<u8>,
}

/// The texts of a vector of names.
pub open spec fn texts_of(names: Seq<String>) -> Seq<Seq<char>> {
    names.map_values(|s: String| s@)
}

/// Whether a name is listed as a track: whether it ends in `.mp3`, in lower
/// case.
pub open spec fn is_track_name(name: Seq<char>) -> bool {
    ".mp3"@.is_suffix_of(name)
}

/// The names that are listed, in the order in which they were given.
pub open spec fn track_names(names: Seq<Seq<char>>) -> Seq<Seq<char>> {
    names.filter(|n: Seq<char>| is_track_name(n))
}

/// One name as it stands in the listing: between double quotes, encoded in
/// the bundle layout and as it is in the flat one.
pub open spec fn listed(layout: Layout, name: Seq<char>) -> Seq<char> {
    match layout {
        Layout::Bundle => seq!['"'] + encoded(name) + seq!['"'],
        Layout::Flat => seq!['"'] + name + seq!['"'],
    }
}

/// Each name as it stands in the listing.
pub open spec fn listed_all(layout: Layout, names: Seq<Seq<char>>) -> Seq<Seq<char>> {
    names.map_values(|n: Seq<char>| listed(layout, n))
}

/// The items with a comma between each two.
pub open spec fn joined(items: Seq<Seq<char>>) -> Seq<char>
    decreases items.len(),
{
    if items.len() == 0 {
        Seq::empty()
    } else if items.len() == 1 {
        items[0]
    } else {
        joined(items.drop_last()) + seq![','] + items.last()
    }
}

/// The listing of a directory with the given names: a JSON array of the
/// track names among them.
pub open spec fn listing_text(layout: Layout, names: Seq<Seq<char>>) -> Seq<char> {
    seq!['['] + joined(listed_all(layout, track_names(names))) + seq![']']
}

/// The status of the response to a request for a resource of the given class,
/// after the given outcome of looking it up. A path that names nothing is not
/// found, whatever the outcome. A file is served where its bytes were read, and
/// a listing where the names were; a missing asset or track is not found; a
/// missing index page, a failure, and an outcome of the wrong kind are server
/// errors.
pub open spec fn status_for(class: ResourceClass, found: Found) -> Status {
    match class {
        ResourceClass::Unmatched => Status::NotFound,
        ResourceClass::Index => match found {
            Found::Content(_) => Status::Success,
            _ => Status::ServerError,
        },
        ResourceClass::Asset | ResourceClass::Track => match found {
            Found::Content(_) => Status::Success,
            Found::Missing => Status::NotFound,
            _ => Status::ServerError,
        },
        ResourceClass::Listing => match found {
            Found::Names(_) => Status::Success,
            _ => Status::ServerError,
        },
    }
}

/// The content type of that response.
pub open spec fn content_type_for(class: ResourceClass, key: Seq<char>, found: Found)
    -> ContentType {
    match status_for(class, found) {
        Status::Success => match class {
            ResourceClass::Index => ContentType::Html,
            ResourceClass::Asset => asset_type(key),
            ResourceClass::Listing => ContentType::Json,
            ResourceClass::Track => ContentType::Mpeg,
            ResourceClass::Unmatched => ContentType::Plain,
        },
        _ => ContentType::Plain,
    }
}

/// The body of a response that reports an error.
pub open spec fn error_text(status: Status) -> Seq<char> {
    match status {
        Status::NotFound => "404 Not Found"@,
        _ => "500 Internal Server Error"@,
    }
}

/// The body of that response: the bytes of the file, the listing, or the text
/// of the error.
pub open spec fn body_for(layout: Layout, class: ResourceClass, found: Found) -> Seq<u8> {
    match status_for(class, found) {
        Status::Success => match found {
            Found::Content(bytes) => bytes@,
            Found::Names(names) => encode_utf8(listing_text(layout, texts_of(names@))),
            _ => Seq::empty(),
        },
        status => encode_utf8(error_text(status)),
    }
}

/// Lists the tracks among the names of a directory as a JSON array of
/// strings, in the order of the names.
pub fn listing(layout: Layout, names: &Vec<String>) -> (out: String)
    ensures
        out@ == listing_text(layout, texts_of(names@)),
{
    let ghost all = texts_of(names@);
    let mut out = String::new();
    out.push('[');
    let mut any = false;
    let mut i: usize = 0;
    proof {
        reveal(Seq::filter);
        assert(all.take(0) == Seq::<Seq<char>>::empty());
        assert(listed_all(layout, track_names(all.take(0))) == Seq::<Seq<char>>::empty());
    }
    while i < names.len()
        invariant
            i <= names.len(),
            all == texts_of(names@),
            out@ == seq!['['] + joined(listed_all(layout, track_names(all.take(i as int)))),
            any == (track_names(all.take(i as int)).len() > 0),
        decreases names.len() - i,
    {
        let name = &names[i];
        let v = chars_of(name.as_str());
        let ghost before = track_names(all.take(i as int));
        proof {
            reveal(Seq::filter);
            let upto = all.take(i + 1);
            assert(upto.drop_last() == all.take(i as int));
            assert(upto.last() == name@);
            assert(track_names(upto) == if is_track_name(name@) {
                before.push(name@)
            } else {
                before
            });
        }
        if ends_with(&v, ".mp3") {
            if any {
                out.push(',');
            }
            out.push('"');
            match layout {
                Layout::Bundle => {
                    let escaped = url_encode(name.as_str());
                    out.append(escaped.as_str());
                },
                Layout::Flat => {
                    out.append(name.as_str());
                },
            }
            out.push('"');
            any = true;
            proof {
                let now = track_names(all.take(i + 1));
                assert(now == before.push(name@));
                let items = listed_all(layout, now);
                assert(items.drop_last() == listed_all(layout, before));
                assert(items.last() == listed(layout, name@));
                assert(out@ == seq!['['] + joined(items));
            }
        } else {
            assert(track_names(all.take(i + 1)) == before);
        }
        i += 1;
    }
    proof {
        assert(all.take(names@.len() as int) == all);
    }
    out.push(']');
    out
}

fn error_response(status: Status) -> (r: Response)
    requires
        status != Status::Success,
    ensures
        r.status == status,
        r.content_type == ContentType::Plain,
        r.body@ == encode_utf8(error_text(status)),
{
    let body = match status {
        Status::NotFound => "404 Not Found".as_bytes_vec(),
        _ => "500 Internal Server Error".as_bytes_vec(),
    };
    Response { status, content_type: ContentType::Plain, body }
}

/// The response to a routed request, given what the caller found under the
/// route's key: the file or the listing where it was found, `404 Not Found`
/// where nothing is there or the route names nothing, and `500 Internal Server
/// Error` where reading failed.
pub fn respond(layout: Layout, route: &Route, found: Found) -> (r: Response)
    ensures
        r.status == status_for(route.class, found),
        r.content_type == content_type_for(route.class, route.key@, found),
        r.body@ == body_for(layout, route.class, found),
{
    match route.class {
        ResourceClass::Unmatched => error_response(Status::NotFound),
        ResourceClass::Index => match found {
            Found::Content(body) => Response {
                status: Status::Success,
                content_type: ContentType::Html,
                body,
            },
            _ => error_response(Status::ServerError),
        },
        ResourceClass::Asset => match found {
            Found::Content(body) => Response {
                status: Status::Success,
                content_type: content_type_of(route.key.as_str()),
                body,
            },
            Found::Missing => error_response(Status::NotFound),
            _ => error_response(Status::ServerError),
        },
        ResourceClass::Track => match found {
            Found::Content(body) => Response {
                status: Status::Success,
                content_type: ContentType::Mpeg,
                body,
            },
            Found::Missing => error_response(Status::NotFound),
            _ => error_response(Status::ServerError),
        },
        ResourceClass::Listing => match found {
            Found::Names(names) => {
                let text = listing(layout, &names);
                Response {
                    status: Status::Success,
                    content_type: ContentType::Json,
                    body: text.as_str().as_bytes_vec(),
                }
            },
            _ => error_response(Status::ServerError),
        },
    }
}

} // verus!
