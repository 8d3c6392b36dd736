//! The router: which resource a decoded path names, and under which key the
//! caller finds it.

use vstd::prelude::*;
use vstd::utf8::{decode_utf8, valid_utf8};
use crate::codec::{decoded, url_decode};
use crate::request::{first_line, request_path, request_target, tokens, utf8_lossy};
use crate::text::{chars_from, chars_of, same_text, starts_with, text_of};

verus! {

/// How the served files are laid out.
#[derive(Clone, Copy, Debug, PartialEq, Eq, Structural)]
pub enum Layout {
    /// A static bundle with an index page and assets, beside the track
    /// directory, whose tracks stand under `tracks/`.
    Bundle,
    /// The track directory alone: the empty path lists it, every other path
    /// names a file in it.
    Flat,
}

/// The classes of resources that a path can name.
#[derive(Clone, Copy, Debug, PartialEq, Eq, Structural)]
pub enum ResourceClass {
    /// The index page of the static bundle.
    Index,
    /// A file of the static bundle, under `assets/`.
    Asset,
    /// The list of the tracks.
    Listing,
    /// One file of the track directory.
    Track,
    /// Nothing that is served.
    Unmatched,
}

/// Where the caller looks a resource up.
#[derive(Clone, Copy, Debug, PartialEq, Eq, Structural)]
pub enum Store {
    /// The directory of the static bundle.
    StaticBundle,
    /// The track directory.
    TrackDirectory,
}

/// The resource that a path names: its class, and the key of the file to read,
/// relative to the directory of its store. The key is empty where no file is
/// read.
#[derive(Clone, Debug, PartialEq, Eq)]
pub struct Route {
    pub class: ResourceClass,
    pub key: String,
}

/// The resource path of a decoded path: the path without one leading slash.
pub open spec fn resource_path(path: Seq<char>) -> Seq<char> {
    if path.len() > 0 && path[0] == '/' {
        path.skip(1)
    } else {
        path
    }
}

/// The resource path that a request text asks for: that of its decoded
/// request target.
pub open spec fn requested(text: Seq<char>) -> Seq<char> {
    resource_path(decoded(request_target(text)))
}

/// The class of the resource that a resource path names.
pub open spec fn class_of(layout: Layout, path: Seq<char>) -> ResourceClass {
    match layout {
        Layout::Bundle => {
            if path.len() == 0 || path == "index.html"@ {
                ResourceClass::Index
            } else if "assets/"@.is_prefix_of(path) {
                ResourceClass::Asset
            } else if path == "tracks"@ {
                ResourceClass::Listing
            } else if "tracks/"@.is_prefix_of(path) {
                ResourceClass::Track
            } else {
                ResourceClass::Unmatched
            }
        },
        Layout::Flat => {
            if path.len() == 0 {
                ResourceClass::Listing
            } else {
                ResourceClass::Track
            }
        },
    }
}

/// The key of the file that a resource path names: the index file for the
/// index page, the whole path for an asset, what follows `tracks/` for a track
/// of the bundle layout, the whole path for one of the flat layout.
pub open spec fn key_of(layout: Layout, path: Seq<char>) -> Seq<char> {
    match class_of(layout, path) {
        ResourceClass::Index => "index.html"@,
        ResourceClass::Asset => path,
        ResourceClass::Track => match layout {
            Layout::Bundle => path.skip("tracks/"@.len() as int),
            Layout::Flat => path,
        },
        ResourceClass::Listing | ResourceClass::Unmatched => Seq::empty(),
    }
}

impl ResourceClass {
    /// The store that holds the resources of this class; `None` for the class
    /// that names nothing.
    pub open spec fn store_of(self) -> Option<Store> {
        match self {
            ResourceClass::Index | ResourceClass::Asset => Some(Store::StaticBundle),
            ResourceClass::Listing | ResourceClass::Track => Some(Store::TrackDirectory),
            ResourceClass::Unmatched => None,
        }
    }

    /// The store in which the caller looks a resource of this class up.
    pub fn store(&self) -> (s: Option<Store>)
        ensures
            s == self.store_of(),
    {
        match self {
            ResourceClass::Index | ResourceClass::Asset => Some(Store::StaticBundle),
            ResourceClass::Listing | ResourceClass::Track => Some(Store::TrackDirectory),
            ResourceClass::Unmatched => None,
        }
    }
}

/// Routes a decoded path: one leading slash is dropped, and what is left is
/// classed as the layout says.
pub fn route(layout: Layout, path: &str) -> (r: Route)
    ensures
        r.class == class_of(layout, resource_path(path@)),
        r.key@ == key_of(layout, resource_path(path@)),
{
    let v = chars_of(path);
    let start: usize = if v.len() > 0 && v[0] == '/' {
        1
    } else {
        0
    };
    let rest = chars_from(&v, start);
    assert(rest@ == resource_path(path@));
    match layout {
        Layout::Bundle => {
            if rest.len() == 0 || same_text(&rest, "index.html") {
                Route { class: ResourceClass::Index, key: "index.html".to_owned() }
            } else if starts_with(&rest, "assets/") {
                Route { class: ResourceClass::Asset, key: text_of(&rest, 0, rest.len()) }
            } else if same_text(&rest, "tracks") {
                Route { class: ResourceClass::Listing, key: String::new() }
            } else if starts_with(&rest, "tracks/") {
                let n: usize = "tracks/".unicode_len();
                Route { class: ResourceClass::Track, key: text_of(&rest, n, rest.len()) }
            } else {
                Route { class: ResourceClass::Unmatched, key: String::new() }
            }
        },
        Layout::Flat => {
            if rest.len() == 0 {
                Route { class: ResourceClass::Listing, key: String::new() }
            } else {
                Route { class: ResourceClass::Track, key: text_of(&rest, 0, rest.len()) }
            }
        },
    }
}

/// Routes the request whose bytes were read from a connection: the request
/// target is read from them, decoded, and routed.
pub fn route_request(layout: Layout, buf: &[u8]) -> (r: Route)
    ensures
        r.class == class_of(layout, requested(utf8_lossy(buf@))),
        r.key@ == key_of(layout, requested(utf8_lossy(buf@))),
        valid_utf8(buf@) ==> r.class == class_of(layout, requested(decode_utf8(buf@))),
        valid_utf8(buf@) ==> r.key@ == key_of(layout, requested(decode_utf8(buf@))),
{
    let target = request_path(buf);
    let path = url_decode(target.as_str());
    route(layout, path.as_str())
}

/// A request whose first line has fewer than two tokens is routed as the path
/// `/` is: to the index page in the bundle layout, to the listing in the flat
/// one.
pub proof fn lemma_short_request_line_asks_for_root(layout: Layout, text: Seq<char>)
    requires
        tokens(first_line(text)).len() < 2,
    ensures
        request_target(text) == seq!['/'],
        requested(text) == resource_path(seq!['/']),
        class_of(layout, requested(text)) == match layout {
            Layout::Bundle => ResourceClass::Index,
            Layout::Flat => ResourceClass::Listing,
        },
{
    let root = seq!['/'];
    assert(root.skip(1) == Seq::<char>::empty());
    assert(decoded(root.skip(1)) == Seq::<char>::empty());
    assert(decoded(root) == root);
    assert(resource_path(root) == Seq::<char>::empty());
}

} // verus!
