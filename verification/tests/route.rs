use track_server::route::{route, route_request, Layout, ResourceClass, Route, Store};

fn routed(class: ResourceClass, key: &str) -> Route {
    Route { class, key: key.to_string() }
}

#[test]
fn root_and_index_file_are_the_index_page() {
    assert_eq!(route(Layout::Bundle, "/"), routed(ResourceClass::Index, "index.html"));
    assert_eq!(route(Layout::Bundle, ""), routed(ResourceClass::Index, "index.html"));
    assert_eq!(route(Layout::Bundle, "/index.html"), routed(ResourceClass::Index, "index.html"));
    assert_eq!(route(Layout::Bundle, "index.html"), routed(ResourceClass::Index, "index.html"));
}

#[test]
fn assets_keep_their_whole_path_as_key() {
    assert_eq!(
        route(Layout::Bundle, "/assets/style.css"),
        routed(ResourceClass::Asset, "assets/style.css")
    );
    assert_eq!(route(Layout::Bundle, "/assets/"), routed(ResourceClass::Asset, "assets/"));
    assert_eq!(route(Layout::Bundle, "/assets"), routed(ResourceClass::Unmatched, ""));
}

#[test]
fn tracks_alone_is_the_listing() {
    assert_eq!(route(Layout::Bundle, "/tracks"), routed(ResourceClass::Listing, ""));
    assert_eq!(route(Layout::Bundle, "tracks"), routed(ResourceClass::Listing, ""));
}

#[test]
fn tracks_prefix_is_dropped_once_from_the_key() {
    assert_eq!(route(Layout::Bundle, "/tracks/a b.mp3"), routed(ResourceClass::Track, "a b.mp3"));
    assert_eq!(route(Layout::Bundle, "/tracks/"), routed(ResourceClass::Track, ""));
    assert_eq!(
        route(Layout::Bundle, "/tracks/tracks/a.mp3"),
        routed(ResourceClass::Track, "tracks/a.mp3")
    );
    assert_eq!(route(Layout::Bundle, "/tracks/../x"), routed(ResourceClass::Track, "../x"));
}

#[test]
fn anything_else_is_unmatched() {
    assert_eq!(route(Layout::Bundle, "/favicon.ico"), routed(ResourceClass::Unmatched, ""));
    assert_eq!(route(Layout::Bundle, "/tracksx"), routed(ResourceClass::Unmatched, ""));
    assert_eq!(route(Layout::Bundle, "/Tracks"), routed(ResourceClass::Unmatched, ""));
    assert_eq!(route(Layout::Bundle, "/index.htm"), routed(ResourceClass::Unmatched, ""));
}

#[test]
fn only_one_leading_slash_is_dropped() {
    assert_eq!(route(Layout::Bundle, "//tracks"), routed(ResourceClass::Unmatched, ""));
    assert_eq!(route(Layout::Bundle, "//"), routed(ResourceClass::Unmatched, ""));
    assert_eq!(route(Layout::Flat, "//a.mp3"), routed(ResourceClass::Track, "/a.mp3"));
}

#[test]
fn flat_layout_lists_at_the_root_and_serves_the_rest() {
    assert_eq!(route(Layout::Flat, "/"), routed(ResourceClass::Listing, ""));
    assert_eq!(route(Layout::Flat, ""), routed(ResourceClass::Listing, ""));
    assert_eq!(route(Layout::Flat, "/a.mp3"), routed(ResourceClass::Track, "a.mp3"));
    assert_eq!(route(Layout::Flat, "/tracks"), routed(ResourceClass::Track, "tracks"));
    assert_eq!(route(Layout::Flat, "/index.html"), routed(ResourceClass::Track, "index.html"));
}

#[test]
fn classes_name_their_store() {
    assert_eq!(ResourceClass::Index.store(), Some(Store::StaticBundle));
    assert_eq!(ResourceClass::Asset.store(), Some(Store::StaticBundle));
    assert_eq!(ResourceClass::Listing.store(), Some(Store::TrackDirectory));
    assert_eq!(ResourceClass::Track.store(), Some(Store::TrackDirectory));
    assert_eq!(ResourceClass::Unmatched.store(), None);
}

#[test]
fn requests_are_decoded_before_they_are_routed() {
    assert_eq!(
        route_request(Layout::Bundle, b"GET /tracks/my%20%22song%22.mp3 HTTP/1.1\r\n\r\n"),
        routed(ResourceClass::Track, "my \"song\".mp3")
    );
    assert_eq!(
        route_request(Layout::Bundle, b"GET /%74racks HTTP/1.1\r\n\r\n"),
        routed(ResourceClass::Listing, "")
    );
    assert_eq!(
        route_request(Layout::Bundle, b"GET /tracks%2Fa.mp3 HTTP/1.1\r\n\r\n"),
        routed(ResourceClass::Track, "a.mp3")
    );
}

#[test]
fn short_request_lines_are_routed_as_the_root() {
    for text in [&b""[..], b"GET", b"GET \r\n", b"\r\n\r\n", b"   "] {
        assert_eq!(route_request(Layout::Bundle, text), route(Layout::Bundle, "/"));
        assert_eq!(route_request(Layout::Flat, text), route(Layout::Flat, "/"));
    }
    assert_eq!(route_request(Layout::Bundle, b"GET"), routed(ResourceClass::Index, "index.html"));
    assert_eq!(route_request(Layout::Flat, b"GET"), routed(ResourceClass::Listing, ""));
}
