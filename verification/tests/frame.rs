use track_server::media::ContentType;
use track_server::respond::{respond, Found, Response, Status};
use track_server::route::{route, Layout};

fn find(hay: &[u8], needle: &[u8]) -> Option<usize> {
    hay.windows(needle.len()).position(|w| w == needle)
}

#[test]
fn framed_response_is_head_then_body() {
    let response = Response {
        status: Status::Success,
        content_type: ContentType::Json,
        body: b"[\"a.mp3\"]".to_vec(),
    };
    let expected = "HTTP/1.1 200 OK\r\nContent-Type: application/json\r\nContent-Length: 9\r\n\
                    Access-Control-Allow-Origin: *\r\n\r\n[\"a.mp3\"]";
    assert_eq!(response.to_bytes(), expected.as_bytes().to_vec());
}

#[test]
fn framed_not_found() {
    let route = route(Layout::Bundle, "/nothing");
    let response = respond(Layout::Bundle, &route, Found::Missing);
    let expected = "HTTP/1.1 404 NOT FOUND\r\nContent-Type: text/plain\r\nContent-Length: 13\r\n\
                    Access-Control-Allow-Origin: *\r\n\r\n404 Not Found";
    assert_eq!(response.to_bytes(), expected.as_bytes().to_vec());
}

#[test]
fn framed_server_error() {
    let route = route(Layout::Bundle, "/tracks/a.mp3");
    let response = respond(Layout::Bundle, &route, Found::Failed);
    let expected = "HTTP/1.1 500 INTERNAL SERVER ERROR\r\nContent-Type: text/plain\r\n\
                    Content-Length: 25\r\nAccess-Control-Allow-Origin: *\r\n\r\n\
                    500 Internal Server Error";
    assert_eq!(response.to_bytes(), expected.as_bytes().to_vec());
}

#[test]
fn empty_body_has_length_zero() {
    let response =
        Response { status: Status::Success, content_type: ContentType::Html, body: Vec::new() };
    let expected = "HTTP/1.1 200 OK\r\nContent-Type: text/html\r\nContent-Length: 0\r\n\
                    Access-Control-Allow-Origin: *\r\n\r\n";
    assert_eq!(response.to_bytes(), expected.as_bytes().to_vec());
}

#[test]
fn content_length_is_written_in_decimal() {
    for len in [1usize, 9, 10, 11, 99, 100, 101, 1000, 1024, 70000, 1234567] {
        let response = Response {
            status: Status::Success,
            content_type: ContentType::Mpeg,
            body: vec![0x55; len],
        };
        let bytes = response.to_bytes();
        let head = format!(
            "HTTP/1.1 200 OK\r\nContent-Type: audio/mpeg\r\nContent-Length: {}\r\n\
             Access-Control-Allow-Origin: *\r\n\r\n",
            len
        );
        assert_eq!(bytes.len(), head.len() + len);
        assert_eq!(&bytes[..head.len()], head.as_bytes());
        assert!(bytes[head.len()..].iter().all(|b| *b == 0x55));
    }
}

#[test]
fn body_bytes_are_not_changed() {
    let body: Vec<u8> = (0..=255u8).collect();
    let response =
        Response { status: Status::Success, content_type: ContentType::OctetStream, body };
    let bytes = response.to_bytes();
    assert_eq!(&bytes[bytes.len() - 256..], &response.body[..]);
}

#[test]
fn every_response_allows_any_origin() {
    let header = b"\r\nAccess-Control-Allow-Origin: *\r\n";
    for status in [Status::Success, Status::NotFound, Status::ServerError] {
        for content_type in [ContentType::Html, ContentType::Plain, ContentType::Json] {
            let response = Response { status, content_type, body: b"\r\n\r\nbody".to_vec() };
            let bytes = response.to_bytes();
            let at = find(&bytes, header).expect("header");
            let end_of_head = find(&bytes, b"\r\n\r\n").expect("end of head");
            assert!(at < end_of_head);
        }
    }
}
