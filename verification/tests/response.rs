use simpleserve::errors::{ConnectionError, FileRouteError, OptionUnwrapError};
use simpleserve::server::{Bytes, Page, Response, Sendable};

#[test]
fn page_renders_status_length_and_body() {
    let page = Page::new(200, String::from("Hello World!"));
    assert_eq!(page.render(), "HTTP/1.1 200 OK\r\nContent-Length: 12\r\n\r\nHello World!");
}

#[test]
fn reason_phrase_is_the_same_for_every_status() {
    assert_eq!(Page::new(404, String::new()).render(), "HTTP/1.1 404 OK\r\nContent-Length: 0\r\n\r\n");
    assert_eq!(Page::new(0, String::from("x")).render(), "HTTP/1.1 0 OK\r\nContent-Length: 1\r\n\r\nx");
    assert_eq!(
        Page::new(65535, String::from("x")).render(),
        "HTTP/1.1 65535 OK\r\nContent-Length: 1\r\n\r\nx"
    );
}

#[test]
fn page_length_counts_bytes() {
    let page = Page::new(200, String::from("\u{4f60}\u{597d}"));
    assert_eq!(page.render(), "HTTP/1.1 200 OK\r\nContent-Length: 6\r\n\r\n\u{4f60}\u{597d}");
    let mut out = vec![1u8, 2, 3];
    page.send(&mut out);
    let mut expected = vec![1u8, 2, 3];
    expected.extend_from_slice(page.render().as_bytes());
    assert_eq!(out, expected);
}

#[test]
fn file_renders_type_and_length_and_sends_its_bytes() {
    let content = vec![0u8, 159, 146, 150, 255];
    let file = Bytes::new(200, content.clone(), String::from("/srv/www/image.jpg"));
    assert_eq!(file.file_location(), "/srv/www/image.jpg");
    assert_eq!(
        file.render(),
        "HTTP/1.1 200 OK\r\nContent-Type: image/jpeg\r\nContent-Length: 5\r\n\r\n"
    );
    let mut out = Vec::new();
    file.send(&mut out);
    let mut expected = file.render().into_bytes();
    expected.extend_from_slice(&content);
    assert_eq!(out, expected);
}

#[test]
fn file_without_a_known_extension_is_a_stream_of_bytes() {
    let file = Bytes::new(206, Vec::new(), String::from("/srv/www/Makefile"));
    assert_eq!(
        file.render(),
        "HTTP/1.1 206 OK\r\nContent-Type: application/octet-stream\r\nContent-Length: 0\r\n\r\n"
    );
}

#[test]
fn response_renders_as_what_it_holds() {
    let page = Response::Page(Page::new(403, String::from("Forbidden")));
    assert_eq!(page.status(), 403);
    assert_eq!(page.render(), "HTTP/1.1 403 OK\r\nContent-Length: 9\r\n\r\nForbidden");
    let file = Response::Bytes(Bytes::new(200, vec![b'{', b'}'], String::from("/srv/a.json")));
    assert_eq!(file.status(), 200);
    let mut out = Vec::new();
    file.send(&mut out);
    assert_eq!(
        out,
        b"HTTP/1.1 200 OK\r\nContent-Type: application/json\r\nContent-Length: 2\r\n\r\n{}".to_vec()
    );
}

#[test]
fn errors_have_their_texts() {
    assert_eq!(OptionUnwrapError.message(), "`Option::unwrap()` failed");
    assert_eq!(ConnectionError::MissingRequestLine.message(), "No request line found");
    assert_eq!(ConnectionError::MissingPath.message(), "No route found");
    assert_eq!(ConnectionError::InvalidEncoding.message(), "The route is not valid UTF-8");
    assert!(ConnectionError::MissingRequestLine.unwrap_error().is_some());
    assert!(ConnectionError::MissingPath.unwrap_error().is_some());
    assert!(ConnectionError::InvalidEncoding.unwrap_error().is_none());
    assert_eq!(FileRouteError::Unresolved(3).message(), "File not found");
    assert_eq!(FileRouteError::Duplicate(0).message(), "Route already exists");
}
