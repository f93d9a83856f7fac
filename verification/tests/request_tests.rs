use http_parse::{HeaderMap, HttpMethod, HttpVersion, ParseErrorKind, Request};
use http_parse::Destruct;

#[test]
fn request_parses_the_documented_example() {
    let req = Request::from_str("GET /index.html HTTP/1.1\nHost: example.com\n\nhello").unwrap();
    assert_eq!(*req.get_method(), HttpMethod::Get);
    assert_eq!(req.get_uri().as_str(), "/index.html");
    assert_eq!(*req.get_version(), HttpVersion::OnePointOne);
    assert_eq!(req.get_headers().len(), 1);
    assert_eq!(
        req.get_headers().get(&String::from("Host")).unwrap().as_str(),
        "example.com"
    );
    assert_eq!(req.get_body().as_str(), "hello");
}

#[test]
fn request_round_trips_through_render_and_parse() {
    let mut headers = HeaderMap::new();
    headers.insert(String::from("Host"), String::from("example.com"));
    headers.insert(String::from("Accept"), String::from("text/plain"));
    let req = Request {
        method: HttpMethod::Post,
        uri: String::from("/submit"),
        version: HttpVersion::Two,
        headers,
        body: String::from("first line\nsecond line"),
    };
    let text = req.render();
    let back = Request::from_str(text.as_str()).unwrap();
    assert_eq!(back, req);
}

#[test]
fn request_round_trips_with_empty_body_and_no_headers() {
    let req = Request {
        method: HttpMethod::Head,
        uri: String::from("/"),
        version: HttpVersion::One,
        headers: HeaderMap::new(),
        body: String::new(),
    };
    let back = Request::from_str(req.render().as_str()).unwrap();
    assert_eq!(back, req);
}

#[test]
fn request_renders_the_wire_form_exactly() {
    let mut headers = HeaderMap::new();
    headers.insert(String::from("Host"), String::from("a"));
    let req = Request {
        method: HttpMethod::Get,
        uri: String::from("/x"),
        version: HttpVersion::OnePointOne,
        headers,
        body: String::from("body"),
    };
    assert_eq!(req.render().as_str(), "GET /x HTTP/1.1\nHost: a\n\nbody");
}

#[test]
fn request_multi_line_body_is_rejoined() {
    let req = Request::from_str("PUT /a HTTP/1.0\n\nline one\n\nline three\n").unwrap();
    assert_eq!(req.get_body().as_str(), "line one\n\nline three\n");
}

#[test]
fn request_duplicate_header_keys_overwrite() {
    let req = Request::from_str("GET / HTTP/1.1\nK: one\nK: two\n\n").unwrap();
    assert_eq!(req.get_headers().len(), 1);
    assert_eq!(
        req.get_headers().get(&String::from("K")).unwrap().as_str(),
        "two"
    );
}

#[test]
fn request_header_value_may_contain_the_delimiter() {
    let req = Request::from_str("GET / HTTP/1.1\nK: a: b\n\n").unwrap();
    assert_eq!(
        req.get_headers().get(&String::from("K")).unwrap().as_str(),
        "a: b"
    );
}

#[test]
fn request_bad_method_fails_with_kind_request() {
    let err = Request::from_str("FETCH / HTTP/1.1\n\n").unwrap_err();
    assert_eq!(*err.get_kind(), ParseErrorKind::Request);
}

#[test]
fn request_missing_tokens_fail_with_kind_request() {
    let err = Request::from_str("GET /alone\n\n").unwrap_err();
    assert_eq!(*err.get_kind(), ParseErrorKind::Request);
    let empty = Request::from_str("").unwrap_err();
    assert_eq!(*empty.get_kind(), ParseErrorKind::Request);
}

#[test]
fn request_bad_version_fails_with_kind_request() {
    let err = Request::from_str("GET / HTTP/9\n\n").unwrap_err();
    assert_eq!(*err.get_kind(), ParseErrorKind::Request);
}

#[test]
fn request_bad_header_line_fails_with_kind_util() {
    let err = Request::from_str("GET / HTTP/1.1\nno delimiter here\n\n").unwrap_err();
    assert_eq!(*err.get_kind(), ParseErrorKind::Util);
}

#[test]
fn request_from_bytes_decodes_utf8() {
    let req = Request::from_bytes(b"GET /u HTTP/1.1\n\npay").unwrap();
    assert_eq!(req.get_uri().as_str(), "/u");
    assert_eq!(req.get_body().as_str(), "pay");
}

#[test]
fn request_from_bytes_rejects_invalid_utf8_with_kind_request() {
    let err = Request::from_bytes(&[0xff, 0xfe, 0x47]).unwrap_err();
    assert_eq!(*err.get_kind(), ParseErrorKind::Request);
}

#[test]
fn request_meta_line_parses_three_tokens() {
    let (method, uri, version) =
        Request::parse_meta_data_line(Some("DELETE /it HTTP/3")).unwrap();
    assert_eq!(method, HttpMethod::Delete);
    assert_eq!(uri.as_str(), "/it");
    assert_eq!(version, HttpVersion::Three);
}

#[test]
fn request_meta_line_absent_fails_with_kind_request() {
    let err = Request::parse_meta_data_line(None).unwrap_err();
    assert_eq!(*err.get_kind(), ParseErrorKind::Request);
}

#[test]
fn request_extra_start_line_tokens_are_ignored() {
    let req = Request::from_str("GET / HTTP/1.1 extra\n\n").unwrap();
    assert_eq!(*req.get_method(), HttpMethod::Get);
    assert_eq!(*req.get_version(), HttpVersion::OnePointOne);
}

#[test]
fn request_destruct_yields_all_fields() {
    let req = Request::from_str("GET /d HTTP/1.1\n\nbody").unwrap();
    let (method, uri, version, headers, body) = req.destruct();
    assert_eq!(method, HttpMethod::Get);
    assert_eq!(uri.as_str(), "/d");
    assert_eq!(version, HttpVersion::OnePointOne);
    assert_eq!(headers.len(), 0);
    assert_eq!(body.as_str(), "body");
}
