use http_parse::{
    presets, HeaderMap, HttpStatus, HttpVersion, ParseErrorKind, Response, ResponseBuilder,
};
use http_parse::{resp_presets, Destruct};

#[test]
fn response_parses_the_documented_example() {
    let resp = Response::from_str("HTTP/1.1 404 Not Found\n\n").unwrap();
    assert_eq!(*resp.get_version(), HttpVersion::OnePointOne);
    assert_eq!(*resp.get_status().get_code(), 404);
    assert_eq!(resp.get_status().get_message().as_str(), "Not Found");
    assert_eq!(resp.get_headers().len(), 0);
    assert_eq!(resp.get_body().as_str(), "");
}

#[test]
fn response_reason_phrase_keeps_embedded_spaces() {
    let resp = Response::from_str("HTTP/1.1 500 Internal Server Error\n\n").unwrap();
    assert_eq!(
        resp.get_status().get_message().as_str(),
        "Internal Server Error"
    );
}

#[test]
fn response_parses_headers_and_body() {
    let resp =
        Response::from_str("HTTP/2 200 OK\nContent-Type: text/plain\n\npayload").unwrap();
    assert_eq!(*resp.get_version(), HttpVersion::Two);
    assert_eq!(
        resp.get_headers()
            .get(&String::from("Content-Type"))
            .unwrap()
            .as_str(),
        "text/plain"
    );
    assert_eq!(resp.get_body().as_str(), "payload");
}

#[test]
fn response_round_trips_through_render_and_parse() {
    let mut resp = http_parse::resp_presets::ok(String::from("hello\nthere"));
    resp.add_header((String::from("Server"), String::from("demo")));
    let text = resp.render();
    let back = Response::from_str(text.as_str()).unwrap();
    assert_eq!(back, resp);
}

#[test]
fn response_renders_the_wire_form_exactly() {
    let resp = http_parse::resp_presets::not_found(String::from("gone"));
    assert_eq!(resp.render().as_str(), "HTTP/1.1 404 Not Found\n\ngone");
}

#[test]
fn response_bad_version_fails_with_kind_response() {
    let err = Response::from_str("HTTPX 200 OK\n\n").unwrap_err();
    assert_eq!(*err.get_kind(), ParseErrorKind::Response);
}

#[test]
fn response_bad_code_fails_with_kind_response() {
    let err = Response::from_str("HTTP/1.1 abc OK\n\n").unwrap_err();
    assert_eq!(*err.get_kind(), ParseErrorKind::Response);
}

#[test]
fn response_missing_reason_fails_with_kind_response() {
    let err = Response::from_str("HTTP/1.1 404\n\n").unwrap_err();
    assert_eq!(*err.get_kind(), ParseErrorKind::Response);
}

#[test]
fn response_bad_header_line_fails_with_kind_util() {
    let err = Response::from_str("HTTP/1.1 200 OK\nbroken\n\n").unwrap_err();
    assert_eq!(*err.get_kind(), ParseErrorKind::Util);
}

#[test]
fn response_from_bytes_rejects_invalid_utf8_with_kind_response() {
    let err = Response::from_bytes(&[0xc0, 0x20]).unwrap_err();
    assert_eq!(*err.get_kind(), ParseErrorKind::Response);
    let ok = Response::from_bytes(b"HTTP/1.1 200 OK\n\n").unwrap();
    assert_eq!(*ok.get_status().get_code(), 200);
}

#[test]
fn response_setters_replace_fields() {
    let mut resp = Response::default();
    resp.set_version(HttpVersion::Three);
    resp.set_status(presets::created());
    resp.set_body(String::from("new body"));
    assert_eq!(*resp.get_version(), HttpVersion::Three);
    assert_eq!(*resp.get_status().get_code(), 201);
    assert_eq!(resp.get_body().as_str(), "new body");
}

#[test]
fn response_append_body_concatenates() {
    let mut resp = http_parse::resp_presets::ok(String::from("one"));
    resp.append_body_str(" two");
    resp.append_body(String::from(" three"));
    assert_eq!(resp.get_body().as_str(), "one two three");
}

#[test]
fn response_add_and_get_header() {
    let mut resp = Response::default();
    resp.add_header((String::from("A"), String::from("1")));
    resp.add_header((String::from("A"), String::from("2")));
    assert_eq!(resp.get_headers().len(), 1);
    assert_eq!(resp.get_header(&String::from("A")).unwrap().as_str(), "2");
    assert!(resp.get_header(&String::from("B")).is_none());
}

#[test]
fn remove_header_on_absent_key_leaves_empty_map_empty() {
    let mut resp = http_parse::resp_presets::ok(String::new());
    assert_eq!(resp.get_headers().len(), 0);
    resp.remove_header(&String::from("Host"));
    assert_eq!(resp.get_headers().len(), 0);
}

#[test]
fn remove_header_drops_a_present_key() {
    let mut resp = Response::default();
    resp.add_header((String::from("A"), String::from("1")));
    resp.add_header((String::from("B"), String::from("2")));
    resp.remove_header(&String::from("A"));
    assert_eq!(resp.get_headers().len(), 1);
    assert!(resp.get_header(&String::from("A")).is_none());
    assert_eq!(resp.get_header(&String::from("B")).unwrap().as_str(), "2");
}

#[test]
fn get_headers_mut_allows_direct_manipulation() {
    let mut resp = Response::default();
    resp.get_headers_mut()
        .insert(String::from("X"), String::from("y"));
    assert_eq!(resp.get_header(&String::from("X")).unwrap().as_str(), "y");
}

#[test]
fn builder_with_all_four_fields_builds() {
    let resp = Response::builder()
        .with_version(HttpVersion::OnePointOne)
        .with_status(presets::ok())
        .with_empty_headers()
        .with_body(String::from("b"))
        .build()
        .unwrap();
    assert_eq!(*resp.get_version(), HttpVersion::OnePointOne);
    assert_eq!(*resp.get_status().get_code(), 200);
    assert_eq!(resp.get_headers().len(), 0);
    assert_eq!(resp.get_body().as_str(), "b");
}

#[test]
fn builder_fails_with_kind_request_iff_a_field_is_missing() {
    let full = ResponseBuilder::new()
        .with_version(HttpVersion::One)
        .with_status(presets::ok())
        .with_empty_headers()
        .with_empty_body();
    assert!(full.validate());
    assert!(full.clone().build().is_ok());

    let missing: [ResponseBuilder; 4] = [
        ResponseBuilder::new()
            .with_status(presets::ok())
            .with_empty_headers()
            .with_empty_body(),
        ResponseBuilder::new()
            .with_version(HttpVersion::One)
            .with_empty_headers()
            .with_empty_body(),
        ResponseBuilder::new()
            .with_version(HttpVersion::One)
            .with_status(presets::ok())
            .with_empty_body(),
        ResponseBuilder::new()
            .with_version(HttpVersion::One)
            .with_status(presets::ok())
            .with_empty_headers(),
    ];
    for b in missing {
        assert!(!b.validate());
        let err = b.build().unwrap_err();
        assert_eq!(*err.get_kind(), ParseErrorKind::Request);
    }
}

#[test]
fn builder_last_write_wins() {
    let resp = ResponseBuilder::new()
        .with_version(HttpVersion::One)
        .with_version(HttpVersion::Three)
        .with_status(presets::ok())
        .with_status(presets::not_found())
        .with_empty_headers()
        .with_body(String::from("first"))
        .with_body(String::from("second"))
        .build()
        .unwrap();
    assert_eq!(*resp.get_version(), HttpVersion::Three);
    assert_eq!(*resp.get_status().get_code(), 404);
    assert_eq!(resp.get_body().as_str(), "second");
}

#[test]
fn builder_with_headers_takes_a_map() {
    let mut headers = HeaderMap::new();
    headers.insert(String::from("K"), String::from("v"));
    let resp = ResponseBuilder::new()
        .with_version(HttpVersion::Two)
        .with_status(HttpStatus::from_code_msg(200, "OK"))
        .with_headers(headers)
        .with_empty_body()
        .build()
        .unwrap();
    assert_eq!(resp.get_headers().len(), 1);
}

#[test]
fn response_default_is_ok_hello_world() {
    let resp = Response::default();
    assert_eq!(*resp.get_version(), HttpVersion::OnePointOne);
    assert_eq!(*resp.get_status().get_code(), 200);
    assert_eq!(resp.get_headers().len(), 0);
    assert_eq!(resp.get_body().as_str(), "Hello, World");
}

#[test]
fn response_presets_set_status_and_body() {
    let cases: [(Response, u16); 9] = [
        (resp_presets::continue_(String::from("b")), 100),
        (resp_presets::ok(String::from("b")), 200),
        (resp_presets::created(String::from("b")), 201),
        (resp_presets::no_content(String::from("b")), 204),
        (resp_presets::bad_request(String::from("b")), 400),
        (resp_presets::not_found(String::from("b")), 404),
        (resp_presets::unsupported_media_type(String::from("b")), 415),
        (resp_presets::internal_server_error(String::from("b")), 500),
        (resp_presets::not_implemented(String::from("b")), 501),
    ];
    for (resp, code) in cases {
        assert_eq!(*resp.get_status().get_code(), code);
        assert_eq!(*resp.get_version(), HttpVersion::OnePointOne);
        assert_eq!(resp.get_body().as_str(), "b");
        assert_eq!(resp.get_headers().len(), 0);
    }
}

#[test]
fn response_meta_line_parses_version_and_status() {
    let (version, status) = Response::parse_meta_line(Some("HTTP/1.0 301 Moved Permanently"))
        .unwrap();
    assert_eq!(version, HttpVersion::One);
    assert_eq!(*status.get_code(), 301);
    assert_eq!(status.get_message().as_str(), "Moved Permanently");
    let err = Response::parse_meta_line(None).unwrap_err();
    assert_eq!(*err.get_kind(), ParseErrorKind::Response);
}

#[test]
fn response_builder_destruct_yields_the_fields() {
    let b = ResponseBuilder::new().with_version(HttpVersion::Two);
    let (version, status, headers, body) = b.destruct();
    assert_eq!(version, Some(HttpVersion::Two));
    assert!(status.is_none());
    assert!(headers.is_none());
    assert!(body.is_none());
}
