use http_parse::{HttpMethod, ParseErrorKind};

const ALL_METHODS: [HttpMethod; 9] = [
    HttpMethod::Post,
    HttpMethod::Get,
    HttpMethod::Put,
    HttpMethod::Delete,
    HttpMethod::Patch,
    HttpMethod::Head,
    HttpMethod::Connect,
    HttpMethod::Options,
    HttpMethod::Trace,
];

#[test]
fn method_decode_inverts_encode_for_all_tokens() {
    for m in ALL_METHODS {
        let token = m.encode();
        let back = HttpMethod::from_str(token.as_str()).unwrap();
        assert_eq!(back, m);
    }
}

#[test]
fn method_decode_is_case_insensitive() {
    let lower = HttpMethod::from_str("get").unwrap();
    let upper = HttpMethod::from_str("GET").unwrap();
    let mixed = HttpMethod::from_str("Get").unwrap();
    assert_eq!(lower, HttpMethod::Get);
    assert_eq!(upper, HttpMethod::Get);
    assert_eq!(mixed, HttpMethod::Get);
    assert_eq!(
        HttpMethod::from_str("dElEtE").unwrap(),
        HttpMethod::Delete
    );
}

#[test]
fn method_unrecognized_token_fails_with_kind_method() {
    let err = HttpMethod::from_str("FETCH").unwrap_err();
    assert_eq!(*err.get_kind(), ParseErrorKind::Method);
}

#[test]
fn method_empty_token_fails_with_kind_method() {
    let err = HttpMethod::from_str("").unwrap_err();
    assert_eq!(*err.get_kind(), ParseErrorKind::Method);
}

#[test]
fn method_canonical_tokens_are_upper_case() {
    assert_eq!(HttpMethod::Post.encode().as_str(), "POST");
    assert_eq!(HttpMethod::Get.encode().as_str(), "GET");
    assert_eq!(HttpMethod::Put.encode().as_str(), "PUT");
    assert_eq!(HttpMethod::Delete.encode().as_str(), "DELETE");
    assert_eq!(HttpMethod::Patch.encode().as_str(), "PATCH");
    assert_eq!(HttpMethod::Head.encode().as_str(), "HEAD");
    assert_eq!(HttpMethod::Connect.encode().as_str(), "CONNECT");
    assert_eq!(HttpMethod::Options.encode().as_str(), "OPTIONS");
    assert_eq!(HttpMethod::Trace.encode().as_str(), "TRACE");
}

#[test]
fn method_from_opt_str_absent_fails_with_kind_method() {
    let err = HttpMethod::from_opt_str(None).unwrap_err();
    assert_eq!(*err.get_kind(), ParseErrorKind::Method);
    let ok = HttpMethod::from_opt_str(Some("put")).unwrap();
    assert_eq!(ok, HttpMethod::Put);
}

#[test]
fn method_from_index_covers_the_table() {
    for (i, m) in ALL_METHODS.iter().enumerate() {
        assert_eq!(HttpMethod::from_index(i).unwrap(), *m);
    }
    let err = HttpMethod::from_index(9).unwrap_err();
    assert_eq!(*err.get_kind(), ParseErrorKind::Method);
}

#[test]
fn method_default_is_get() {
    assert_eq!(HttpMethod::default(), HttpMethod::Get);
}
