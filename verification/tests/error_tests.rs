use http_parse::{Destruct, HttpParseError, ParseErrorKind};

#[test]
fn error_new_has_kind_unknown_and_no_message() {
    let err = HttpParseError::new();
    assert_eq!(*err.get_kind(), ParseErrorKind::Unknown);
    assert!(err.get_msg().is_none());
}

#[test]
fn error_default_matches_new() {
    assert_eq!(HttpParseError::default(), HttpParseError::new());
    assert_eq!(ParseErrorKind::default(), ParseErrorKind::Unknown);
}

#[test]
fn error_from_kind_keeps_the_kind() {
    for kind in [
        ParseErrorKind::Unknown,
        ParseErrorKind::IO,
        ParseErrorKind::Method,
        ParseErrorKind::Version,
        ParseErrorKind::Request,
        ParseErrorKind::Status,
        ParseErrorKind::Response,
        ParseErrorKind::Util,
    ] {
        let err = HttpParseError::from_kind(kind);
        assert_eq!(*err.get_kind(), kind);
        assert!(err.get_msg().is_none());
    }
}

#[test]
fn error_with_msg_attaches_a_message() {
    let mut err = HttpParseError::from_kind(ParseErrorKind::Status);
    err.with_msg("code out of range");
    assert_eq!(*err.get_kind(), ParseErrorKind::Status);
    assert_eq!(err.get_msg(), Some("code out of range"));
}

#[test]
fn error_with_msg_chains() {
    let mut err = HttpParseError::new();
    let kind = *err.with_msg("details").get_kind();
    assert_eq!(kind, ParseErrorKind::Unknown);
    assert_eq!(err.get_msg(), Some("details"));
}

#[test]
fn error_same_kind_different_messages_share_the_kind() {
    let a = HttpParseError::from_kind_msg(ParseErrorKind::Method, "one");
    let b = HttpParseError::from_kind_msg(ParseErrorKind::Method, "two");
    assert_eq!(a.get_kind(), b.get_kind());
    assert_ne!(a.get_msg(), b.get_msg());
}

#[test]
fn error_kinds_order_deterministically() {
    let mut kinds = vec![
        ParseErrorKind::Util,
        ParseErrorKind::Method,
        ParseErrorKind::Unknown,
        ParseErrorKind::Response,
    ];
    kinds.sort();
    assert_eq!(
        kinds,
        vec![
            ParseErrorKind::Unknown,
            ParseErrorKind::Method,
            ParseErrorKind::Response,
            ParseErrorKind::Util,
        ]
    );
}

#[test]
fn error_destruct_yields_kind_and_message() {
    let err = HttpParseError::from_kind_msg(ParseErrorKind::Util, "broken line");
    let (kind, msg) = err.destruct();
    assert_eq!(kind, ParseErrorKind::Util);
    assert_eq!(msg.as_str(), "broken line");

    let bare = HttpParseError::from_kind(ParseErrorKind::IO);
    let (kind2, msg2) = bare.destruct();
    assert_eq!(kind2, ParseErrorKind::IO);
    assert_eq!(msg2.as_str(), "");
}

#[test]
fn util_helpers_copy_and_reject() {
    let uri = http_parse::util::parse_uri(Some("/path")).unwrap();
    assert_eq!(uri.as_str(), "/path");
    let err = http_parse::util::parse_uri(None).unwrap_err();
    assert_eq!(*err.get_kind(), ParseErrorKind::Util);

    let e = http_parse::util::error_option_empty(ParseErrorKind::Request);
    assert_eq!(*e.get_kind(), ParseErrorKind::Request);
    assert!(e.get_msg().is_some());
}

#[test]
fn parse_key_value_splits_on_first_delimiter() {
    let (k, v) = http_parse::util::parse_key_value("Host: example.com").unwrap();
    assert_eq!(k.as_str(), "Host");
    assert_eq!(v.as_str(), "example.com");

    let (k2, v2) = http_parse::util::parse_key_value("K: a: b").unwrap();
    assert_eq!(k2.as_str(), "K");
    assert_eq!(v2.as_str(), "a: b");

    let err = http_parse::util::parse_key_value("no delimiter").unwrap_err();
    assert_eq!(*err.get_kind(), ParseErrorKind::Util);
}

#[test]
fn parse_header_consumes_until_the_empty_line() {
    let lines = vec![
        String::from("start line"),
        String::from("A: 1"),
        String::from("B: 2"),
        String::new(),
        String::from("body"),
    ];
    let (map, cursor) = http_parse::util::parse_header(&lines, 1).unwrap();
    assert_eq!(map.len(), 2);
    assert_eq!(cursor, 4);
    assert_eq!(map.get(&String::from("A")).unwrap().as_str(), "1");
    assert_eq!(map.get(&String::from("B")).unwrap().as_str(), "2");
}

#[test]
fn parse_body_rejoins_remaining_lines() {
    let lines = vec![
        String::from("ignored"),
        String::from("one"),
        String::from("two"),
    ];
    let body = http_parse::util::parse_body(&lines, 1);
    assert_eq!(body.as_str(), "one\ntwo");
    let empty = http_parse::util::parse_body(&lines, 3);
    assert_eq!(empty.as_str(), "");
}

#[test]
fn header_map_keeps_insertion_order_and_overwrites_in_place() {
    let mut map = http_parse::HeaderMap::new();
    map.insert(String::from("B"), String::from("1"));
    map.insert(String::from("A"), String::from("2"));
    map.insert(String::from("B"), String::from("3"));
    assert_eq!(map.len(), 2);
    let first = map.entry_at(0);
    assert_eq!(first.0.as_str(), "B");
    assert_eq!(first.1.as_str(), "3");
    let second = map.entry_at(1);
    assert_eq!(second.0.as_str(), "A");
    assert_eq!(map.render().as_str(), "B: 3\nA: 2\n");
    map.remove(&String::from("B"));
    assert_eq!(map.len(), 1);
    assert!(map.get(&String::from("B")).is_none());
}
