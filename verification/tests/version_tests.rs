use http_parse::{HttpVersion, ParseErrorKind};

const ALL_VERSIONS: [HttpVersion; 4] = [
    HttpVersion::One,
    HttpVersion::OnePointOne,
    HttpVersion::Two,
    HttpVersion::Three,
];

#[test]
fn version_decode_inverts_encode_for_all_labels() {
    for v in ALL_VERSIONS {
        let label = v.encode();
        let back = HttpVersion::from_str(label.as_str()).unwrap();
        assert_eq!(back, v);
    }
}

#[test]
fn version_decode_is_case_insensitive() {
    assert_eq!(
        HttpVersion::from_str("http/1.1").unwrap(),
        HttpVersion::OnePointOne
    );
    assert_eq!(
        HttpVersion::from_str("Http/2").unwrap(),
        HttpVersion::Two
    );
}

#[test]
fn version_decode_inverts_encode_for_all_numerals() {
    let numerals = [(1u16, 0u16), (1, 1), (2, 0), (3, 0)];
    for (v, (major, minor)) in ALL_VERSIONS.iter().zip(numerals.iter()) {
        assert_eq!(HttpVersion::from_numeral(*major, *minor).unwrap(), *v);
    }
}

#[test]
fn version_numeral_one_point_one_decodes() {
    assert_eq!(
        HttpVersion::from_numeral(1, 1).unwrap(),
        HttpVersion::OnePointOne
    );
}

#[test]
fn version_numeral_one_point_two_fails_with_kind_version() {
    let err = HttpVersion::from_numeral(1, 2).unwrap_err();
    assert_eq!(*err.get_kind(), ParseErrorKind::Version);
}

#[test]
fn version_unrecognized_label_fails_with_kind_version() {
    let err = HttpVersion::from_str("HTTP/9").unwrap_err();
    assert_eq!(*err.get_kind(), ParseErrorKind::Version);
}

#[test]
fn version_canonical_labels() {
    assert_eq!(HttpVersion::One.encode().as_str(), "HTTP/1.0");
    assert_eq!(HttpVersion::OnePointOne.encode().as_str(), "HTTP/1.1");
    assert_eq!(HttpVersion::Two.encode().as_str(), "HTTP/2");
    assert_eq!(HttpVersion::Three.encode().as_str(), "HTTP/3");
}

#[test]
fn version_from_opt_str_absent_fails_with_kind_version() {
    let err = HttpVersion::from_opt_str(None).unwrap_err();
    assert_eq!(*err.get_kind(), ParseErrorKind::Version);
    let ok = HttpVersion::from_opt_str(Some("HTTP/3")).unwrap();
    assert_eq!(ok, HttpVersion::Three);
}

#[test]
fn version_from_index_covers_the_table() {
    for (i, v) in ALL_VERSIONS.iter().enumerate() {
        assert_eq!(HttpVersion::from_index(i).unwrap(), *v);
    }
    let err = HttpVersion::from_index(4).unwrap_err();
    assert_eq!(*err.get_kind(), ParseErrorKind::Version);
}

#[test]
fn version_default_is_one_point_one() {
    assert_eq!(HttpVersion::default(), HttpVersion::OnePointOne);
}
