use http_parse::{presets, HttpStatus, HttpStatusGroup, ParseErrorKind};
use http_parse::Destruct;

#[test]
fn classify_matches_the_boundary_table_for_all_codes() {
    for code in 100u16..=599 {
        let status = HttpStatus::from_code_msg(code, "x");
        let expected = match code / 100 {
            1 => HttpStatusGroup::Informational,
            2 => HttpStatusGroup::Successful,
            3 => HttpStatusGroup::Redirection,
            4 => HttpStatusGroup::ClientError,
            _ => HttpStatusGroup::ServerError,
        };
        assert_eq!(status.get_group(), expected);
    }
}

#[test]
fn classify_code_99_is_unknown() {
    let status = HttpStatus::from_code_msg(99, "x");
    assert_eq!(status.get_group(), HttpStatusGroup::Unknown);
}

#[test]
fn classify_code_600_is_unknown() {
    let status = HttpStatus::from_code_msg(600, "x");
    assert_eq!(status.get_group(), HttpStatusGroup::Unknown);
}

#[test]
fn classify_exact_boundaries() {
    assert_eq!(
        HttpStatus::from_code_msg(100, "x").get_group(),
        HttpStatusGroup::Informational
    );
    assert_eq!(
        HttpStatus::from_code_msg(199, "x").get_group(),
        HttpStatusGroup::Informational
    );
    assert_eq!(
        HttpStatus::from_code_msg(200, "x").get_group(),
        HttpStatusGroup::Successful
    );
    assert_eq!(
        HttpStatus::from_code_msg(599, "x").get_group(),
        HttpStatusGroup::ServerError
    );
    assert_eq!(
        HttpStatus::from_code_msg(0, "x").get_group(),
        HttpStatusGroup::Unknown
    );
    assert_eq!(
        HttpStatus::from_code_msg(65535, "x").get_group(),
        HttpStatusGroup::Unknown
    );
}

#[test]
fn group_from_unsigned_and_signed_classify() {
    assert_eq!(
        HttpStatusGroup::from_unsigned(301),
        HttpStatusGroup::Redirection
    );
    assert_eq!(
        HttpStatusGroup::from_unsigned(1000),
        HttpStatusGroup::Unknown
    );
    assert_eq!(
        HttpStatusGroup::try_from_signed(404).unwrap(),
        HttpStatusGroup::ClientError
    );
    let err = HttpStatusGroup::try_from_signed(-5).unwrap_err();
    assert_eq!(*err.get_kind(), ParseErrorKind::Status);
}

#[test]
fn has_group_compares_the_classification() {
    let status = HttpStatus::from_code_msg(404, "Not Found");
    assert!(status.has_group(&HttpStatusGroup::ClientError));
    assert!(!status.has_group(&HttpStatusGroup::ServerError));
}

#[test]
fn status_accessors_return_the_fields() {
    let status = HttpStatus::from_code_msg(404, "Not Found");
    assert_eq!(*status.get_code(), 404);
    assert_eq!(status.get_message().as_str(), "Not Found");
}

#[test]
fn status_renders_code_space_reason() {
    let status = HttpStatus::from_code_msg(404, "Not Found");
    assert_eq!(status.render().as_str(), "404 Not Found");
    let zero = HttpStatus::from_code_msg(0, "Zero");
    assert_eq!(zero.render().as_str(), "0 Zero");
    let max = HttpStatus::from_code_msg(65535, "Max");
    assert_eq!(max.render().as_str(), "65535 Max");
}

#[test]
fn status_from_text_parses_decimal_codes() {
    let status = HttpStatus::try_from_text("404", "Not Found").unwrap();
    assert_eq!(*status.get_code(), 404);
    let plus = HttpStatus::try_from_text("+404", "Not Found").unwrap();
    assert_eq!(*plus.get_code(), 404);
    let leading_zero = HttpStatus::try_from_text("0200", "OK").unwrap();
    assert_eq!(*leading_zero.get_code(), 200);
}

#[test]
fn status_from_text_rejects_bad_codes_with_kind_status() {
    for bad in ["abc", "", "+", "12a", "65536", "99999999999999999999", "-1"] {
        let err = HttpStatus::try_from_text(bad, "x").unwrap_err();
        assert_eq!(*err.get_kind(), ParseErrorKind::Status);
    }
}

#[test]
fn status_from_unsigned_range_checks() {
    let ok = HttpStatus::try_from_unsigned(65535, "x").unwrap();
    assert_eq!(*ok.get_code(), 65535);
    let err = HttpStatus::try_from_unsigned(65536, "x").unwrap_err();
    assert_eq!(*err.get_kind(), ParseErrorKind::Status);
}

#[test]
fn status_from_signed_rejects_negative() {
    let ok = HttpStatus::try_from_signed(200, "OK").unwrap();
    assert_eq!(*ok.get_code(), 200);
    let err = HttpStatus::try_from_signed(-1, "x").unwrap_err();
    assert_eq!(*err.get_kind(), ParseErrorKind::Status);
}

#[test]
fn status_from_str_consumes_exactly_two_tokens() {
    let status = HttpStatus::from_str("404 Not Found").unwrap();
    assert_eq!(*status.get_code(), 404);
    // Only the second token is consumed as the reason; the rest of the
    // line is ignored by this stage.
    assert_eq!(status.get_message().as_str(), "Not");
}

#[test]
fn status_from_str_missing_token_fails_with_kind_status() {
    let err = HttpStatus::from_str("404").unwrap_err();
    assert_eq!(*err.get_kind(), ParseErrorKind::Status);
}

#[test]
fn status_presets_carry_the_common_pairs() {
    let cases: [(HttpStatus, u16, &str); 9] = [
        (presets::continue_(), 100, "Continue"),
        (presets::ok(), 200, "OK"),
        (presets::created(), 201, "Created"),
        (presets::no_content(), 204, "No Content"),
        (presets::bad_request(), 400, "Bad Request"),
        (presets::not_found(), 404, "Not Found"),
        (presets::unsupported_media_type(), 415, "Unsupported Media Type"),
        (presets::internal_server_error(), 500, "Internal Server Error"),
        (presets::not_implemented(), 501, "Not Implemented"),
    ];
    for (status, code, message) in cases {
        assert_eq!(*status.get_code(), code);
        assert_eq!(status.get_message().as_str(), message);
    }
}

#[test]
fn status_destruct_yields_code_and_message() {
    let (code, message) = presets::not_found().destruct();
    assert_eq!(code, 404);
    assert_eq!(message.as_str(), "Not Found");
}
