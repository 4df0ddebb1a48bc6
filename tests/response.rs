use store::error::StoreError;
use store::response::{
    classify_response, decimal_text, error_text, friendly_message, is_success, surfaced_body,
    ApiErrorBody,
};

fn body(detail: Option<&str>, message: Option<&str>) -> Option<ApiErrorBody> {
    Some(ApiErrorBody {
        detail: detail.map(|s| s.to_string()),
        message: message.map(|s| s.to_string()),
    })
}

fn api_message(r: Result<Option<String>, StoreError>) -> String {
    match r {
        Err(StoreError::ApiRequest { message }) => message,
        other => panic!("expected an API request error, got {:?}", other),
    }
}

#[test]
fn fixed_messages_ignore_the_body() {
    let cases = [
        (401u16, "Unauthorized - check your API token"),
        (403, "Forbidden - you don't have permission for this project"),
        (404, "Not found - check the API URL and project slug"),
        (500, "Server error - please try again later"),
    ];
    for (status, expected) in cases {
        let with_detail = classify_response(
            status,
            r#"{"detail":"x"}"#.to_string(),
            body(Some("x"), None),
        );
        assert_eq!(api_message(with_detail), expected);
        let raw = classify_response(status, "garbage".to_string(), None);
        assert_eq!(api_message(raw), expected);
    }
}

#[test]
fn bad_request_shows_detail() {
    let r = classify_response(
        400,
        r#"{"detail":"bad field"}"#.to_string(),
        body(Some("bad field"), None),
    );
    assert_eq!(api_message(r), "Bad request - bad field");
}

#[test]
fn unlisted_status_shows_raw_body() {
    let r = classify_response(422, "oops".to_string(), None);
    assert_eq!(api_message(r), "HTTP 422 - oops");
}

#[test]
fn unlisted_status_shows_message_field() {
    let r = classify_response(409, r#"{"message":"taken"}"#.to_string(), body(None, Some("taken")));
    assert_eq!(api_message(r), "HTTP 409 - taken");
}

#[test]
fn success_with_null_body_shows_nothing() {
    assert_eq!(classify_response(200, "null".to_string(), None).unwrap(), None);
}

#[test]
fn success_with_body_shows_it() {
    assert_eq!(
        classify_response(200, r#"{"id":5}"#.to_string(), None).unwrap(),
        Some(r#"{"id":5}"#.to_string())
    );
}

#[test]
fn success_with_empty_body_shows_nothing() {
    assert_eq!(classify_response(201, String::new(), None).unwrap(), None);
}

#[test]
fn surfaced_body_cases() {
    assert_eq!(surfaced_body("null".to_string()), None);
    assert_eq!(surfaced_body(String::new()), None);
    assert_eq!(surfaced_body("nul".to_string()), Some("nul".to_string()));
    assert_eq!(surfaced_body("\"null\"".to_string()), Some("\"null\"".to_string()));
}

#[test]
fn success_range() {
    assert!(!is_success(199));
    assert!(is_success(200));
    assert!(is_success(299));
    assert!(!is_success(300));
    assert!(!is_success(404));
}

#[test]
fn error_text_prefers_detail() {
    assert_eq!(error_text("raw".to_string(), body(Some("d"), Some("m"))), "d");
    assert_eq!(error_text("raw".to_string(), body(None, Some("m"))), "m");
    assert_eq!(error_text("raw".to_string(), body(None, None)), "raw");
    assert_eq!(error_text("raw".to_string(), None), "raw");
}

#[test]
fn friendly_message_formats() {
    assert_eq!(friendly_message(400, "x"), "Bad request - x");
    assert_eq!(friendly_message(418, "teapot"), "HTTP 418 - teapot");
    assert_eq!(friendly_message(302, ""), "HTTP 302 - ");
}

#[test]
fn decimal_numerals() {
    assert_eq!(decimal_text(0), "0");
    assert_eq!(decimal_text(7), "7");
    assert_eq!(decimal_text(10), "10");
    assert_eq!(decimal_text(422), "422");
    assert_eq!(decimal_text(65535), "65535");
}
