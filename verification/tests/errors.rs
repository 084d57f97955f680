use backend::error::{
    check_one_field, check_two_fields, parse_retry_after_minutes, prefixed, AppError,
    TokenErrorKind,
};

#[test]
fn error_status_codes_and_bodies() {
    let cases = vec![
        (AppError::Unauthorized("a".into()), 401u16, "unauthorized"),
        (AppError::Forbidden("b".into()), 403, "forbidden"),
        (AppError::NotFound("c".into()), 404, "not_found"),
        (AppError::BadRequest("d".into()), 400, "bad_request"),
        (AppError::UnprocessableEntity("e".into()), 422, "unprocessable_entity"),
        (AppError::InternalServerError("f".into()), 500, "internal_server_error"),
    ];
    for (e, status, code) in cases {
        let r = e.error_response();
        assert_eq!(r.status, status);
        assert_eq!(r.error, code);
        assert_eq!(r.retry_after_minutes, None);
    }
    let r = AppError::RateLimitError { message: "Groq".into(), retry_after_minutes: 3 }.error_response();
    assert_eq!(r.status, 429);
    assert_eq!(r.error, "rate_limit");
    assert_eq!(r.message, "Groq");
    assert_eq!(r.retry_after_minutes, Some(3));
}

#[test]
fn error_display_texts() {
    assert_eq!(AppError::NotFound("Record not found".into()).to_string(), "Not found: Record not found");
    assert_eq!(AppError::Unauthorized("x".into()).to_string(), "Unauthorized: x");
    assert_eq!(AppError::Forbidden("x".into()).to_string(), "Forbidden: x");
    assert_eq!(AppError::BadRequest("x".into()).to_string(), "Bad request: x");
    assert_eq!(AppError::UnprocessableEntity("x".into()).to_string(), "Unprocessable entity: x");
    assert_eq!(AppError::InternalServerError("x".into()).to_string(), "Internal server error: x");
    assert_eq!(
        AppError::RateLimitError { message: "Jina".into(), retry_after_minutes: 5 }.to_string(),
        "Rate limit exceeded from Jina, retry after 5 minutes"
    );
}

#[test]
fn outside_failures_become_errors() {
    let e = AppError::from_database_error(true, "ignored");
    assert!(matches!(e, AppError::NotFound(ref m) if m == "Record not found"));
    let e = AppError::from_database_error(false, "connection reset");
    assert!(matches!(e, AppError::InternalServerError(ref m) if m == "Database error: connection reset"));
    let e = AppError::from_json_payload_error("eof");
    assert!(matches!(e, AppError::BadRequest(ref m) if m == "Invalid JSON payload: eof"));
    let e = AppError::from_http_client_error("timeout");
    assert!(matches!(e, AppError::InternalServerError(ref m) if m == "HTTP client error: timeout"));
    let e = AppError::from_json_error("bad");
    assert!(matches!(e, AppError::InternalServerError(ref m) if m == "JSON serialization error: bad"));
    let e = AppError::from_bcrypt_error("cost");
    assert!(matches!(e, AppError::InternalServerError(ref m) if m == "Password hashing error: cost"));
}

#[test]
fn token_failures_are_unauthorized() {
    let e = AppError::from_token_error(TokenErrorKind::ExpiredSignature, "x");
    assert!(matches!(e, AppError::Unauthorized(ref m) if m == "Token has expired"));
    for k in [TokenErrorKind::InvalidToken, TokenErrorKind::InvalidSignature, TokenErrorKind::InvalidAlgorithmName] {
        let e = AppError::from_token_error(k, "x");
        assert!(matches!(e, AppError::Unauthorized(ref m) if m == "Invalid token"));
    }
    let e = AppError::from_token_error(TokenErrorKind::Other, "weird");
    assert!(matches!(e, AppError::Unauthorized(ref m) if m == "Token error: weird"));
}

#[test]
fn retry_after_in_minutes_rounded_up() {
    assert_eq!(parse_retry_after_minutes(Some("120"), 5), 2);
    assert_eq!(parse_retry_after_minutes(Some("121"), 5), 3);
    assert_eq!(parse_retry_after_minutes(Some(" 30 "), 5), 1);
    assert_eq!(parse_retry_after_minutes(Some("0"), 5), 0);
    assert_eq!(parse_retry_after_minutes(Some("soon"), 5), 5);
    assert_eq!(parse_retry_after_minutes(None, 4), 4);
}

#[test]
fn duplicates_keep_everything() {
    let e = AppError::RateLimitError { message: "BrightData".into(), retry_after_minutes: 9 };
    let d = e.duplicate();
    assert!(d.is_rate_limit());
    assert_eq!(d.to_string(), e.to_string());
    assert!(!AppError::NotFound("x".into()).is_rate_limit());
}

#[test]
fn prefixed_text() {
    assert_eq!(prefixed("ab", "cd"), "abcd");
}

#[test]
fn field_checks_report_failed_fields() {
    assert!(check_one_field(true, "name", "name must not be empty").is_ok());
    let e = check_one_field(false, "name", "name must not be empty").unwrap_err();
    assert!(matches!(e, AppError::UnprocessableEntity(ref m) if m == "name: name must not be empty"));
    assert!(check_two_fields(true, "a", "A", true, "b", "B").is_ok());
    let e = check_two_fields(false, "a", "A bad", true, "b", "B bad").unwrap_err();
    assert!(matches!(e, AppError::UnprocessableEntity(ref m) if m == "a: A bad"));
    let e = check_two_fields(true, "a", "A bad", false, "b", "B bad").unwrap_err();
    assert!(matches!(e, AppError::UnprocessableEntity(ref m) if m == "b: B bad"));
    let e = check_two_fields(false, "a", "A bad", false, "b", "B bad").unwrap_err();
    assert!(matches!(e, AppError::UnprocessableEntity(ref m) if m == "a: A bad\nb: B bad"));
}
