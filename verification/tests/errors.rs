use poe2openai::errors::{
    classify_error, convert_first_error, convert_poe_error_to_openai, request_failure,
    ErrorClass, RequestFailure,
};

#[test]
fn quota_error_at_start() {
    let (status, body) =
        convert_first_error("This bot needs more points to answer your request.", false);
    assert_eq!(status, 429);
    assert_eq!(
        body.error.message,
        "You have exceeded your message quota for this model. Please try again later."
    );
    assert_eq!(body.error.kind, "insufficient_quota");
    assert_eq!(body.error.code, "insufficient_quota");
    assert!(body.error.param.is_none());
    let (status, body) =
        convert_first_error("Sorry. You do not have enough points to message this bot.", true);
    assert_eq!(status, 429);
    assert_eq!(body.error.code, "insufficient_quota");
}

#[test]
fn other_first_errors_follow_the_general_mapping() {
    let (status, body) = convert_first_error("Invalid token", false);
    assert_eq!(status, 401);
    assert_eq!(body.error.message, "Invalid token");
    assert_eq!(body.error.kind, "invalid_auth");
    assert_eq!(body.error.code, "invalid_api_key");
}

#[test]
fn upstream_errors_map_by_their_text() {
    let cases = [
        ("Internal server error: x", 500, "internal_error", "internal_error"),
        ("hit the rate limit", 429, "rate_limit_exceeded", "rate_limit_exceeded"),
        ("Invalid token", 401, "invalid_auth", "invalid_api_key"),
        ("Unauthorized", 401, "invalid_auth", "invalid_api_key"),
        ("Bot does not exist", 404, "model_not_found", "model_not_found"),
        ("anything else", 400, "invalid_request", "bad_request"),
    ];
    for (text, status, kind, code) in cases {
        let (s, body) = convert_poe_error_to_openai(text, false);
        assert_eq!(s, status);
        assert_eq!(body.error.message, text);
        assert_eq!(body.error.kind, kind);
        assert_eq!(body.error.code, code);
        assert!(body.error.param.is_none());
    }
}

#[test]
fn first_matching_rule_wins() {
    assert_eq!(classify_error("rate limit after Internal server error"), ErrorClass::Internal);
    assert_eq!(classify_error("Unauthorized: rate limit"), ErrorClass::RateLimit);
    assert_eq!(classify_error(""), ErrorClass::Generic);
}

#[test]
fn request_failures_have_fixed_kinds() {
    let (status, body) = request_failure(RequestFailure::Parse, "JSON parsing failed: x");
    assert_eq!((status, body.error.kind.as_str(), body.error.code.as_str()), (400, "invalid_request_error", "parse_error"));
    assert_eq!(body.error.message, "JSON parsing failed: x");
    let (status, body) = request_failure(RequestFailure::PayloadTooLarge, "m");
    assert_eq!((status, body.error.kind.as_str(), body.error.code.as_str()), (413, "invalid_request_error", "payload_too_large"));
    let (status, body) = request_failure(RequestFailure::Auth, "Missing Authorization");
    assert_eq!((status, body.error.kind.as_str(), body.error.code.as_str()), (401, "invalid_auth", "invalid_api_key"));
    assert_eq!(body.error.message, "Missing Authorization");
    let (status, body) = request_failure(RequestFailure::Upload, "m");
    assert_eq!((status, body.error.kind.as_str(), body.error.code.as_str()), (500, "processing_error", "file_processing_failed"));
    let (status, body) = request_failure(RequestFailure::ToolSequence, "m");
    assert_eq!((status, body.error.kind.as_str(), body.error.code.as_str()), (400, "invalid_request_error", "bad_request"));
}
