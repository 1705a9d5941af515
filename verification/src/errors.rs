//! Error bodies in the OpenAI shape, and the rules that map an upstream
//! error text to an HTTP status and an error body.

use crate::text::{chars_of, contains, copy_str, vec_contains};
use vstd::prelude::*;

verus! {

/// The inner object of an error body.
#[derive(Debug)]
pub struct OpenAIError {
    pub message: String,
    pub kind: String,
    pub code: String,
    pub param: Option<String>,
}

/// An error body: `{"error": {...}}`.
#[derive(Debug)]
pub struct OpenAIErrorResponse {
    pub error: OpenAIError,
}

pub struct ErrorModel {
    pub message: Seq<char>,
    pub kind: Seq<char>,
    pub code: Seq<char>,
    pub param: Option<Seq<char>>,
}

impl DeepView for OpenAIError {
    type V = ErrorModel;

    open spec fn deep_view(&self) -> ErrorModel {
        ErrorModel {
            message: self.message@,
            kind: self.kind@,
            code: self.code@,
            param: self.param.deep_view(),
        }
    }
}

impl DeepView for OpenAIErrorResponse {
    type V = ErrorModel;

    open spec fn deep_view(&self) -> ErrorModel {
        self.error.deep_view()
    }
}

impl OpenAIErrorResponse {
    pub fn copy(&self) -> (r: OpenAIErrorResponse)
        ensures
            r.deep_view() == self.deep_view(),
    {
        OpenAIErrorResponse {
            error: OpenAIError {
                message: self.error.message.clone(),
                kind: self.error.kind.clone(),
                code: self.error.code.clone(),
                param: match &self.error.param {
                    Some(p) => Some(p.clone()),
                    None => None,
                },
            },
        }
    }

    /// An error body with the given message, type and code, and no `param`.
    pub fn of(message: &str, kind: &str, code: &str) -> (r: OpenAIErrorResponse)
        ensures
            r.deep_view() == (ErrorModel {
                message: message@,
                kind: kind@,
                code: code@,
                param: None,
            }),
    {
        OpenAIErrorResponse {
            error: OpenAIError {
                message: copy_str(message),
                kind: copy_str(kind),
                code: copy_str(code),
                param: None,
            },
        }
    }
}

/// The class of an upstream error text. The first rule that applies wins.
#[derive(Debug, Clone, Copy, PartialEq, Eq, Structural)]
pub enum ErrorClass {
    Internal,
    RateLimit,
    Auth,
    ModelNotFound,
    Generic,
}

pub open spec fn error_class(text: Seq<char>) -> ErrorClass {
    if contains(text, "Internal server error"@) {
        ErrorClass::Internal
    } else if contains(text, "rate limit"@) {
        ErrorClass::RateLimit
    } else if contains(text, "Invalid token"@) || contains(text, "Unauthorized"@) {
        ErrorClass::Auth
    } else if contains(text, "Bot does not exist"@) {
        ErrorClass::ModelNotFound
    } else {
        ErrorClass::Generic
    }
}

pub open spec fn class_status(class: ErrorClass) -> u16 {
    match class {
        ErrorClass::Internal => 500,
        ErrorClass::RateLimit => 429,
        ErrorClass::Auth => 401,
        ErrorClass::ModelNotFound => 404,
        ErrorClass::Generic => 400,
    }
}

pub open spec fn class_kind(class: ErrorClass) -> Seq<char> {
    match class {
        ErrorClass::Internal => "internal_error"@,
        ErrorClass::RateLimit => "rate_limit_exceeded"@,
        ErrorClass::Auth => "invalid_auth"@,
        ErrorClass::ModelNotFound => "model_not_found"@,
        ErrorClass::Generic => "invalid_request"@,
    }
}

pub open spec fn class_code(class: ErrorClass) -> Seq<char> {
    match class {
        ErrorClass::Internal => "internal_error"@,
        ErrorClass::RateLimit => "rate_limit_exceeded"@,
        ErrorClass::Auth => "invalid_api_key"@,
        ErrorClass::ModelNotFound => "model_not_found"@,
        ErrorClass::Generic => "bad_request"@,
    }
}

/// Status and body for an upstream error text.
pub open spec fn upstream_error(text: Seq<char>) -> (u16, ErrorModel) {
    let class = error_class(text);
    (
        class_status(class),
        ErrorModel { message: text, kind: class_kind(class), code: class_code(class), param: None },
    )
}

pub fn classify_error(text: &str) -> (r: ErrorClass)
    ensures
        r == error_class(text@),
{
    let t = chars_of(text);
    if vec_contains(&t, &chars_of("Internal server error")) {
        ErrorClass::Internal
    } else if vec_contains(&t, &chars_of("rate limit")) {
        ErrorClass::RateLimit
    } else if vec_contains(&t, &chars_of("Invalid token")) || vec_contains(
        &t,
        &chars_of("Unauthorized"),
    ) {
        ErrorClass::Auth
    } else if vec_contains(&t, &chars_of("Bot does not exist")) {
        ErrorClass::ModelNotFound
    } else {
        ErrorClass::Generic
    }
}

/// Maps an upstream error text to the HTTP status and the error body that
/// the client receives. The message is the upstream's text unchanged.
pub fn convert_poe_error_to_openai(error_text: &str, allow_retry: bool) -> (r: (
    u16,
    OpenAIErrorResponse,
))
    ensures
        r.0 == upstream_error(error_text@).0,
        r.1.deep_view() == upstream_error(error_text@).1,
{
    let class = classify_error(error_text);
    match class {
        ErrorClass::Internal => (
            500,
            OpenAIErrorResponse::of(error_text, "internal_error", "internal_error"),
        ),
        ErrorClass::RateLimit => (
            429,
            OpenAIErrorResponse::of(error_text, "rate_limit_exceeded", "rate_limit_exceeded"),
        ),
        ErrorClass::Auth => (401, OpenAIErrorResponse::of(error_text, "invalid_auth", "invalid_api_key")),
        ErrorClass::ModelNotFound => (
            404,
            OpenAIErrorResponse::of(error_text, "model_not_found", "model_not_found"),
        ),
        ErrorClass::Generic => (400, OpenAIErrorResponse::of(error_text, "invalid_request", "bad_request")),
    }
}

/// The upstream says that the caller's points do not suffice.
pub open spec fn is_quota_text(text: Seq<char>) -> bool {
    contains(text, "This bot needs more points to answer your request."@) || contains(
        text,
        "You do not have enough points to message this bot."@,
    )
}

pub open spec fn quota_error() -> ErrorModel {
    ErrorModel {
        message: "You have exceeded your message quota for this model. Please try again later."@,
        kind: "insufficient_quota"@,
        code: "insufficient_quota"@,
        param: None,
    }
}

/// Status and body for an error that is the first event of a reply.
pub open spec fn first_error(text: Seq<char>) -> (u16, ErrorModel) {
    if is_quota_text(text) {
        (429, quota_error())
    } else {
        upstream_error(text)
    }
}

/// An error that arrives as the first event of a reply becomes the HTTP
/// response itself: 429 `insufficient_quota` where the text names missing
/// points, the general mapping otherwise.
pub fn convert_first_error(error_text: &str, allow_retry: bool) -> (r: (u16, OpenAIErrorResponse))
    ensures
        r.0 == first_error(error_text@).0,
        r.1.deep_view() == first_error(error_text@).1,
{
    let t = chars_of(error_text);
    if vec_contains(&t, &chars_of("This bot needs more points to answer your request."))
        || vec_contains(&t, &chars_of("You do not have enough points to message this bot.")) {
        (
            429,
            OpenAIErrorResponse::of(
                "You have exceeded your message quota for this model. Please try again later.",
                "insufficient_quota",
                "insufficient_quota",
            ),
        )
    } else {
        convert_poe_error_to_openai(error_text, allow_retry)
    }
}

/// The fixed error bodies of the request path.
#[derive(Debug, Clone, Copy, PartialEq, Eq, Structural)]
pub enum RequestFailure {
    Parse,
    PayloadTooLarge,
    Auth,
    Upload,
    ToolSequence,
}

pub open spec fn failure_status(f: RequestFailure) -> u16 {
    match f {
        RequestFailure::Parse => 400,
        RequestFailure::PayloadTooLarge => 413,
        RequestFailure::Auth => 401,
        RequestFailure::Upload => 500,
        RequestFailure::ToolSequence => 400,
    }
}

pub open spec fn failure_kind(f: RequestFailure) -> Seq<char> {
    match f {
        RequestFailure::Parse => "invalid_request_error"@,
        RequestFailure::PayloadTooLarge => "invalid_request_error"@,
        RequestFailure::Auth => "invalid_auth"@,
        RequestFailure::Upload => "processing_error"@,
        RequestFailure::ToolSequence => "invalid_request_error"@,
    }
}

pub open spec fn failure_code(f: RequestFailure) -> Seq<char> {
    match f {
        RequestFailure::Parse => "parse_error"@,
        RequestFailure::PayloadTooLarge => "payload_too_large"@,
        RequestFailure::Auth => "invalid_api_key"@,
        RequestFailure::Upload => "file_processing_failed"@,
        RequestFailure::ToolSequence => "bad_request"@,
    }
}

/// Status and body for a request that fails before it reaches the upstream.
pub fn request_failure(f: RequestFailure, message: &str) -> (r: (u16, OpenAIErrorResponse))
    ensures
        r.0 == failure_status(f),
        r.1.deep_view() == (ErrorModel {
            message: message@,
            kind: failure_kind(f),
            code: failure_code(f),
            param: None,
        }),
{
    match f {
        RequestFailure::Parse => (
            400,
            OpenAIErrorResponse::of(message, "invalid_request_error", "parse_error"),
        ),
        RequestFailure::PayloadTooLarge => (
            413,
            OpenAIErrorResponse::of(message, "invalid_request_error", "payload_too_large"),
        ),
        RequestFailure::Auth => (
            401,
            OpenAIErrorResponse::of(message, "invalid_auth", "invalid_api_key"),
        ),
        RequestFailure::Upload => (
            500,
            OpenAIErrorResponse::of(message, "processing_error", "file_processing_failed"),
        ),
        RequestFailure::ToolSequence => (
            400,
            OpenAIErrorResponse::of(message, "invalid_request_error", "bad_request"),
        ),
    }
}

} // verus!
