//! What kind of failure an upstream answer stands for.
use crate::error_semantics::{
    analyze_refresh_http, analyze_request_http, borrowed, either, error_class, owned_text,
    refresh_class, text_payload,
};
use crate::json::optional_text;
use http::{HeaderMap, HeaderValue};
use vstd::prelude::*;

verus! {

/// The kinds of failure that routing tells apart.
#[derive(Debug, Clone, Copy, PartialEq, Eq, Structural)]
pub enum FailureClass {
    AccessTokenRejected,
    AuthInvalid,
    RateLimited,
    QuotaExhausted,
    RiskControlled,
    TemporaryFailure,
    RequestRejected,
    InternalFailure,
}

/// Why a request got no answer of use.
#[derive(Debug, Clone)]
pub enum TransportError {
    /// The upstream answered with an error.
    Http { status: u16, headers: Option<HeaderMap<HeaderValue>>, body: Option<String> },
    RetryLimit,
    Timeout,
    Network(String),
    Build(String),
}

/// The class of an answer, from its status and body.
pub open spec fn http_class(
    status: u16,
    body: Option<Seq<char>>,
    unauthorized: FailureClass,
) -> FailureClass {
    let payload = text_payload(body);
    error_class(
        status,
        payload.code,
        payload.error_type,
        either(body, payload.message),
        unauthorized,
    )
}

/// The class of a failed request.
pub open spec fn transport_class(error: TransportError) -> FailureClass {
    match error {
        TransportError::Timeout
        | TransportError::Network(_)
        | TransportError::RetryLimit => FailureClass::TemporaryFailure,
        TransportError::Build(_) => FailureClass::InternalFailure,
        TransportError::Http { status, headers: _, body } => http_class(
            status,
            owned_text(body),
            FailureClass::AccessTokenRejected,
        ),
    }
}

/// The class of a failed request.
pub fn classify_request_error(error: &TransportError) -> (class: FailureClass)
    ensures
        class == transport_class(*error),
{
    match error {
        TransportError::Timeout
        | TransportError::Network(_)
        | TransportError::RetryLimit => FailureClass::TemporaryFailure,
        TransportError::Build(_) => FailureClass::InternalFailure,
        TransportError::Http { status, headers: _, body } => classify_request_http(
            *status,
            borrowed(body),
        ),
    }
}

/// The class of the answer to a token refresh.
pub fn classify_refresh_response(status: u16, body: &str) -> (class: FailureClass)
    ensures
        class == refresh_class(
            http_class(status, Some(body@), FailureClass::AuthInvalid),
            Some(body@),
        ),
{
    analyze_refresh_http(status, None, Some(body)).failure
}

/// The class of the answer to a request.
pub fn classify_request_http(status: u16, body: Option<&str>) -> (class: FailureClass)
    ensures
        class == http_class(status, optional_text(body), FailureClass::AccessTokenRejected),
{
    analyze_request_http(status, None, body).failure
}

}
