//! How a failure is told to a client that waits for a stream of events.
use crate::classifier::{classify_request_http, http_class, FailureClass, TransportError};
use crate::error_semantics::{
    analyze_error_at, borrowed, delay_of, either, exact, headers_delay, message_hint, owned_text,
    parse_structured_error_body, resets_delay, resolve_delay, retry_view, text_payload,
    AnalyzeErrorContext, PayloadView, RetryAfter, RetryView, StructuredErrorPayload,
};
use crate::json::{json_text, optional_text, render_json, Json, JsonView};
use crate::text::{decimal, decimal_text, signed_decimal, signed_decimal_text};
use crate::time::{
    delay_text, in_calendar, in_range, render_seconds, utc_now, whole_micros, whole_seconds, Delay,
    Timestamp,
};
use http::{HeaderMap, HeaderValue};
use vstd::prelude::*;
use vstd::utf8::encode_utf8;

verus! {

/// What a client is told where no account can serve it.
pub const GATEWAY_UNAVAILABLE_MESSAGE: &'static str =
    "No account available right now. Try again later.";

/// The fields of a failure that a client is told of.
#[derive(Debug, Clone, PartialEq, Eq)]
pub struct SyntheticResponseFailedPayload {
    pub code: Option<String>,
    pub message: Option<String>,
    pub error_type: Option<String>,
    pub plan_type: Option<String>,
    pub resets_at: Option<i64>,
    pub resets_in_seconds: Option<i64>,
}

impl View for SyntheticResponseFailedPayload {
    type V = PayloadView;

    open spec fn view(&self) -> PayloadView {
        PayloadView {
            code: owned_text(self.code),
            message: owned_text(self.message),
            error_type: owned_text(self.error_type),
            plan_type: owned_text(self.plan_type),
            resets_at: self.resets_at,
            resets_in_seconds: self.resets_in_seconds,
        }
    }
}

/// Who is to mend a failure: the client, or time.
#[derive(Debug, Clone, Copy, PartialEq, Eq, Structural)]
pub enum DownstreamFailureKind {
    CallerError,
    GatewayUnavailable,
}

/// Who is to mend a failure. What the upstream refuses for its content, and what never left the
/// gateway, is the caller's; everything else hangs on the accounts.
pub open spec fn failure_kind(failure: FailureClass) -> DownstreamFailureKind {
    match failure {
        FailureClass::RequestRejected
        | FailureClass::InternalFailure => DownstreamFailureKind::CallerError,
        _ => DownstreamFailureKind::GatewayUnavailable,
    }
}

/// Who is to mend a failure.
pub fn downstream_failure_kind(failure: FailureClass) -> (kind: DownstreamFailureKind)
    ensures
        kind == failure_kind(failure),
{
    match failure {
        FailureClass::RequestRejected
        | FailureClass::InternalFailure => DownstreamFailureKind::CallerError,
        _ => DownstreamFailureKind::GatewayUnavailable,
    }
}

/// Who is to mend a failure that the upstream answered with.
pub fn downstream_failure_kind_for_http(status: u16, body: Option<&str>) -> (kind:
    DownstreamFailureKind)
    ensures
        kind == failure_kind(
            http_class(status, optional_text(body), FailureClass::AccessTokenRejected),
        ),
{
    downstream_failure_kind(classify_request_http(status, body))
}

/// The fields of the failure that no account can serve a request.
pub open spec fn unavailable() -> PayloadView {
    PayloadView {
        code: Some("server_is_overloaded"@),
        message: Some(GATEWAY_UNAVAILABLE_MESSAGE@),
        error_type: None,
        plan_type: None,
        resets_at: None,
        resets_in_seconds: None,
    }
}

/// The fields of the failure that no account can serve a request.
pub fn gateway_unavailable_payload() -> (payload: SyntheticResponseFailedPayload)
    ensures
        payload@ == unavailable(),
{
    SyntheticResponseFailedPayload {
        code: Some("server_is_overloaded".to_owned()),
        message: Some(GATEWAY_UNAVAILABLE_MESSAGE.to_owned()),
        error_type: None,
        plan_type: None,
        resets_at: None,
        resets_in_seconds: None,
    }
}

/// When to try again after an answer: as the header says, else once a limit is lifted, else as the
/// message says.
pub open spec fn http_retry(
    headers: Option<&HeaderMap<HeaderValue>>,
    body: Option<Seq<char>>,
    now: Timestamp,
) -> Option<RetryView> {
    let payload = text_payload(body);
    let known = either(headers_delay(headers, now), resets_delay(payload, now));
    if known is Some {
        exact(known)
    } else {
        match either(payload.message, body) {
            Some(message) => message_hint(message),
            None => None,
        }
    }
}

/// When to try again after an answer, at `now`.
pub fn extract_http_retry_after_at(
    headers: Option<&HeaderMap<HeaderValue>>,
    body: Option<&str>,
    now: Timestamp,
) -> (retry_after: Option<RetryAfter>)
    requires
        in_calendar(now),
    ensures
        retry_view(retry_after) == http_retry(headers, optional_text(body), now),
{
    let context: AnalyzeErrorContext<'_> = AnalyzeErrorContext {
        status: 0,
        headers,
        body,
        explicit_code: None,
        explicit_message: None,
        explicit_error_type: None,
        explicit_plan_type: None,
        explicit_resets_at: None,
        explicit_resets_in_seconds: None,
        explicit_retry_after: None,
        unauthorized_failure: FailureClass::AccessTokenRejected,
        allow_message_retry_after: true,
    };
    analyze_error_at(context, parse_structured_error_body(body), now).retry_after
}

/// When to try again after an answer.
pub fn extract_http_retry_after(
    headers: Option<&HeaderMap<HeaderValue>>,
    body: Option<&str>,
) -> (retry_after: Option<RetryAfter>)
    ensures
        exists|now: Timestamp| #[trigger]
            in_calendar(now) && retry_view(retry_after) == http_retry(
                headers,
                optional_text(body),
                now,
            ),
{
    let now: Timestamp = utc_now();
    extract_http_retry_after_at(headers, body, now)
}

/// The headers of an answer, by reference.
pub open spec fn borrowed_headers<'a>(headers: Option<HeaderMap<HeaderValue>>) -> Option<
    &'a HeaderMap<HeaderValue>,
> {
    match headers {
        Some(headers) => Some(&headers),
        None => None,
    }
}

/// When to try again after a failed request; nothing is known where there was no answer.
pub open spec fn error_retry(error: TransportError, now: Timestamp) -> Option<RetryView> {
    match error {
        TransportError::Http { status: _, headers, body } => http_retry(
            borrowed_headers(headers),
            owned_text(body),
            now,
        ),
        _ => None,
    }
}

/// When to try again after a failed request, at `now`.
pub fn extract_retry_after_at(error: &TransportError, now: Timestamp) -> (retry_after: Option<
    RetryAfter,
>)
    requires
        in_calendar(now),
    ensures
        retry_view(retry_after) == error_retry(*error, now),
{
    match error {
        TransportError::Http { status: _, headers, body } => extract_http_retry_after_at(
            headers.as_ref(),
            borrowed(body),
            now,
        ),
        _ => None,
    }
}

/// When to try again after a failed request.
pub fn extract_retry_after(error: &TransportError) -> (retry_after: Option<RetryAfter>)
    ensures
        exists|now: Timestamp| #[trigger]
            in_calendar(now) && retry_view(retry_after) == error_retry(*error, now),
{
    let now: Timestamp = utc_now();
    extract_retry_after_at(error, now)
}

/// The delay of a failed request, at `now`. `hinted` is the delay that the answer names in words.
pub fn error_delay_at(
    error: &TransportError,
    hinted: Option<Delay>,
    now: Timestamp,
) -> (delay: Option<Delay>)
    requires
        in_calendar(now),
    ensures
        delay == delay_of(error_retry(*error, now), hinted),
        tellable(hinted) ==> tellable(delay),
{
    resolve_delay(&extract_retry_after_at(error, now), hinted)
}

/// The code of a failure that names none.
pub open spec fn fallback_code(status: u16, class: FailureClass) -> Seq<char> {
    match class {
        FailureClass::AccessTokenRejected | FailureClass::AuthInvalid => "invalid_api_key"@,
        FailureClass::RateLimited => "rate_limit_exceeded"@,
        FailureClass::QuotaExhausted => "insufficient_quota"@,
        FailureClass::RiskControlled => "forbidden"@,
        FailureClass::RequestRejected => if status == 400 {
            "invalid_request_error"@
        } else if status == 403 {
            "forbidden"@
        } else if status == 404 {
            "not_found"@
        } else if status == 408 {
            "request_timeout"@
        } else if status == 409 {
            "conflict"@
        } else if 500 <= status <= 599 {
            "internal_server_error"@
        } else {
            "http_error"@
        },
        FailureClass::TemporaryFailure | FailureClass::InternalFailure => if status == 408 {
            "request_timeout"@
        } else if 500 <= status <= 599 {
            "internal_server_error"@
        } else {
            "http_error"@
        },
    }
}

/// The code of an answer that names none.
pub open spec fn http_fallback_code(status: u16, body: Option<Seq<char>>) -> Seq<char> {
    fallback_code(status, http_class(status, body, FailureClass::AccessTokenRejected))
}

/// The code of an answer that names none.
pub fn fallback_error_code_for_http(status: u16, body: Option<&str>) -> (code: &'static str)
    ensures
        code@ == http_fallback_code(status, optional_text(body)),
{
    match classify_request_http(status, body) {
        FailureClass::AccessTokenRejected | FailureClass::AuthInvalid => "invalid_api_key",
        FailureClass::RateLimited => "rate_limit_exceeded",
        FailureClass::QuotaExhausted => "insufficient_quota",
        FailureClass::RiskControlled => "forbidden",
        FailureClass::RequestRejected => if status == 400 {
            "invalid_request_error"
        } else if status == 403 {
            "forbidden"
        } else if status == 404 {
            "not_found"
        } else if status == 408 {
            "request_timeout"
        } else if status == 409 {
            "conflict"
        } else if 500 <= status && status <= 599 {
            "internal_server_error"
        } else {
            "http_error"
        },
        FailureClass::TemporaryFailure | FailureClass::InternalFailure => if status == 408 {
            "request_timeout"
        } else if 500 <= status && status <= 599 {
            "internal_server_error"
        } else {
            "http_error"
        },
    }
}

/// The message of an answer that holds none.
pub open spec fn fallback_message(status: u16, retry_after: Option<Delay>) -> Seq<char> {
    if status == 429 && retry_after is Some {
        "Rate limit reached. Please try again in "@ + delay_text(retry_after->0) + "s."@
    } else {
        "Upstream request failed with status "@ + decimal(status as nat) + "."@
    }
}

/// A delay that can be told.
pub open spec fn tellable(retry_after: Option<Delay>) -> bool {
    retry_after is Some ==> in_range(retry_after->0)
}

/// The message of an answer that holds none.
pub fn fallback_error_message_for_http(status: u16, retry_after: Option<Delay>) -> (message: String)
    requires
        tellable(retry_after),
    ensures
        message@ == fallback_message(status, retry_after),
{
    if status == 429 {
        if let Some(delay) = retry_after {
            let mut message: String = "Rate limit reached. Please try again in ".to_owned();
            message.append(render_seconds(delay).as_str());
            message.append("s.");
            return message;
        }
    }
    let mut message: String = "Upstream request failed with status ".to_owned();
    message.append(decimal_text(status as u128).as_str());
    message.append(".");
    message
}

/// The fields of a failure, with a code and a message where there were none.
pub open spec fn filled(
    payload: PayloadView,
    code: Seq<char>,
    message: Seq<char>,
) -> PayloadView {
    PayloadView {
        code: Some(
            match payload.code {
                Some(code) => code,
                None => code,
            },
        ),
        message: Some(
            match payload.message {
                Some(message) => message,
                None => message,
            },
        ),
        ..payload
    }
}

fn fill(payload: StructuredErrorPayload, code: String, message: String) -> (filled_payload:
    SyntheticResponseFailedPayload)
    ensures
        filled_payload@ == filled(payload@, code@, message@),
{
    SyntheticResponseFailedPayload {
        code: Some(
            match payload.code {
                Some(code) => code,
                None => code,
            },
        ),
        message: Some(
            match payload.message {
                Some(message) => message,
                None => message,
            },
        ),
        error_type: payload.error_type,
        plan_type: payload.plan_type,
        resets_at: payload.resets_at,
        resets_in_seconds: payload.resets_in_seconds,
    }
}

/// The fields of a failed answer.
pub open spec fn http_failure_payload(
    status: u16,
    body: Option<Seq<char>>,
    retry_after: Option<Delay>,
) -> PayloadView {
    filled(
        text_payload(body),
        http_fallback_code(status, body),
        fallback_message(status, retry_after),
    )
}

/// The fields of a failed answer: what its body says, and what its status says where that is
/// missing.
pub fn synthetic_response_failed_payload_from_http_failure(
    status: u16,
    body: Option<&str>,
    retry_after: Option<Delay>,
) -> (payload: SyntheticResponseFailedPayload)
    requires
        tellable(retry_after),
    ensures
        payload@ == http_failure_payload(status, optional_text(body), retry_after),
{
    fill(
        parse_structured_error_body(body),
        fallback_error_code_for_http(status, body).to_owned(),
        fallback_error_message_for_http(status, retry_after),
    )
}

/// The code of a request that got no answer.
pub open spec fn transport_code(error: TransportError) -> Seq<char> {
    match error {
        TransportError::Http { status, headers: _, body } => http_fallback_code(
            status,
            owned_text(body),
        ),
        TransportError::Timeout => "request_timeout"@,
        TransportError::Network(_) => "network_error"@,
        TransportError::Build(_) => "internal_server_error"@,
        TransportError::RetryLimit => "retry_limit_reached"@,
    }
}

/// The fields of a failed request. `text` is what is shown of an error without an answer.
pub open spec fn transport_payload(
    error: TransportError,
    text: Seq<char>,
    retry_after: Option<Delay>,
) -> PayloadView {
    match error {
        TransportError::Http { status, headers: _, body } => http_failure_payload(
            status,
            owned_text(body),
            retry_after,
        ),
        _ => PayloadView {
            code: Some(transport_code(error)),
            message: Some(text),
            error_type: None,
            plan_type: None,
            resets_at: None,
            resets_in_seconds: None,
        },
    }
}

/// The fields of a failed request. `text` is what is shown of an error without an answer, and
/// `retry_after` when to try again.
pub fn synthetic_response_failed_payload_from_transport(
    error: &TransportError,
    text: &str,
    retry_after: Option<Delay>,
) -> (payload: SyntheticResponseFailedPayload)
    requires
        tellable(retry_after),
    ensures
        payload@ == transport_payload(*error, text@, retry_after),
{
    let code: &'static str = match error {
        TransportError::Http { status, headers: _, body } => {
            return synthetic_response_failed_payload_from_http_failure(
                *status,
                borrowed(body),
                retry_after,
            );
        },
        TransportError::Timeout => "request_timeout",
        TransportError::Network(_) => "network_error",
        TransportError::Build(_) => "internal_server_error",
        TransportError::RetryLimit => "retry_limit_reached",
    };
    SyntheticResponseFailedPayload {
        code: Some(code.to_owned()),
        message: Some(text.to_owned()),
        error_type: None,
        plan_type: None,
        resets_at: None,
        resets_in_seconds: None,
    }
}

/// An object with a text under a key, where there is one.
pub open spec fn with_text(object: JsonView, key: Seq<char>, text: Option<Seq<char>>) -> JsonView {
    match text {
        Some(text) => object.with(key, JsonView::Text(text)),
        None => object,
    }
}

/// An object with an integer under a key, where there is one.
pub open spec fn with_integer(object: JsonView, key: Seq<char>, n: Option<i64>) -> JsonView {
    match n {
        Some(n) => object.with(key, JsonView::Integer(n as int)),
        None => object,
    }
}

/// The first text that is there.
pub open spec fn or_text(text: Option<Seq<char>>, other: Seq<char>) -> Seq<char> {
    match text {
        Some(text) => text,
        None => other,
    }
}

/// The fields of a failure as an object, with a code and a message in any case.
pub open spec fn error_object(
    payload: PayloadView,
    code: Seq<char>,
    message: Seq<char>,
) -> JsonView {
    let named = JsonView::empty_object().with(
        "code"@,
        JsonView::Text(or_text(payload.code, code)),
    ).with("message"@, JsonView::Text(or_text(payload.message, message)));
    let typed = with_text(
        with_text(named, "type"@, payload.error_type),
        "plan_type"@,
        payload.plan_type,
    );
    with_integer(
        with_integer(typed, "resets_at"@, payload.resets_at),
        "resets_in_seconds"@,
        payload.resets_in_seconds,
    )
}

/// The fields of a failure as an object, with a code and a message in any case.
pub fn error_object_json(
    payload: &SyntheticResponseFailedPayload,
    code: &str,
    message: &str,
) -> (object: Json)
    ensures
        object@ == error_object(payload@, code@, message@),
{
    let code: &str = match &payload.code {
        Some(code) => code.as_str(),
        None => code,
    };
    let message: &str = match &payload.message {
        Some(message) => message.as_str(),
        None => message,
    };
    let mut object: Json = Json::object().with("code", Json::text(code)).with(
        "message",
        Json::text(message),
    );
    if let Some(error_type) = &payload.error_type {
        object.set("type", Json::text(error_type.as_str()));
    }
    if let Some(plan_type) = &payload.plan_type {
        object.set("plan_type", Json::text(plan_type.as_str()));
    }
    if let Some(resets_at) = payload.resets_at {
        object.set("resets_at", Json::integer(resets_at));
    }
    if let Some(resets_in_seconds) = payload.resets_in_seconds {
        object.set("resets_in_seconds", Json::integer(resets_in_seconds));
    }
    object
}

/// The number of the event behind the last one.
pub open spec fn next_sequence(last: Option<i64>) -> i64 {
    match last {
        Some(n) => if n == i64::MAX {
            n
        } else {
            (n + 1) as i64
        },
        None => 0,
    }
}

/// The number of the event behind the last one.
pub fn next_sequence_number(last: Option<i64>) -> (next: i64)
    ensures
        next == next_sequence(last),
{
    match last {
        Some(n) => if n == i64::MAX {
            n
        } else {
            n + 1
        },
        None => 0,
    }
}

/// The id of a response that the gateway ends itself.
pub open spec fn gateway_response_id(now: Timestamp) -> Seq<char> {
    "resp_gateway_"@ + signed_decimal(now.nanos as int / 1_000int)
}

/// The event that a response failed, made at `now`.
pub open spec fn failed_event(
    response_id: Option<Seq<char>>,
    sequence_number: i64,
    payload: PayloadView,
    now: Timestamp,
) -> JsonView {
    let response = JsonView::empty_object().with(
        "id"@,
        JsonView::Text(or_text(response_id, gateway_response_id(now))),
    ).with("object"@, JsonView::Text("response"@)).with(
        "created_at"@,
        JsonView::Integer(now.nanos as int / 1_000_000_000int),
    ).with("status"@, JsonView::Text("failed"@)).with("background"@, JsonView::Bool(false)).with(
        "error"@,
        error_object(payload, "internal_server_error"@, "Upstream request failed."@),
    ).with("incomplete_details"@, JsonView::Null);
    JsonView::empty_object().with("type"@, JsonView::Text("response.failed"@)).with(
        "sequence_number"@,
        JsonView::Integer(sequence_number as int),
    ).with("response"@, response)
}

/// The event that a response failed, made at `now`.
pub fn synthetic_response_failed_json_at(
    last_response_id: Option<&str>,
    sequence_number: i64,
    payload: &SyntheticResponseFailedPayload,
    now: Timestamp,
) -> (event: Json)
    requires
        in_calendar(now),
    ensures
        event@ == failed_event(optional_text(last_response_id), sequence_number, payload@, now),
{
    let response_id: String = match last_response_id {
        Some(id) => id.to_owned(),
        None => {
            let mut id: String = "resp_gateway_".to_owned();
            id.append(signed_decimal_text(whole_micros(now)).as_str());
            id
        },
    };
    let error: Json = error_object_json(
        payload,
        "internal_server_error",
        "Upstream request failed.",
    );
    let response: Json = Json::object().with("id", Json::Text(response_id)).with(
        "object",
        Json::text("response"),
    ).with("created_at", Json::integer(whole_seconds(now) as i64)).with(
        "status",
        Json::text("failed"),
    ).with("background", Json::Bool(false)).with("error", error).with(
        "incomplete_details",
        Json::Null,
    );
    Json::object().with("type", Json::text("response.failed")).with(
        "sequence_number",
        Json::integer(sequence_number),
    ).with("response", response)
}

/// An event of a stream: its name and its data.
pub open spec fn sse_text(name: Seq<char>, data: JsonView) -> Seq<char> {
    "event: "@ + name + "\ndata: "@ + json_text(data) + "\n\n"@
}

/// An event of a stream, in bytes.
pub open spec fn sse_bytes(name: Seq<char>, data: JsonView) -> Seq<u8> {
    encode_utf8(sse_text(name, data))
}

/// An event of a stream, in bytes.
pub fn render_sse_event_bytes(name: &str, data: &Json) -> (bytes: Vec<u8>)
    ensures
        bytes@ == sse_bytes(name@, data@),
{
    let mut text: String = "event: ".to_owned();
    text.append(name);
    text.append("\ndata: ");
    text.append(render_json(data).as_str());
    text.append("\n\n");
    text.as_str().as_bytes_vec()
}

/// The bytes of the event that a response failed.
pub fn render_synthetic_response_failed_event_with_metadata(
    response_id: Option<&str>,
    sequence_number: i64,
    payload: &SyntheticResponseFailedPayload,
) -> (bytes: Vec<u8>)
    ensures
        exists|now: Timestamp| #[trigger]
            in_calendar(now) && bytes@ == sse_bytes(
                "response.failed"@,
                failed_event(optional_text(response_id), sequence_number, payload@, now),
            ),
{
    let now: Timestamp = utc_now();
    let event: Json = synthetic_response_failed_json_at(response_id, sequence_number, payload, now);
    render_sse_event_bytes("response.failed", &event)
}

/// The bytes of the event that a response failed, numbered behind the last event.
pub fn render_synthetic_response_failed_event(
    last_response_id: Option<&str>,
    last_sequence_number: Option<i64>,
    payload: &SyntheticResponseFailedPayload,
) -> (bytes: Vec<u8>)
    ensures
        exists|now: Timestamp| #[trigger]
            in_calendar(now) && bytes@ == sse_bytes(
                "response.failed"@,
                failed_event(
                    optional_text(last_response_id),
                    next_sequence(last_sequence_number),
                    payload@,
                    now,
                ),
            ),
{
    render_synthetic_response_failed_event_with_metadata(
        last_response_id,
        next_sequence_number(last_sequence_number),
        payload,
    )
}

/// The event of an error, for general clients.
pub open spec fn error_event(sequence_number: i64, payload: PayloadView) -> JsonView {
    JsonView::empty_object().with("type"@, JsonView::Text("error"@)).with(
        "code"@,
        JsonView::Text(or_text(payload.code, "internal_server_error"@)),
    ).with(
        "message"@,
        JsonView::Text(or_text(payload.message, "Upstream request failed."@)),
    ).with("sequence_number"@, JsonView::Integer(sequence_number as int))
}

/// The bytes of the event of an error, for general clients.
pub fn render_openai_stream_error_event_with_sequence(
    sequence_number: i64,
    payload: &SyntheticResponseFailedPayload,
) -> (bytes: Vec<u8>)
    ensures
        bytes@ == sse_bytes("error"@, error_event(sequence_number, payload@)),
{
    let code: &str = match &payload.code {
        Some(code) => code.as_str(),
        None => "internal_server_error",
    };
    let message: &str = match &payload.message {
        Some(message) => message.as_str(),
        None => "Upstream request failed.",
    };
    let event: Json = Json::object().with("type", Json::text("error")).with(
        "code",
        Json::text(code),
    ).with("message", Json::text(message)).with("sequence_number", Json::integer(sequence_number));
    render_sse_event_bytes("error", &event)
}

/// The bytes of the event of an error, numbered behind the last event.
pub fn render_openai_stream_error_event(
    last_sequence_number: Option<i64>,
    payload: &SyntheticResponseFailedPayload,
) -> (bytes: Vec<u8>)
    ensures
        bytes@ == sse_bytes(
            "error"@,
            error_event(next_sequence(last_sequence_number), payload@),
        ),
{
    render_openai_stream_error_event_with_sequence(
        next_sequence_number(last_sequence_number),
        payload,
    )
}

}
