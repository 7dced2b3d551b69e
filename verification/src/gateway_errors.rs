//! How a failed request is answered.
use crate::accounts::PoolBlockSummary;
use crate::classifier::{classify_request_error, transport_class, TransportError};
use crate::error_semantics::{
    borrowed, delay_of, owned_text, parse_structured_error_value, payload_of, resolve_delay,
    retry_view, PayloadView, StructuredErrorPayload,
};
use crate::failover::{FailoverFailure, RefreshFailure};
use crate::headers::{
    has_room, header_entries, header_value, insert_value, is_header_value, new_headers, no_entries,
    remove_name,
};
use crate::http_shape::{
    lemma_cache_control, lemma_content_type, lemma_plain_is_lower, openai_headers,
    sanitize_response_headers, sanitized, shape_openai_http_headers,
};
use crate::json::{json_text, optional_text, parse_json, parsed_json, render_json, Json, JsonView};
use crate::models::ResponseShape;
use crate::responses::failure::{
    downstream_failure_kind, error_delay_at, error_object, error_object_json, error_retry,
    failed_event, failure_kind, fallback_error_code_for_http, gateway_unavailable_payload,
    http_failure_payload, http_fallback_code, or_text, render_sse_event_bytes, sse_bytes,
    synthetic_response_failed_json_at, synthetic_response_failed_payload_from_http_failure,
    synthetic_response_failed_payload_from_transport, tellable, transport_payload, unavailable,
    DownstreamFailureKind, SyntheticResponseFailedPayload,
};
use crate::status::{name_or, reason_or};
use crate::text::{same_text, trim, trimmed};
use crate::time::{in_calendar, utc_now, Delay, Timestamp};
use http::{HeaderMap, HeaderValue};
use vstd::prelude::*;
use vstd::utf8::encode_utf8;

verus! {

/// The content type of JSON.
pub const JSON_CONTENT_TYPE: &'static str = "application/json";

/// The content type of a stream of events.
pub const SSE_CONTENT_TYPE: &'static str = "text/event-stream";

/// Is a failure answered as JSON, or by the stream that the client waits for?
#[derive(Debug, Clone, Copy, PartialEq, Eq, Structural)]
pub enum FailureRenderMode {
    UnaryJson,
    ResponsesPreStream,
}

/// Where a failure of the gateway itself shows.
#[derive(Debug, Clone, Copy, PartialEq, Eq, Structural)]
pub enum InternalFailoverSurface {
    CodexUnary,
    OpenAiUnary,
    CodexResponsesPreStream,
    OpenAiResponsesPreStream,
    WebsocketFailover,
}

impl InternalFailoverSurface {
    /// The name of a surface.
    pub open spec fn name(self) -> Seq<char> {
        match self {
            InternalFailoverSurface::CodexUnary => "codex_unary"@,
            InternalFailoverSurface::OpenAiUnary => "openai_unary"@,
            InternalFailoverSurface::CodexResponsesPreStream => "codex_responses_pre_stream"@,
            InternalFailoverSurface::OpenAiResponsesPreStream => "openai_responses_pre_stream"@,
            InternalFailoverSurface::WebsocketFailover => "websocket_failover"@,
        }
    }

    /// The name of a surface.
    pub fn as_str(self) -> (name: &'static str)
        ensures
            name@ == self.name(),
    {
        match self {
            InternalFailoverSurface::CodexUnary => "codex_unary",
            InternalFailoverSurface::OpenAiUnary => "openai_unary",
            InternalFailoverSurface::CodexResponsesPreStream => "codex_responses_pre_stream",
            InternalFailoverSurface::OpenAiResponsesPreStream => "openai_responses_pre_stream",
            InternalFailoverSurface::WebsocketFailover => "websocket_failover",
        }
    }
}

/// Where a failure shows that is answered in this way.
pub fn failover_surface(shape: ResponseShape, mode: FailureRenderMode) -> (surface:
    InternalFailoverSurface)
    ensures
        surface == match (shape, mode) {
            (
                ResponseShape::Codex,
                FailureRenderMode::UnaryJson,
            ) => InternalFailoverSurface::CodexUnary,
            (
                ResponseShape::OpenAi,
                FailureRenderMode::UnaryJson,
            ) => InternalFailoverSurface::OpenAiUnary,
            (
                ResponseShape::Codex,
                FailureRenderMode::ResponsesPreStream,
            ) => InternalFailoverSurface::CodexResponsesPreStream,
            (
                ResponseShape::OpenAi,
                FailureRenderMode::ResponsesPreStream,
            ) => InternalFailoverSurface::OpenAiResponsesPreStream,
        },
{
    match (shape, mode) {
        (
            ResponseShape::Codex,
            FailureRenderMode::UnaryJson,
        ) => InternalFailoverSurface::CodexUnary,
        (
            ResponseShape::OpenAi,
            FailureRenderMode::UnaryJson,
        ) => InternalFailoverSurface::OpenAiUnary,
        (
            ResponseShape::Codex,
            FailureRenderMode::ResponsesPreStream,
        ) => InternalFailoverSurface::CodexResponsesPreStream,
        (
            ResponseShape::OpenAi,
            FailureRenderMode::ResponsesPreStream,
        ) => InternalFailoverSurface::OpenAiResponsesPreStream,
    }
}

/// The body of an answer.
#[derive(Debug)]
pub enum ResponseBody {
    Json(Json),
    Text(String),
    Events(Vec<u8>),
}

/// An answer to a client.
#[derive(Debug)]
pub struct GatewayResponse {
    pub status: u16,
    pub headers: HeaderMap<HeaderValue>,
    pub body: ResponseBody,
}

/// The model of a body.
pub enum BodyView {
    Json(JsonView),
    Text(Seq<char>),
    Events(Seq<u8>),
}

/// The model of an answer.
pub struct ResponseView {
    pub status: u16,
    pub headers: Map<Seq<char>, Seq<Seq<u8>>>,
    pub body: BodyView,
}

impl View for GatewayResponse {
    type V = ResponseView;

    open spec fn view(&self) -> ResponseView {
        ResponseView {
            status: self.status,
            headers: header_entries(self.headers),
            body: match self.body {
                ResponseBody::Json(json) => BodyView::Json(json@),
                ResponseBody::Text(text) => BodyView::Text(text@),
                ResponseBody::Events(bytes) => BodyView::Events(bytes@),
            },
        }
    }
}

/// An answer in JSON without headers of its own.
pub open spec fn plain_json(status: u16, json: JsonView) -> ResponseView {
    ResponseView { status, headers: no_entries(), body: BodyView::Json(json) }
}

/// An error that holds a message alone.
pub open spec fn message_error(message: Seq<char>) -> JsonView {
    JsonView::empty_object().with(
        "error"@,
        JsonView::empty_object().with("message"@, JsonView::Text(message)),
    )
}

/// The answer that holds a message alone.
pub fn json_error(status: u16, message: &str) -> (response: GatewayResponse)
    ensures
        response@ == plain_json(status, message_error(message@)),
{
    let error: Json = Json::object().with("message", Json::text(message));
    GatewayResponse {
        status,
        headers: new_headers(),
        body: ResponseBody::Json(Json::object().with("error", error)),
    }
}

/// Headers with a content type in place of any other.
pub open spec fn with_content_type(
    entries: Map<Seq<char>, Seq<Seq<u8>>>,
    value: Seq<char>,
) -> Map<Seq<char>, Seq<Seq<u8>>> {
    with_header(entries.remove("content-type"@), "content-type"@, value)
}

/// Headers with a value under a name in place of any other, where the value is one of a header.
pub open spec fn with_header(
    entries: Map<Seq<char>, Seq<Seq<u8>>>,
    name: Seq<char>,
    value: Seq<char>,
) -> Map<Seq<char>, Seq<Seq<u8>>> {
    if header_value(encode_utf8(value)) {
        entries.insert(name, seq![encode_utf8(value)])
    } else {
        entries
    }
}

fn insert_header(headers: &mut HeaderMap<HeaderValue>, name: &str, value: &str)
    requires
        has_room(*old(headers)),
        crate::headers::plain_name(name@),
    ensures
        header_entries(*final(headers)) == with_header(
            header_entries(*old(headers)),
            name@,
            value@,
        ),
{
    let bytes: Vec<u8> = value.as_bytes_vec();
    if is_header_value(bytes.as_slice()) {
        insert_value(headers, name, bytes.as_slice());
    }
}

/// Puts a content type in place of any other.
pub fn set_content_type(headers: &mut HeaderMap<HeaderValue>, value: &str)
    requires
        has_room(*old(headers)),
    ensures
        header_entries(*final(headers)) == with_content_type(header_entries(*old(headers)), value@),
{
    proof {
        lemma_content_type();
        lemma_plain_is_lower("content-type"@);
    }
    remove_name(headers, "content-type");
    insert_header(headers, "content-type", value);
}

/// The answer to a refused refresh: its body where that is JSON, else a message.
pub open spec fn refresh_response(error: RefreshFailure) -> ResponseView {
    match parsed_json(error.body@) {
        Some(json) => plain_json(error.status, json),
        None => plain_json(error.status, message_error(error.body@)),
    }
}

/// The answer to a refused refresh.
pub fn refresh_failure_response(error: &RefreshFailure) -> (response: GatewayResponse)
    ensures
        response@ == refresh_response(*error),
{
    match parse_json(error.body.as_str()) {
        Some(json) => GatewayResponse {
            status: error.status,
            headers: new_headers(),
            body: ResponseBody::Json(json),
        },
        None => json_error(error.status, error.body.as_str()),
    }
}

/// A failure as the body of an answer.
pub open spec fn structured_error(payload: PayloadView) -> JsonView {
    JsonView::empty_object().with(
        "error"@,
        error_object(payload, "internal_server_error"@, "Upstream request failed."@),
    )
}

fn structured_error_response(status: u16, payload: &SyntheticResponseFailedPayload) -> (response:
    GatewayResponse)
    ensures
        response@ == plain_json(status, structured_error(payload@)),
{
    let error: Json = error_object_json(
        payload,
        "internal_server_error",
        "Upstream request failed.",
    );
    GatewayResponse {
        status,
        headers: new_headers(),
        body: ResponseBody::Json(Json::object().with("error", error)),
    }
}

/// Is this one of the types of error that general clients know?
pub open spec fn known_error_type(error_type: Option<Seq<char>>) -> bool {
    error_type == Some("authentication_error"@) || error_type == Some("permission_error"@)
        || error_type == Some("rate_limit_error"@) || error_type == Some("server_error"@)
        || error_type == Some("invalid_request_error"@)
}

fn is_one_of_known_types(error_type: Option<&str>) -> (known: bool)
    ensures
        known == known_error_type(optional_text(error_type)),
{
    match error_type {
        Some(text) => same_text(text, "authentication_error") || same_text(
            text,
            "permission_error",
        ) || same_text(text, "rate_limit_error") || same_text(text, "server_error") || same_text(
            text,
            "invalid_request_error",
        ),
        None => false,
    }
}

/// The type of an error that names none which general clients know.
pub open spec fn default_error_type(status: u16, code: Seq<char>) -> Seq<char> {
    if status == 401 || code == "invalid_api_key"@ {
        "authentication_error"@
    } else if status == 403 || code == "insufficient_quota"@ || code == "forbidden"@ {
        "permission_error"@
    } else if status == 429 {
        "rate_limit_error"@
    } else if 500 <= status <= 599 {
        "server_error"@
    } else {
        "invalid_request_error"@
    }
}

/// The type of an error as general clients know it.
pub open spec fn openai_type(error_type: Option<Seq<char>>, status: u16, code: Seq<char>) -> Seq<
    char,
> {
    if known_error_type(error_type) {
        error_type->0
    } else {
        default_error_type(status, code)
    }
}

/// The type of an error that names none which general clients know.
pub fn default_openai_error_type(status: u16, code: &str) -> (error_type: &'static str)
    ensures
        error_type@ == default_error_type(status, code@),
{
    if status == 401 || same_text(code, "invalid_api_key") {
        "authentication_error"
    } else if status == 403 || same_text(code, "insufficient_quota") || same_text(
        code,
        "forbidden",
    ) {
        "permission_error"
    } else if status == 429 {
        "rate_limit_error"
    } else if 500 <= status && status <= 599 {
        "server_error"
    } else {
        "invalid_request_error"
    }
}

/// The type of an error as general clients know it.
pub fn normalize_openai_error_type(error_type: Option<&str>, status: u16, code: &str) -> (normalized:
    String)
    ensures
        normalized@ == openai_type(optional_text(error_type), status, code@),
{
    if is_one_of_known_types(error_type) {
        if let Some(text) = error_type {
            return text.to_owned();
        }
    }
    default_openai_error_type(status, code).to_owned()
}

/// An error as general clients know it.
pub open spec fn openai_error(
    message: Seq<char>,
    error_type: Seq<char>,
    param: JsonView,
    code: Seq<char>,
) -> JsonView {
    JsonView::empty_object().with(
        "error"@,
        JsonView::empty_object().with("message"@, JsonView::Text(message)).with(
            "type"@,
            JsonView::Text(error_type),
        ).with("param"@, param).with("code"@, JsonView::Text(code)),
    )
}

fn openai_error_json(message: &str, error_type: &str, param: Json, code: &str) -> (json: Json)
    ensures
        json@ == openai_error(message@, error_type@, param@, code@),
{
    let error: Json = Json::object().with("message", Json::text(message)).with(
        "type",
        Json::text(error_type),
    ).with("param", param).with("code", Json::text(code));
    Json::object().with("error", error)
}

/// A failure as general clients know it.
pub open spec fn openai_failure(status: u16, payload: PayloadView) -> JsonView {
    let code = or_text(payload.code, http_fallback_code(status, None));
    openai_error(
        or_text(payload.message, reason_or(status, "gateway request failed"@)),
        openai_type(payload.error_type, status, code),
        JsonView::Null,
        code,
    )
}

/// A failure as general clients know it.
pub fn openai_error_body(status: u16, payload: &SyntheticResponseFailedPayload) -> (body: Json)
    ensures
        body@ == openai_failure(status, payload@),
{
    let message: String = match &payload.message {
        Some(message) => message.clone(),
        None => name_or(status, "gateway request failed"),
    };
    let code: String = match &payload.code {
        Some(code) => code.clone(),
        None => fallback_error_code_for_http(status, None).to_owned(),
    };
    let error_type: String = normalize_openai_error_type(
        borrowed(&payload.error_type),
        status,
        code.as_str(),
    );
    openai_error_json(message.as_str(), error_type.as_str(), Json::Null, code.as_str())
}

/// An answer to a general client.
pub open spec fn openai_response(
    status: u16,
    headers: Map<Seq<char>, Seq<Seq<u8>>>,
    body: JsonView,
) -> ResponseView {
    ResponseView {
        status,
        headers: with_content_type(openai_headers(headers), JSON_CONTENT_TYPE@),
        body: BodyView::Json(body),
    }
}

fn openai_json_response(status: u16, headers: HeaderMap<HeaderValue>, body: Json) -> (response:
    GatewayResponse)
    ensures
        response@ == openai_response(status, header_entries(headers), body@),
{
    let mut shaped: HeaderMap<HeaderValue> = shape_openai_http_headers(headers);
    set_content_type(&mut shaped, JSON_CONTENT_TYPE);
    GatewayResponse { status, headers: shaped, body: ResponseBody::Json(body) }
}

/// The answer to a general client that holds a message alone.
pub open spec fn openai_message(
    status: u16,
    headers: Map<Seq<char>, Seq<Seq<u8>>>,
    message: Seq<char>,
) -> ResponseView {
    openai_response(status, headers, openai_failure(status, message_payload(None, message)))
}

/// A failure with a message, and a code where there is one.
pub open spec fn message_payload(code: Option<Seq<char>>, message: Seq<char>) -> PayloadView {
    PayloadView {
        code,
        message: Some(message),
        error_type: None,
        plan_type: None,
        resets_at: None,
        resets_in_seconds: None,
    }
}

fn only_message(code: Option<String>, message: &str) -> (payload: SyntheticResponseFailedPayload)
    ensures
        payload@ == message_payload(owned_text(code), message@),
{
    SyntheticResponseFailedPayload {
        code,
        message: Some(message.to_owned()),
        error_type: None,
        plan_type: None,
        resets_at: None,
        resets_in_seconds: None,
    }
}

fn openai_json_error_with_headers(status: u16, headers: HeaderMap<HeaderValue>, message: &str) -> (
    response: GatewayResponse)
    ensures
        response@ == openai_message(status, header_entries(headers), message@),
{
    let body: Json = openai_error_body(status, &only_message(None, message));
    openai_json_response(status, headers, body)
}

/// The answer to a general client that holds a message alone.
pub fn openai_json_error(status: u16, message: &str) -> (response: GatewayResponse)
    ensures
        response@ == openai_message(status, no_entries(), message@),
{
    openai_json_error_with_headers(status, new_headers(), message)
}

/// Is this the body of an error that general clients know as it is?
pub open spec fn passes_as_is(body: JsonView) -> bool {
    match body.field("error"@) {
        Some(error) => error is Object && error.text_field("message"@) is Some && known_error_type(
            error.text_field("type"@),
        ),
        None => false,
    }
}

/// Is this the body of an error that general clients know as it is?
pub fn is_passthrough_openai_error_body(body: &Json) -> (passes: bool)
    ensures
        passes == passes_as_is(body@),
{
    match body.get("error") {
        Some(error) => error.is_object() && error.get_str("message").is_some()
            && is_one_of_known_types(error.get_str("type")),
        None => false,
    }
}

/// What a body holds where its error has no message: the text itself, its detail, or any other
/// value as text.
pub open spec fn body_message(body: JsonView) -> Option<Seq<char>> {
    match body {
        JsonView::Text(text) => Some(text),
        JsonView::Object(_) => body.text_field("detail"@),
        _ => Some(json_text(body)),
    }
}

/// The failure that the body of an answer tells of.
pub open spec fn upstream_payload(status: u16, text: Option<Seq<char>>, body: JsonView) -> PayloadView {
    let source = match body.field("error"@) {
        Some(error) => error,
        None => body,
    };
    let payload = payload_of(source);
    PayloadView {
        code: Some(or_text(payload.code, http_fallback_code(status, text))),
        message: match payload.message {
            Some(message) => Some(message),
            None => body_message(body),
        },
        ..payload
    }
}

/// The failure that the body of an answer tells of. `text` is the body as it came.
pub fn openai_error_payload_from_upstream_json(
    status: u16,
    text: Option<&str>,
    body: &Json,
) -> (payload: SyntheticResponseFailedPayload)
    ensures
        payload@ == upstream_payload(status, optional_text(text), body@),
{
    let source: &Json = match body.get("error") {
        Some(error) => error,
        None => body,
    };
    let payload: StructuredErrorPayload = parse_structured_error_value(source);
    let message: Option<String> = match payload.message {
        Some(message) => Some(message),
        None => match body {
            Json::Text(text) => Some(text.clone()),
            Json::Object(_) => match body.get_str("detail") {
                Some(detail) => Some(detail.to_owned()),
                None => None,
            },
            _ => Some(render_json(body)),
        },
    };
    SyntheticResponseFailedPayload {
        code: Some(
            match payload.code {
                Some(code) => code,
                None => fallback_error_code_for_http(status, text).to_owned(),
            },
        ),
        message,
        error_type: payload.error_type,
        plan_type: payload.plan_type,
        resets_at: payload.resets_at,
        resets_in_seconds: payload.resets_in_seconds,
    }
}

/// The body that a general client gets for the body of an answer: only the fields that it knows.
pub open spec fn openai_body_of(status: u16, text: Option<Seq<char>>, body: JsonView) -> JsonView {
    if passes_as_is(body) {
        let error = body.field("error"@)->0;
        let code = or_text(error.text_field("code"@), http_fallback_code(status, text));
        openai_error(
            error.text_field("message"@)->0,
            openai_type(error.text_field("type"@), status, code),
            match error.field("param"@) {
                Some(param) => param,
                None => JsonView::Null,
            },
            code,
        )
    } else {
        openai_failure(status, upstream_payload(status, text, body))
    }
}

/// The body that a general client gets for the body of an answer. `text` is the body as it came.
pub fn openai_error_body_from_upstream_json(status: u16, text: Option<&str>, body: &Json) -> (shaped:
    Json)
    ensures
        shaped@ == openai_body_of(status, optional_text(text), body@),
{
    if is_passthrough_openai_error_body(body) {
        if let Some(error) = body.get("error") {
            if let Some(message) = error.get_str("message") {
                let code: String = match error.get_str("code") {
                    Some(code) => code.to_owned(),
                    None => fallback_error_code_for_http(status, text).to_owned(),
                };
                let error_type: String = normalize_openai_error_type(
                    error.get_str("type"),
                    status,
                    code.as_str(),
                );
                let param: Json = match error.get("param") {
                    Some(param) => param.clone(),
                    None => Json::Null,
                };
                return openai_error_json(message, error_type.as_str(), param, code.as_str());
            }
        }
    }
    openai_error_body(status, &openai_error_payload_from_upstream_json(status, text, body))
}

/// What a general client is told of an answer whose body is no JSON.
pub open spec fn text_message(status: u16, body: Option<Seq<char>>) -> Seq<char> {
    if body is Some && trimmed(body->0).len() > 0 {
        trimmed(body->0)
    } else {
        reason_or(status, "Upstream request failed"@)
    }
}

/// The answer that a general client gets for an answer of the upstream.
pub open spec fn openai_upstream_response(
    status: u16,
    headers: Map<Seq<char>, Seq<Seq<u8>>>,
    body: Option<Seq<char>>,
) -> ResponseView {
    let json = match body {
        Some(text) => parsed_json(text),
        None => None,
    };
    match json {
        Some(json) => openai_response(status, headers, openai_body_of(status, body, json)),
        None => openai_message(status, headers, text_message(status, body)),
    }
}

fn openai_error_response_from_upstream_body(
    status: u16,
    headers: HeaderMap<HeaderValue>,
    body: Option<&str>,
) -> (response: GatewayResponse)
    ensures
        response@ == openai_upstream_response(
            status,
            header_entries(headers),
            optional_text(body),
        ),
{
    if let Some(text) = body {
        if let Some(json) = parse_json(text) {
            let shaped: Json = openai_error_body_from_upstream_json(status, body, &json);
            return openai_json_response(status, headers, shaped);
        }
        let message: String = trim(text);
        if message.as_str().unicode_len() > 0 {
            return openai_json_error_with_headers(status, headers, message.as_str());
        }
    }
    let message: String = name_or(status, "Upstream request failed");
    openai_json_error_with_headers(status, headers, message.as_str())
}

/// The answer that a general client gets where a refresh was refused.
pub fn openai_refresh_failure_response(error: &RefreshFailure) -> (response: GatewayResponse)
    ensures
        response@ == openai_upstream_response(error.status, no_entries(), Some(error.body@)),
{
    openai_error_response_from_upstream_body(
        error.status,
        new_headers(),
        Some(error.body.as_str()),
    )
}

/// Do the headers of an answer leave room for the headers of another?
pub open spec fn headers_fit(error: TransportError) -> bool {
    match error {
        TransportError::Http { status: _, headers: Some(headers), body: _ } => has_room(headers),
        _ => true,
    }
}

/// The headers of a failed answer that a client gets.
pub open spec fn forwarded(headers: Option<HeaderMap<HeaderValue>>) -> Map<
    Seq<char>,
    Seq<Seq<u8>>,
> {
    match headers {
        Some(headers) => sanitized(header_entries(headers)),
        None => no_entries(),
    }
}

fn forward_headers(headers: &Option<HeaderMap<HeaderValue>>) -> (kept: HeaderMap<HeaderValue>)
    requires
        headers is Some ==> has_room(headers->0),
    ensures
        header_entries(kept) == forwarded(*headers),
{
    match headers {
        Some(headers) => sanitize_response_headers(headers),
        None => new_headers(),
    }
}

/// The answer to a failed request: as the upstream gave it, or a message where it gave none.
pub open spec fn transport_response(error: TransportError, text: Seq<char>) -> ResponseView {
    match error {
        TransportError::Http { status, headers, body } => ResponseView {
            status,
            headers: forwarded(headers),
            body: BodyView::Text(or_text(owned_text(body), ""@)),
        },
        _ => plain_json(502, message_error(text)),
    }
}

/// The answer to a failed request. `text` is what is shown of an error without an answer.
pub fn transport_error_response_ref(error: &TransportError, text: &str) -> (response:
    GatewayResponse)
    requires
        headers_fit(*error),
    ensures
        response@ == transport_response(*error, text@),
{
    match error {
        TransportError::Http { status, headers, body } => {
            let body: String = match body {
                Some(body) => body.clone(),
                None => "".to_owned(),
            };
            GatewayResponse {
                status: *status,
                headers: forward_headers(headers),
                body: ResponseBody::Text(body),
            }
        },
        _ => json_error(502, text),
    }
}

/// What the gateway says of its own failures: the name of the status, and no more.
pub open spec fn public_message(status: u16) -> Seq<char> {
    reason_or(status, "Internal Server Error"@)
}

/// What the gateway says of its own failures.
pub fn public_internal_error_message(status: u16) -> (message: String)
    ensures
        message@ == public_message(status),
{
    name_or(status, "Internal Server Error")
}

/// The answer of a failed request to a general client. What is not an answer of the upstream is not
/// told.
pub open spec fn openai_transport_response(error: TransportError) -> ResponseView {
    match error {
        TransportError::Http { status, headers, body } => openai_upstream_response(
            status,
            forwarded(headers),
            owned_text(body),
        ),
        _ => openai_message(502, no_entries(), public_message(502)),
    }
}

/// The answer of a failed request to a general client.
pub fn openai_transport_error_response_ref(error: &TransportError) -> (response: GatewayResponse)
    requires
        headers_fit(*error),
    ensures
        response@ == openai_transport_response(*error),
{
    match error {
        TransportError::Http { status, headers, body } => openai_error_response_from_upstream_body(
            *status,
            forward_headers(headers),
            borrowed(body),
        ),
        _ => openai_json_error(502, public_internal_error_message(502).as_str()),
    }
}

/// The answer that no account can serve a request.
pub open spec fn unavailable_response(shape: ResponseShape) -> ResponseView {
    match shape {
        ResponseShape::Codex => plain_json(503, structured_error(unavailable())),
        ResponseShape::OpenAi => openai_response(
            503,
            no_entries(),
            openai_failure(503, unavailable()),
        ),
    }
}

/// The answer that no account can serve a request.
pub fn render_gateway_unavailable_response(shape: ResponseShape) -> (response: GatewayResponse)
    ensures
        response@ == unavailable_response(shape),
{
    let payload: SyntheticResponseFailedPayload = gateway_unavailable_payload();
    match shape {
        ResponseShape::Codex => structured_error_response(503, &payload),
        ResponseShape::OpenAi => {
            let body: Json = openai_error_body(503, &payload);
            openai_json_response(503, new_headers(), body)
        },
    }
}

/// The answer where every account is blocked.
pub fn pool_blocked_response(summary: PoolBlockSummary) -> (response: GatewayResponse)
    ensures
        response@ == unavailable_response(ResponseShape::Codex),
{
    render_gateway_unavailable_response(ResponseShape::Codex)
}

/// The answer to a general client where every account is blocked.
pub fn openai_pool_blocked_response(summary: PoolBlockSummary) -> (response: GatewayResponse)
    ensures
        response@ == unavailable_response(ResponseShape::OpenAi),
{
    render_gateway_unavailable_response(ResponseShape::OpenAi)
}

/// Who is to mend a failure.
pub open spec fn kind_of(error: FailoverFailure) -> DownstreamFailureKind {
    match error {
        FailoverFailure::Refresh(_)
        | FailoverFailure::PoolBlocked(_) => DownstreamFailureKind::GatewayUnavailable,
        FailoverFailure::Transport(error) => failure_kind(transport_class(error)),
        FailoverFailure::CallerJson { .. }
        | FailoverFailure::Internal { .. } => DownstreamFailureKind::CallerError,
    }
}

/// Who is to mend a failure.
pub fn failover_failure_kind(error: &FailoverFailure) -> (kind: DownstreamFailureKind)
    ensures
        kind == kind_of(*error),
{
    match error {
        FailoverFailure::Refresh(_)
        | FailoverFailure::PoolBlocked(_) => DownstreamFailureKind::GatewayUnavailable,
        FailoverFailure::Transport(error) => downstream_failure_kind(classify_request_error(error)),
        FailoverFailure::CallerJson { .. }
        | FailoverFailure::Internal { .. } => DownstreamFailureKind::CallerError,
    }
}

/// Do the headers of a failed answer leave room?
pub open spec fn failure_fits(error: FailoverFailure) -> bool {
    match error {
        FailoverFailure::Transport(error) => headers_fit(error),
        _ => true,
    }
}

/// Is what the upstream answered passed on as it is? Codex clients get it so in one piece.
pub open spec fn passed_on(
    error: FailoverFailure,
    shape: ResponseShape,
    mode: FailureRenderMode,
) -> bool {
    &&& shape == ResponseShape::Codex
    &&& mode == FailureRenderMode::UnaryJson
    &&& error matches FailoverFailure::Transport(error) && error is Http
}

/// The answer to a failed request in one piece.
pub open spec fn unary_response(
    error: FailoverFailure,
    shape: ResponseShape,
    text: Seq<char>,
) -> ResponseView {
    if passed_on(error, shape, FailureRenderMode::UnaryJson) {
        transport_response(error->Transport_0, text)
    } else if kind_of(error) == DownstreamFailureKind::GatewayUnavailable {
        unavailable_response(shape)
    } else {
        match (shape, error) {
            (ResponseShape::Codex, FailoverFailure::Transport(error)) => transport_response(
                error,
                text,
            ),
            (ResponseShape::Codex, FailoverFailure::CallerJson { status, message }) => plain_json(
                status,
                message_error(message@),
            ),
            (ResponseShape::Codex, FailoverFailure::Internal { status, detail: _ }) => plain_json(
                status,
                message_error(public_message(status)),
            ),
            (ResponseShape::OpenAi, FailoverFailure::Transport(error)) => openai_transport_response(
                error,
            ),
            (
                ResponseShape::OpenAi,
                FailoverFailure::CallerJson { status, message },
            ) => openai_message(status, no_entries(), message@),
            (
                ResponseShape::OpenAi,
                FailoverFailure::Internal { status, detail: _ },
            ) => openai_message(status, no_entries(), public_message(status)),
            _ => unavailable_response(shape),
        }
    }
}

fn render_unary_failover_failure(error: &FailoverFailure, shape: ResponseShape, text: &str) -> (
    response: GatewayResponse)
    requires
        failure_fits(*error),
    ensures
        response@ == unary_response(*error, shape, text@),
{
    if shape == ResponseShape::Codex {
        if let FailoverFailure::Transport(error) = error {
            if let TransportError::Http { status: _, headers: _, body: _ } = error {
                return transport_error_response_ref(error, text);
            }
        }
    }
    if failover_failure_kind(error) == DownstreamFailureKind::GatewayUnavailable {
        return render_gateway_unavailable_response(shape);
    }
    match shape {
        ResponseShape::Codex => match error {
            FailoverFailure::Refresh(error) => refresh_failure_response(error),
            FailoverFailure::Transport(error) => transport_error_response_ref(error, text),
            FailoverFailure::PoolBlocked(summary) => pool_blocked_response(*summary),
            FailoverFailure::CallerJson { status, message } => json_error(
                *status,
                message.as_str(),
            ),
            FailoverFailure::Internal { status, detail: _ } => json_error(
                *status,
                public_internal_error_message(*status).as_str(),
            ),
        },
        ResponseShape::OpenAi => match error {
            FailoverFailure::Refresh(error) => openai_refresh_failure_response(error),
            FailoverFailure::Transport(error) => openai_transport_error_response_ref(error),
            FailoverFailure::PoolBlocked(summary) => openai_pool_blocked_response(*summary),
            FailoverFailure::CallerJson { status, message } => openai_json_error(
                *status,
                message.as_str(),
            ),
            FailoverFailure::Internal { status, detail: _ } => openai_json_error(
                *status,
                public_internal_error_message(*status).as_str(),
            ),
        },
    }
}

/// The fields that the client of a stream is told of a failure.
pub open spec fn failover_payload(
    error: FailoverFailure,
    text: Seq<char>,
    delay: Option<Delay>,
) -> PayloadView {
    match error {
        FailoverFailure::Refresh(error) => http_failure_payload(
            error.status,
            Some(error.body@),
            delay,
        ),
        FailoverFailure::Transport(error) => transport_payload(error, text, delay),
        FailoverFailure::PoolBlocked(_) => unavailable(),
        FailoverFailure::CallerJson { status, message } => message_payload(
            Some(http_fallback_code(status, None)),
            message@,
        ),
        FailoverFailure::Internal { status, detail: _ } => message_payload(
            Some(http_fallback_code(status, None)),
            public_message(status),
        ),
    }
}

/// The fields that the client of a stream is told of a failure. `text` is what is shown of an error
/// without an answer, and `delay` when to try again.
pub fn failover_failure_payload(error: &FailoverFailure, text: &str, delay: Option<Delay>) -> (payload:
    SyntheticResponseFailedPayload)
    requires
        tellable(delay),
    ensures
        payload@ == failover_payload(*error, text@, delay),
{
    match error {
        FailoverFailure::Refresh(error) => synthetic_response_failed_payload_from_http_failure(
            error.status,
            Some(error.body.as_str()),
            delay,
        ),
        FailoverFailure::Transport(error) => synthetic_response_failed_payload_from_transport(
            error,
            text,
            delay,
        ),
        FailoverFailure::PoolBlocked(_) => gateway_unavailable_payload(),
        FailoverFailure::CallerJson { status, message } => only_message(
            Some(fallback_error_code_for_http(*status, None).to_owned()),
            message.as_str(),
        ),
        FailoverFailure::Internal { status, detail: _ } => only_message(
            Some(fallback_error_code_for_http(*status, None).to_owned()),
            public_internal_error_message(*status).as_str(),
        ),
    }
}

/// The answer of a failed request to a client that waits for a stream: a stream with one event.
pub open spec fn pre_stream_response(
    error: FailoverFailure,
    text: Seq<char>,
    delay: Option<Delay>,
    now: Timestamp,
) -> ResponseView {
    let payload = if kind_of(error) == DownstreamFailureKind::GatewayUnavailable {
        unavailable()
    } else {
        failover_payload(error, text, delay)
    };
    ResponseView {
        status: 200,
        headers: with_header(
            with_header(no_entries(), "content-type"@, SSE_CONTENT_TYPE@),
            "cache-control"@,
            "no-cache"@,
        ),
        body: BodyView::Events(
            sse_bytes("response.failed"@, failed_event(None, 0, payload, now)),
        ),
    }
}

fn render_codex_pre_stream_failure_at(
    error: &FailoverFailure,
    text: &str,
    delay: Option<Delay>,
    now: Timestamp,
) -> (response: GatewayResponse)
    requires
        in_calendar(now),
        tellable(delay),
    ensures
        response@ == pre_stream_response(*error, text@, delay, now),
{
    let payload: SyntheticResponseFailedPayload = if failover_failure_kind(error)
        == DownstreamFailureKind::GatewayUnavailable {
        gateway_unavailable_payload()
    } else {
        failover_failure_payload(error, text, delay)
    };
    let event: Json = synthetic_response_failed_json_at(None, 0, &payload, now);
    let mut headers: HeaderMap<HeaderValue> = new_headers();
    proof {
        lemma_content_type();
        lemma_cache_control();
    }
    insert_header(&mut headers, "content-type", SSE_CONTENT_TYPE);
    insert_header(&mut headers, "cache-control", "no-cache");
    GatewayResponse {
        status: 200,
        headers,
        body: ResponseBody::Events(render_sse_event_bytes("response.failed", &event)),
    }
}

/// The answer to a failed request.
pub open spec fn failure_response(
    error: FailoverFailure,
    shape: ResponseShape,
    mode: FailureRenderMode,
    text: Seq<char>,
    delay: Option<Delay>,
    now: Timestamp,
) -> ResponseView {
    if mode == FailureRenderMode::ResponsesPreStream && shape == ResponseShape::Codex {
        pre_stream_response(error, text, delay, now)
    } else {
        unary_response(error, shape, text)
    }
}

/// The delay of a failure. `hinted` is the delay that an answer names in words.
pub open spec fn failure_delay(
    error: FailoverFailure,
    hinted: Option<Delay>,
    now: Timestamp,
) -> Option<Delay> {
    match error {
        FailoverFailure::Refresh(error) => delay_of(retry_view(error.retry_after), hinted),
        FailoverFailure::Transport(error) => delay_of(error_retry(error, now), hinted),
        _ => None,
    }
}

/// A failure whose delay can be told.
pub open spec fn failure_tellable(error: FailoverFailure, hinted: Option<Delay>) -> bool {
    &&& tellable(hinted)
    &&& error matches FailoverFailure::Refresh(error) ==> tellable(
        delay_of(retry_view(error.retry_after), hinted),
    )
}

/// The delay of a failure, at `now`.
pub fn failure_delay_at(
    error: &FailoverFailure,
    hinted: Option<Delay>,
    now: Timestamp,
) -> (delay: Option<Delay>)
    requires
        in_calendar(now),
    ensures
        delay == failure_delay(*error, hinted, now),
        failure_tellable(*error, hinted) ==> tellable(delay),
{
    match error {
        FailoverFailure::Refresh(error) => resolve_delay(&error.retry_after, hinted),
        FailoverFailure::Transport(error) => error_delay_at(error, hinted, now),
        _ => None,
    }
}

/// The answer to a failed request. `text` is what is shown of an error without an answer, and
/// `hinted` the delay that an answer names in words.
pub fn render_failover_failure_at(
    error: &FailoverFailure,
    shape: ResponseShape,
    mode: FailureRenderMode,
    text: &str,
    hinted: Option<Delay>,
    now: Timestamp,
) -> (response: GatewayResponse)
    requires
        in_calendar(now),
        failure_tellable(*error, hinted),
        failure_fits(*error),
    ensures
        response@ == failure_response(
            *error,
            shape,
            mode,
            text@,
            failure_delay(*error, hinted, now),
            now,
        ),
{
    match mode {
        FailureRenderMode::UnaryJson => render_unary_failover_failure(error, shape, text),
        FailureRenderMode::ResponsesPreStream => match shape {
            ResponseShape::Codex => {
                let delay: Option<Delay> = failure_delay_at(error, hinted, now);
                render_codex_pre_stream_failure_at(error, text, delay, now)
            },
            ResponseShape::OpenAi => render_unary_failover_failure(
                error,
                ResponseShape::OpenAi,
                text,
            ),
        },
    }
}

/// The answer to a failed request.
pub fn render_failover_failure(
    error: &FailoverFailure,
    shape: ResponseShape,
    mode: FailureRenderMode,
    text: &str,
    hinted: Option<Delay>,
) -> (response: GatewayResponse)
    requires
        failure_tellable(*error, hinted),
        failure_fits(*error),
    ensures
        exists|now: Timestamp| #[trigger]
            in_calendar(now) && response@ == failure_response(
                *error,
                shape,
                mode,
                text@,
                failure_delay(*error, hinted, now),
                now,
            ),
{
    let now: Timestamp = utc_now();
    render_failover_failure_at(error, shape, mode, text, hinted, now)
}

/// The answer to a request that the gateway itself refuses.
pub fn render_status_message_error(
    shape: ResponseShape,
    mode: FailureRenderMode,
    status: u16,
    message: String,
) -> (response: GatewayResponse)
    ensures
        exists|now: Timestamp| #[trigger]
            in_calendar(now) && response@ == failure_response(
                FailoverFailure::CallerJson { status, message },
                shape,
                mode,
                ""@,
                None,
                now,
            ),
{
    render_failover_failure(
        &FailoverFailure::CallerJson { status, message },
        shape,
        mode,
        "",
        None,
    )
}

impl FailoverFailure {
    /// The answer to a Codex client in one piece. `text` is what is shown of an error without an
    /// answer.
    pub fn into_response(self, text: &str) -> (response: GatewayResponse)
        requires
            failure_fits(self),
        ensures
            response@ == unary_response(self, ResponseShape::Codex, text@),
    {
        render_unary_failover_failure(&self, ResponseShape::Codex, text)
    }
}

/// Where a failure hangs on the accounts and is not passed on, a client is told that none can serve
/// it, and nothing else of the failure.
pub proof fn unusable_accounts_are_hidden(
    error: FailoverFailure,
    other: FailoverFailure,
    shape: ResponseShape,
    mode: FailureRenderMode,
    text: Seq<char>,
    other_text: Seq<char>,
    delay: Option<Delay>,
    other_delay: Option<Delay>,
    now: Timestamp,
)
    requires
        kind_of(error) == DownstreamFailureKind::GatewayUnavailable,
        kind_of(other) == DownstreamFailureKind::GatewayUnavailable,
        !passed_on(error, shape, mode),
        !passed_on(other, shape, mode),
    ensures
        failure_response(error, shape, mode, text, delay, now) == failure_response(
            other,
            shape,
            mode,
            other_text,
            other_delay,
            now,
        ),
{
}

/// What went wrong inside the gateway is not told.
pub proof fn internal_details_are_hidden(
    status: u16,
    detail: String,
    other: String,
    shape: ResponseShape,
    mode: FailureRenderMode,
    text: Seq<char>,
    delay: Option<Delay>,
    now: Timestamp,
)
    ensures
        failure_response(
            FailoverFailure::Internal { status, detail },
            shape,
            mode,
            text,
            delay,
            now,
        ) == failure_response(
            FailoverFailure::Internal { status, detail: other },
            shape,
            mode,
            text,
            delay,
            now,
        ),
{
}

}
