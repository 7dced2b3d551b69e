//! What the public routes decide.
use crate::config::FingerprintMode;
use crate::gateway_errors::{
    failure_response, render_status_message_error, set_content_type, with_content_type,
    with_header, FailureRenderMode, GatewayResponse, ResponseBody, ResponseView, BodyView,
    JSON_CONTENT_TYPE, SSE_CONTENT_TYPE,
};
use crate::failover::FailoverFailure;
use crate::headers::{
    has_room, header_entries, insert_value, is_header_value, new_headers, no_entries, remove_name,
};
use crate::http_shape::{
    lemma_cache_control, lemma_plain_is_lower, openai_headers, shape_openai_http_headers,
};
use crate::json::{array_view, json_view, parse_json, parsed_json, Json, JsonView};
use crate::models::{
    entries_view, is_fresh, models_in, openai_models, response_shape_for_headers, shape_for,
    ModelsCache, ModelsSnapshot, ResponseShape,
};
use crate::request_normalization::{
    apply_gateway_override, gateway_override, normalize_compact_request_body,
    normalize_responses_request_body, normalized_compact, normalized_responses,
    take_gateway_overrides, with_session_source, OverrideView, SessionSourceOverride,
    GATEWAY_CONTROL_FIELD,
};
use crate::text::{same_text, utf8_text};
use crate::time::{in_calendar, Delay, Timestamp};
use http::{HeaderMap, HeaderValue};
use vstd::prelude::*;
use vstd::utf8::{decode_utf8, valid_utf8};


verus! {

/// How a failure is answered.
#[derive(Debug, Clone, Copy, PartialEq, Eq, Structural)]
pub struct FailureContext {
    pub response_shape: ResponseShape,
    pub render_mode: FailureRenderMode,
}

impl FailureContext {
    /// How a failure of a request with these headers is answered.
    pub fn for_headers(headers: &HeaderMap<HeaderValue>, render_mode: FailureRenderMode) -> (context:
        Self)
        ensures
            context == (FailureContext {
                response_shape: shape_for(header_entries(*headers)),
                render_mode,
            }),
    {
        FailureContext { response_shape: response_shape_for_headers(headers), render_mode }
    }
}

/// A body that could not be read.
#[derive(Debug, Clone, PartialEq, Eq)]
pub struct BodyRejection {
    pub status: u16,
    pub message: String,
}

/// A request that is refused.
#[derive(Debug, Clone, PartialEq, Eq)]
pub struct PreparedRequestError {
    pub failure_context: FailureContext,
    pub status: u16,
    pub message: String,
}

impl PreparedRequestError {
    /// The answer to a request that is refused.
    pub fn into_response(self) -> (response: GatewayResponse)
        ensures
            exists|now: Timestamp| #[trigger]
                in_calendar(now) && response@ == failure_response(
                    FailoverFailure::CallerJson { status: self.status, message: self.message },
                    self.failure_context.response_shape,
                    self.failure_context.render_mode,
                    ""@,
                    None,
                    now,
                ),
    {
        render_status_message_error(
            self.failure_context.response_shape,
            self.failure_context.render_mode,
            self.status,
            self.message,
        )
    }
}

/// A request whose body is ready, and what it asks of the gateway.
#[derive(Debug)]
pub struct PendingJsonRequest {
    pub failure_context: FailureContext,
    pub body: Json,
    pub session_source: SessionSourceOverride,
}

/// A request that is ready to be sent.
#[derive(Debug)]
pub struct PreparedJsonRequest {
    pub failure_context: FailureContext,
    pub headers: HeaderMap<HeaderValue>,
    pub body: Json,
}

/// Does a client want its response as a stream? It does unless it says that it does not.
pub open spec fn streams(body: JsonView) -> bool {
    body.field("stream"@) != Some(JsonView::Bool(false))
}

/// Does a client want its response as a stream?
pub fn should_stream_responses_request(body: &Json) -> (streamed: bool)
    ensures
        streamed == streams(body@),
{
    match body.get("stream") {
        Some(Json::Bool(streamed)) => *streamed,
        _ => true,
    }
}

/// Is this the request, or its refusal, that follows from a body as it is to be sent?
pub open spec fn prepares(
    context: FailureContext,
    body: JsonView,
    result: Result<PendingJsonRequest, PreparedRequestError>,
) -> bool {
    match (gateway_override(body), result) {
        (Ok(source), Ok(request)) => request.failure_context == context && request.body@
            == body.without(GATEWAY_CONTROL_FIELD@) && request.session_source@ == source,
        (Err(message), Err(error)) => error.failure_context == context && error.status == 400
            && error.message@ == message,
        _ => false,
    }
}

fn finish_preparing(context: FailureContext, body: Json) -> (result: Result<
    PendingJsonRequest,
    PreparedRequestError,
>)
    ensures
        prepares(context, body@, result),
{
    let mut body: Json = body;
    match take_gateway_overrides(&mut body) {
        Ok(session_source) => Ok(
            PendingJsonRequest { failure_context: context, body, session_source },
        ),
        Err(message) => Err(
            PreparedRequestError { failure_context: context, status: 400, message },
        ),
    }
}

/// How a failure of a request for a response is answered.
pub open spec fn responses_context(
    entries: Map<Seq<char>, Seq<Seq<u8>>>,
    body: JsonView,
) -> FailureContext {
    FailureContext {
        response_shape: shape_for(entries),
        render_mode: if streams(body) {
            FailureRenderMode::ResponsesPreStream
        } else {
            FailureRenderMode::UnaryJson
        },
    }
}

/// Makes a request for a response ready.
pub fn prepare_responses_request(
    mode: FingerprintMode,
    headers: &HeaderMap<HeaderValue>,
    body: Result<Json, BodyRejection>,
    snapshot: Option<&ModelsSnapshot>,
) -> (result: Result<PendingJsonRequest, PreparedRequestError>)
    ensures
        match body {
            Ok(body) => prepares(
                responses_context(header_entries(*headers), body@),
                normalized_responses(
                    mode,
                    shape_for(header_entries(*headers)) == ResponseShape::Codex,
                    body@,
                    snapshot,
                ),
                result,
            ),
            Err(rejection) => result == Err::<PendingJsonRequest, PreparedRequestError>(
                PreparedRequestError {
                    failure_context: FailureContext {
                        response_shape: shape_for(header_entries(*headers)),
                        render_mode: FailureRenderMode::ResponsesPreStream,
                    },
                    status: rejection.status,
                    message: rejection.message,
                },
            ),
        },
{
    let default_context: FailureContext = FailureContext::for_headers(
        headers,
        FailureRenderMode::ResponsesPreStream,
    );
    match body {
        Ok(body) => {
            let context: FailureContext = FailureContext {
                response_shape: default_context.response_shape,
                render_mode: if should_stream_responses_request(&body) {
                    FailureRenderMode::ResponsesPreStream
                } else {
                    FailureRenderMode::UnaryJson
                },
            };
            let mut shaped: Json = body;
            normalize_responses_request_body(
                mode,
                default_context.response_shape.is_codex(),
                &mut shaped,
                snapshot,
            );
            finish_preparing(context, shaped)
        },
        Err(rejection) => Err(
            PreparedRequestError {
                failure_context: default_context,
                status: rejection.status,
                message: rejection.message,
            },
        ),
    }
}

/// Makes a request for a compaction ready.
pub fn prepare_compact_request(
    mode: FingerprintMode,
    headers: &HeaderMap<HeaderValue>,
    body: Result<Json, BodyRejection>,
    snapshot: Option<&ModelsSnapshot>,
) -> (result: Result<PendingJsonRequest, PreparedRequestError>)
    ensures
        ({
            let context = FailureContext {
                response_shape: shape_for(header_entries(*headers)),
                render_mode: FailureRenderMode::UnaryJson,
            };
            match body {
                Ok(body) => prepares(
                    context,
                    normalized_compact(
                        mode,
                        shape_for(header_entries(*headers)) == ResponseShape::Codex,
                        body@,
                        snapshot,
                    ),
                    result,
                ),
                Err(rejection) => result == Err::<PendingJsonRequest, PreparedRequestError>(
                    PreparedRequestError {
                        failure_context: context,
                        status: rejection.status,
                        message: rejection.message,
                    },
                ),
            }
        }),
{
    let context: FailureContext = FailureContext::for_headers(
        headers,
        FailureRenderMode::UnaryJson,
    );
    match body {
        Ok(body) => {
            let mut shaped: Json = body;
            normalize_compact_request_body(
                mode,
                context.response_shape.is_codex(),
                &mut shaped,
                snapshot,
            );
            finish_preparing(context, shaped)
        },
        Err(rejection) => Err(
            PreparedRequestError {
                failure_context: context,
                status: rejection.status,
                message: rejection.message,
            },
        ),
    }
}

/// Is this the request, or its refusal, once its headers are ready?
pub open spec fn finishes(
    request: PendingJsonRequest,
    entries: Map<Seq<char>, Seq<Seq<u8>>>,
    decoded: Result<&str, &str>,
    result: Result<PreparedJsonRequest, PreparedRequestError>,
) -> bool {
    match (request.session_source@, decoded) {
        (OverrideView::Replace(_), Err(error)) => result matches Err(refused)
            && refused.failure_context == request.failure_context && refused.status == 400
            && refused.message@ == "session_source must match codex_protocol::SessionSource JSON: "@
            + error@,
        (source, _) => result matches Ok(prepared) && prepared.failure_context
            == request.failure_context && prepared.body == request.body && header_entries(
            prepared.headers,
        ) == (match (source, decoded) {
            (OverrideView::Clear, _) => with_session_source(entries, None),
            (OverrideView::Replace(_), Ok(text)) => with_session_source(entries, Some(text@)),
            _ => entries,
        }),
    }
}

/// Makes the headers of a request ready. `decoded` is the session source that it names, written as
/// it stands in the header, or why it cannot be read.
pub fn finish_request(
    request: PendingJsonRequest,
    headers: HeaderMap<HeaderValue>,
    decoded: Result<&str, &str>,
) -> (result: Result<PreparedJsonRequest, PreparedRequestError>)
    requires
        has_room(headers),
    ensures
        finishes(request, header_entries(headers), decoded, result),
{
    let mut headers: HeaderMap<HeaderValue> = headers;
    match apply_gateway_override(&mut headers, &request.session_source, decoded) {
        Ok(_) => Ok(
            PreparedJsonRequest {
                failure_context: request.failure_context,
                headers,
                body: request.body,
            },
        ),
        Err(message) => Err(
            PreparedRequestError {
                failure_context: request.failure_context,
                status: 400,
                message,
            },
        ),
    }
}

/// The headers of an answer for a client.
pub open spec fn success_headers(
    shape: ResponseShape,
    entries: Map<Seq<char>, Seq<Seq<u8>>>,
) -> Map<Seq<char>, Seq<Seq<u8>>> {
    match shape {
        ResponseShape::OpenAi => openai_headers(entries),
        ResponseShape::Codex => entries,
    }
}

/// The headers of an answer for a client: a general one gets no others than it knows, and a
/// content type that fits.
pub open spec fn typed_headers(
    shape: ResponseShape,
    entries: Map<Seq<char>, Seq<Seq<u8>>>,
    content_type: Seq<char>,
) -> Map<Seq<char>, Seq<Seq<u8>>> {
    match shape {
        ResponseShape::OpenAi => with_content_type(openai_headers(entries), content_type),
        ResponseShape::Codex => entries,
    }
}

fn shape_typed_headers(
    shape: ResponseShape,
    headers: HeaderMap<HeaderValue>,
    content_type: &str,
) -> (shaped: HeaderMap<HeaderValue>)
    ensures
        header_entries(shaped) == typed_headers(shape, header_entries(headers), content_type@),
{
    match shape {
        ResponseShape::OpenAi => {
            let mut shaped: HeaderMap<HeaderValue> = shape_openai_http_headers(headers);
            set_content_type(&mut shaped, content_type);
            shaped
        },
        ResponseShape::Codex => headers,
    }
}

/// The headers of an answer for a client.
pub fn shape_openai_success_headers(shape: ResponseShape, headers: HeaderMap<HeaderValue>) -> (shaped:
    HeaderMap<HeaderValue>)
    ensures
        header_entries(shaped) == success_headers(shape, header_entries(headers)),
{
    match shape {
        ResponseShape::OpenAi => shape_openai_http_headers(headers),
        ResponseShape::Codex => headers,
    }
}

/// The headers of a response to a request with this body.
pub open spec fn responses_headers(
    shape: ResponseShape,
    body: JsonView,
    entries: Map<Seq<char>, Seq<Seq<u8>>>,
) -> Map<Seq<char>, Seq<Seq<u8>>> {
    if streams(body) {
        typed_headers(shape, entries, SSE_CONTENT_TYPE@)
    } else {
        success_headers(shape, entries)
    }
}

/// The headers of a response that is streamed, or not, as the request asks for.
pub fn shape_responses_success_headers(
    shape: ResponseShape,
    request_body: &Json,
    headers: HeaderMap<HeaderValue>,
) -> (shaped: HeaderMap<HeaderValue>)
    ensures
        header_entries(shaped) == responses_headers(
            shape,
            request_body@,
            header_entries(headers),
        ),
{
    if should_stream_responses_request(request_body) {
        shape_typed_headers(shape, headers, SSE_CONTENT_TYPE)
    } else {
        shape_openai_success_headers(shape, headers)
    }
}

/// The headers of a response in one piece.
pub fn shape_unary_responses_success_headers(shape: ResponseShape, headers: HeaderMap<HeaderValue>) -> (
    shaped: HeaderMap<HeaderValue>)
    ensures
        header_entries(shaped) == typed_headers(
            shape,
            header_entries(headers),
            JSON_CONTENT_TYPE@,
        ),
{
    shape_typed_headers(shape, headers, JSON_CONTENT_TYPE)
}

/// An item of a compaction as general clients know it.
pub open spec fn compact_item(item: JsonView) -> JsonView {
    if item.text_field("type"@) == Some("compaction_summary"@) {
        item.with("type"@, JsonView::Text("compaction"@))
    } else {
        item
    }
}

/// A compaction as general clients know it.
pub open spec fn compact_body(body: JsonView) -> JsonView {
    match body.field("output"@) {
        Some(JsonView::Array(items)) => body.with(
            "output"@,
            JsonView::Array(Seq::new(items.len(), |i: int| compact_item(items[i]))),
        ),
        _ => body,
    }
}

fn rewrite_item(item: &Json) -> (rewritten: Json)
    ensures
        rewritten@ == compact_item(item@),
{
    match item.get_str("type") {
        Some(kind) => if same_text(kind, "compaction_summary") {
            item.clone().with("type", Json::text("compaction"))
        } else {
            item.clone()
        },
        None => item.clone(),
    }
}

/// Makes a compaction one that general clients know.
pub fn rewrite_openai_compact_response_body(body: &mut Json)
    ensures
        final(body)@ == compact_body(old(body)@),
{
    let mut rewritten: Vec<Json> = Vec::new();
    match body.get("output") {
        Some(Json::Array(items)) => {
            let mut i: usize = 0;
            while i < items.len()
                invariant
                    i <= items.len(),
                    rewritten.len() == i,
                    forall|j: int|
                        0 <= j < i ==> json_view(#[trigger] rewritten@[j]) == compact_item(
                            json_view(items@[j]),
                        ),
                decreases items.len() - i,
            {
                rewritten.push(rewrite_item(&items[i]));
                i = i + 1;
            }
            assert(array_view(rewritten@) =~= Seq::new(
                array_view(items@).len(),
                |j: int| compact_item(array_view(items@)[j]),
            ));
        },
        _ => {
            return;
        },
    }
    body.set("output", Json::Array(rewritten));
}

/// The headers and the body of a compaction for a client.
pub fn shape_compact_success_response(
    shape: ResponseShape,
    headers: HeaderMap<HeaderValue>,
    body: Json,
) -> (shaped: (HeaderMap<HeaderValue>, Json))
    ensures
        header_entries(shaped.0) == typed_headers(
            shape,
            header_entries(headers),
            JSON_CONTENT_TYPE@,
        ),
        shaped.1@ == (match shape {
            ResponseShape::OpenAi => compact_body(body@),
            ResponseShape::Codex => body@,
        }),
{
    let mut body: Json = body;
    if !shape.is_codex() {
        rewrite_openai_compact_response_body(&mut body);
    }
    (shape_typed_headers(shape, headers, JSON_CONTENT_TYPE), body)
}

/// The list of models for a general client.
pub fn models_openai_success_response(snapshot: &ModelsSnapshot, headers: HeaderMap<HeaderValue>) -> (
    response: GatewayResponse)
    ensures
        response@ == (ResponseView {
            status: 200,
            headers: with_content_type(
                openai_headers(header_entries(headers)),
                JSON_CONTENT_TYPE@,
            ),
            body: BodyView::Json(openai_models(entries_view(snapshot.models@))),
        }),
{
    GatewayResponse {
        status: 200,
        headers: shape_typed_headers(ResponseShape::OpenAi, headers, JSON_CONTENT_TYPE),
        body: ResponseBody::Json(snapshot.openai_json()),
    }
}

/// The list of models for a Codex client.
pub fn models_codex_success_response(snapshot: &ModelsSnapshot) -> (response: GatewayResponse)
    ensures
        response@ == (ResponseView {
            status: 200,
            headers: no_entries(),
            body: BodyView::Json(snapshot.codex_json@),
        }),
{
    GatewayResponse {
        status: 200,
        headers: new_headers(),
        body: ResponseBody::Json(snapshot.codex_json()),
    }
}

/// The header that carries the state of a turn.
pub const TURN_STATE_HEADER: &'static str = "x-codex-turn-state";

/// Puts the state of a turn in the headers, where there is one that a header can carry.
pub fn apply_turn_state_header(headers: &mut HeaderMap<HeaderValue>, turn_state: Option<&str>)
    requires
        has_room(*old(headers)),
    ensures
        header_entries(*final(headers)) == (match turn_state {
            Some(text) => with_header(header_entries(*old(headers)), TURN_STATE_HEADER@, text@),
            None => header_entries(*old(headers)),
        }),
{
    proof {
        reveal_strlit("x-codex-turn-state");
    }
    if let Some(text) = turn_state {
        let bytes: Vec<u8> = text.as_bytes_vec();
        if is_header_value(bytes.as_slice()) {
            insert_value(headers, TURN_STATE_HEADER, bytes.as_slice());
        }
    }
}

/// The bytes of `no-store`.
pub open spec fn no_store() -> Seq<u8> {
    seq![110u8, 111u8, 45u8, 115u8, 116u8, 111u8, 114u8, 101u8]
}

/// Headers of an answer that is not to be kept.
pub open spec fn not_kept(entries: Map<Seq<char>, Seq<Seq<u8>>>) -> Map<
    Seq<char>,
    Seq<Seq<u8>>,
> {
    entries.insert("cache-control"@, seq![no_store()])
}

/// The headers of a list of models that is no longer fresh: it is not to be kept.
pub fn stale_models_headers(headers: HeaderMap<HeaderValue>) -> (stale: HeaderMap<HeaderValue>)
    requires
        has_room(headers),
    ensures
        header_entries(stale) == not_kept(header_entries(headers)),
{
    proof {
        lemma_cache_control();
        lemma_plain_is_lower("cache-control"@);
    }
    let mut stale: HeaderMap<HeaderValue> = headers;
    remove_name(&mut stale, "cache-control");
    let value: [u8; 8] = [110u8, 111u8, 45u8, 115u8, 116u8, 111u8, 114u8, 101u8];
    assert(value@ =~= no_store());
    insert_value(&mut stale, "cache-control", &value);
    assert(header_entries(stale) =~= not_kept(header_entries(headers)));
    stale
}

/// A list of models that is at hand, with the headers to give with it.
pub struct CachedModels<'a> {
    pub snapshot: &'a ModelsSnapshot,
    pub headers: HeaderMap<HeaderValue>,
    /// Is the list to be fetched anew meanwhile?
    pub refresh: bool,
}

/// Is this what a general client gets at once of the list that is kept?
pub open spec fn serves_kept(
    cache: ModelsCache,
    elapsed: Option<Delay>,
    cached: Option<CachedModels<'_>>,
) -> bool {
    match cached {
        Some(cached) => cache.snapshot == Some(*cached.snapshot) && cached.refresh == !is_fresh(
            elapsed,
        ) && header_entries(cached.headers) == (if is_fresh(elapsed) {
            header_entries(cache.response_headers)
        } else {
            not_kept(header_entries(cache.response_headers))
        }),
        None => cache.snapshot is None,
    }
}

/// The list of models that a general client gets at once: a fresh one as it is, an old one while it
/// is fetched anew; nothing where there is none. `elapsed` is the time since it came.
pub fn cached_or_refreshing_models<'a>(cache: &'a ModelsCache, elapsed: Option<Delay>) -> (cached: Option<
    CachedModels<'a>,
>)
    requires
        has_room(cache.response_headers),
    ensures
        serves_kept(*cache, elapsed, cached),
{
    if let Some((snapshot, headers)) = cache.fresh_entry(elapsed) {
        return Some(CachedModels { snapshot, headers, refresh: false });
    }
    match cache.current_entry() {
        Some((snapshot, headers)) => Some(
            CachedModels { snapshot, headers: stale_models_headers(headers), refresh: true },
        ),
        None => None,
    }
}

/// What is said of an answer that is no JSON.
pub const DECODE_FAILURE: &'static str = "decode upstream json body";

/// What is said of an answer that is no list of models.
pub const MODELS_FAILURE: &'static str = "decode models response as Codex models list";

/// The JSON that an answer holds; nothing where it is no JSON, or no text at all.
pub open spec fn body_json(body: Seq<u8>) -> Option<JsonView> {
    if valid_utf8(body) {
        parsed_json(decode_utf8(body))
    } else {
        None
    }
}

/// Reads an answer as JSON.
pub fn body_as_json(body: &[u8]) -> (json: Result<Json, String>)
    ensures
        match json {
            Ok(json) => body_json(body@) == Some(json@),
            Err(details) => body_json(body@) is None && details@ == DECODE_FAILURE@,
        },
{
    if let Some(text) = utf8_text(body) {
        if let Some(json) = parse_json(text) {
            return Ok(json);
        }
    }
    Err(DECODE_FAILURE.to_owned())
}

/// Reads a list of models, or says why it cannot be read.
pub fn read_models(json: Json) -> (snapshot: Result<ModelsSnapshot, String>)
    ensures
        match snapshot {
            Ok(snapshot) => models_in(json@) == Some(entries_view(snapshot.models@))
                && snapshot.codex_json@ == json@,
            Err(details) => models_in(json@) is None && details@ == MODELS_FAILURE@,
        },
{
    match ModelsSnapshot::from_value(json) {
        Some(snapshot) => Ok(snapshot),
        None => Err(MODELS_FAILURE.to_owned()),
    }
}

/// Reads an answer as a list of models, or says why it cannot be read.
pub fn read_models_body(body: &[u8]) -> (snapshot: Result<ModelsSnapshot, String>)
    ensures
        match body_json(body@) {
            Some(json) => match snapshot {
                Ok(snapshot) => models_in(json) == Some(entries_view(snapshot.models@))
                    && snapshot.codex_json@ == json,
                Err(details) => models_in(json) is None && details@ == MODELS_FAILURE@,
            },
            None => snapshot matches Err(details) && details@ == DECODE_FAILURE@,
        },
{
    match body_as_json(body) {
        Ok(json) => read_models(json),
        Err(details) => Err(details),
    }
}

}
