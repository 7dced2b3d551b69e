//! The messages of a websocket on their way between a client and the upstream.
use crate::config::FingerprintMode;
use crate::fingerprint::{
    apply_client_metadata_installation_id, apply_client_metadata_user_thread_source, with_metadata,
    with_user_thread_source,
};
use crate::json::{
    json_text, optional_text, parse_json, parsed_json, render_json, Json, JsonNumber, JsonView,
};
use crate::models::ModelsSnapshot;
use crate::request_normalization::{normalize_responses_request_body, normalized_responses};
use crate::responses::websocket::errors::{
    event_error, WEBSOCKET_CONNECTION_LIMIT_REACHED_CODE,
    WEBSOCKET_CONNECTION_LIMIT_REACHED_MESSAGE,
};
use crate::responses::websocket::{MessageView, WebsocketMessage, WebsocketProxyOutcome};
use crate::text::same_text;
use vstd::prelude::*;

verus! {

/// The type of the event that a text holds.
pub open spec fn text_kind(text: Seq<char>) -> Option<Seq<char>> {
    match parsed_json(text) {
        Some(json) => json.text_field("type"@),
        None => None,
    }
}

/// The type of the event that a message holds.
pub open spec fn message_kind(message: MessageView) -> Option<Seq<char>> {
    match message {
        MessageView::Text(text) => text_kind(text),
        _ => None,
    }
}

/// The type of the event that a text holds.
pub fn websocket_message_type(text: &str) -> (kind: Option<String>)
    ensures
        (match kind {
            Some(kind) => Some(kind@),
            None => None,
        }) == text_kind(text@),
{
    match parse_json(text) {
        Some(json) => match json.get_str("type") {
            Some(kind) => Some(kind.to_owned()),
            None => None,
        },
        None => None,
    }
}

fn has_kind(text: &str, expected: &str) -> (same: bool)
    ensures
        same == (text_kind(text@) == Some(expected@)),
{
    match websocket_message_type(text) {
        Some(kind) => same_text(kind.as_str(), expected),
        None => false,
    }
}

/// A window of a limit of which nothing is used up.
pub open spec fn unused_window(limits: JsonView, key: Seq<char>) -> JsonView {
    match limits.field(key) {
        Some(window) => if window is Object {
            limits.with(key, window.with("used_percent"@, JsonView::Decimal("0.0"@)))
        } else {
            limits
        },
        None => limits,
    }
}

/// The event of limits with nothing used up; nothing where the event is none of limits.
pub open spec fn unused_limits(json: JsonView) -> Option<JsonView> {
    match json.field("rate_limits"@) {
        Some(limits) => if json.text_field("type"@) == Some("codex.rate_limits"@)
            && limits is Object {
            Some(
                json.with(
                    "rate_limits"@,
                    unused_window(unused_window(limits, "primary"@), "secondary"@),
                ),
            )
        } else {
            None
        },
        None => None,
    }
}

fn normalize_rate_limit_window_used_percent(limits: Json, key: &str) -> (changed: Json)
    ensures
        changed@ == unused_window(limits@, key@),
{
    match limits.get(key) {
        Some(window) => if window.is_object() {
            let zero: Json = Json::Number(JsonNumber::Decimal("0.0".to_owned()));
            let unused: Json = window.clone().with("used_percent", zero);
            limits.with(key, unused)
        } else {
            limits
        },
        None => limits,
    }
}

/// The event of limits with nothing used up.
pub fn normalize_rate_limit_event(json: &Json) -> (normalized: Option<Json>)
    ensures
        (match normalized {
            Some(normalized) => Some(normalized@),
            None => None,
        }) == unused_limits(json@),
{
    let limits: Json = match json.get("rate_limits") {
        Some(limits) => if limits.is_object() {
            limits.clone()
        } else {
            return None;
        },
        None => {
            return None;
        },
    };
    match json.get_str("type") {
        Some(kind) => if !same_text(kind, "codex.rate_limits") {
            return None;
        },
        None => {
            return None;
        },
    }
    let primary: Json = normalize_rate_limit_window_used_percent(limits, "primary");
    let both: Json = normalize_rate_limit_window_used_percent(primary, "secondary");
    Some(json.clone().with("rate_limits", both))
}

/// The text of an event of limits with nothing used up.
pub open spec fn unused_limits_text(text: Seq<char>) -> Option<Seq<char>> {
    match parsed_json(text) {
        Some(json) => match unused_limits(json) {
            Some(unused) => Some(json_text(unused)),
            None => None,
        },
        None => None,
    }
}

/// The text of an event of limits with nothing used up; nothing where it is none of limits.
pub fn normalize_rate_limit_event_payload(text: &str) -> (normalized: Option<String>)
    ensures
        (match normalized {
            Some(normalized) => Some(normalized@),
            None => None,
        }) == unused_limits_text(text@),
{
    match parse_json(text) {
        Some(json) => match normalize_rate_limit_event(&json) {
            Some(unused) => Some(render_json(&unused)),
            None => None,
        },
        None => None,
    }
}

/// A message of the upstream without what it tells of limits: a client of another make gets no
/// event of limits at all.
pub open spec fn without_limits(message: MessageView, codex_originator: bool) -> Option<
    MessageView,
> {
    if message_kind(message) == Some("codex.rate_limits"@) {
        if codex_originator {
            match unused_limits_text(message->Text_0) {
                Some(text) => Some(MessageView::Text(text)),
                None => Some(message),
            }
        } else {
            None
        }
    } else {
        Some(message)
    }
}

/// The model of an optional message.
pub open spec fn optional_message(message: Option<WebsocketMessage>) -> Option<MessageView> {
    match message {
        Some(message) => Some(message@),
        None => None,
    }
}

/// A message of the upstream without what it tells of limits.
pub fn normalize_websocket_rate_limit_message(
    message: WebsocketMessage,
    codex_originator: bool,
) -> (normalized: Option<WebsocketMessage>)
    ensures
        optional_message(normalized) == without_limits(message@, codex_originator),
{
    match message {
        WebsocketMessage::Text(text) => {
            if !has_kind(text.as_str(), "codex.rate_limits") {
                return Some(WebsocketMessage::Text(text));
            }
            if !codex_originator {
                return None;
            }
            match normalize_rate_limit_event_payload(text.as_str()) {
                Some(normalized) => Some(WebsocketMessage::Text(normalized)),
                None => Some(WebsocketMessage::Text(text)),
            }
        },
        other => Some(other),
    }
}

/// The code of the error that an event holds.
pub open spec fn error_code(json: JsonView) -> Option<Seq<char>> {
    event_error(json).text_field("code"@)
}

fn has_error_code(json: &Json, expected: &str) -> (same: bool)
    ensures
        same == (error_code(json@) == Some(expected@)),
{
    match json.get("error") {
        Some(error) => match error.get_str("code") {
            Some(code) => same_text(code, expected),
            None => false,
        },
        None => false,
    }
}

/// Does an event say that the upstream does not know the response which a request follows on?
pub open spec fn forgets_response(json: JsonView) -> bool {
    json.text_field("type"@) == Some("error"@) && error_code(json) == Some(
        "previous_response_not_found"@,
    )
}

/// The event that asks a client to open a new websocket.
pub open spec fn reconnect_event() -> JsonView {
    JsonView::empty_object().with("type"@, JsonView::Text("error"@)).with(
        "status"@,
        JsonView::Integer(400),
    ).with(
        "error"@,
        JsonView::empty_object().with("type"@, JsonView::Text("invalid_request_error"@)).with(
            "code"@,
            JsonView::Text(WEBSOCKET_CONNECTION_LIMIT_REACHED_CODE@),
        ).with("message"@, JsonView::Text(WEBSOCKET_CONNECTION_LIMIT_REACHED_MESSAGE@)),
    )
}

/// Does an event say that the upstream does not know the response which a request follows on?
pub fn is_previous_response_not_found(json: &Json) -> (forgets: bool)
    ensures
        forgets == forgets_response(json@),
{
    match json.get_str("type") {
        Some(kind) => same_text(kind, "error") && has_error_code(
            json,
            "previous_response_not_found",
        ),
        None => false,
    }
}

/// The event that asks a client to open a new websocket.
pub fn connection_limit_event() -> (event: Json)
    ensures
        event@ == reconnect_event(),
{
    let error: Json = Json::object().with("type", Json::text("invalid_request_error")).with(
        "code",
        Json::text(WEBSOCKET_CONNECTION_LIMIT_REACHED_CODE),
    ).with("message", Json::text(WEBSOCKET_CONNECTION_LIMIT_REACHED_MESSAGE));
    Json::object().with("type", Json::text("error")).with("status", Json::natural(400)).with(
        "error",
        error,
    )
}

/// The text that a client gets in place of one that says that a response is not known.
pub open spec fn reconnect_text(text: Seq<char>) -> Option<Seq<char>> {
    match parsed_json(text) {
        Some(json) => if forgets_response(json) {
            Some(json_text(reconnect_event()))
        } else {
            None
        },
        None => None,
    }
}

/// The text that a client gets in place of one that says that a response is not known: it then
/// opens a new websocket and sends the whole request; nothing where the text says no such thing.
pub fn rewrite_previous_response_not_found_payload(text: &str) -> (rewritten: Option<String>)
    ensures
        (match rewritten {
            Some(rewritten) => Some(rewritten@),
            None => None,
        }) == reconnect_text(text@),
{
    match parse_json(text) {
        Some(json) => if is_previous_response_not_found(&json) {
            Some(render_json(&connection_limit_event()))
        } else {
            None
        },
        None => None,
    }
}

/// A message of the upstream, or the one that asks for a new websocket in its place.
pub open spec fn reconnecting(message: MessageView) -> MessageView {
    match message {
        MessageView::Text(text) => match reconnect_text(text) {
            Some(rewritten) => MessageView::Text(rewritten),
            None => message,
        },
        _ => message,
    }
}

/// A message of the upstream, or the one that asks for a new websocket in its place.
pub fn rewrite_previous_response_not_found_message(message: WebsocketMessage) -> (rewritten:
    WebsocketMessage)
    ensures
        rewritten@ == reconnecting(message@),
{
    match message {
        WebsocketMessage::Text(text) => match rewrite_previous_response_not_found_payload(
            text.as_str(),
        ) {
            Some(rewritten) => WebsocketMessage::Text(rewritten),
            None => WebsocketMessage::Text(text),
        },
        other => other,
    }
}

/// A request as it goes to the upstream.
pub open spec fn outgoing_request(
    json: JsonView,
    mode: FingerprintMode,
    codex_originator: bool,
    snapshot: Option<&ModelsSnapshot>,
    installation_id: Option<Seq<char>>,
) -> JsonView {
    let body = normalized_responses(mode, codex_originator, json, snapshot);
    if mode == FingerprintMode::Normalize {
        let sourced = with_user_thread_source(body);
        match installation_id {
            Some(id) => with_metadata(sourced, "x-codex-installation-id"@, id),
            None => sourced,
        }
    } else {
        body
    }
}

/// A request as it goes to the upstream, where that is not as it came; nothing else changes.
pub open spec fn changed_request(
    json: JsonView,
    mode: FingerprintMode,
    codex_originator: bool,
    snapshot: Option<&ModelsSnapshot>,
    installation_id: Option<Seq<char>>,
) -> Option<JsonView> {
    let outgoing = outgoing_request(json, mode, codex_originator, snapshot, installation_id);
    if json.text_field("type"@) == Some("response.create"@) && outgoing != json {
        Some(outgoing)
    } else {
        None
    }
}

/// A request as it goes to the upstream, where that is not as it came.
pub fn normalize_response_create(
    json: &Json,
    mode: FingerprintMode,
    codex_originator: bool,
    snapshot: Option<&ModelsSnapshot>,
    installation_id: Option<&str>,
) -> (changed: Option<Json>)
    ensures
        (match changed {
            Some(changed) => Some(changed@),
            None => None,
        }) == changed_request(
            json@,
            mode,
            codex_originator,
            snapshot,
            optional_text(installation_id),
        ),
{
    match json.get_str("type") {
        Some(kind) => if !same_text(kind, "response.create") {
            return None;
        },
        None => {
            return None;
        },
    }
    let mut body: Json = json.clone();
    normalize_responses_request_body(mode, codex_originator, &mut body, snapshot);
    if mode == FingerprintMode::Normalize {
        apply_client_metadata_user_thread_source(&mut body);
        if let Some(id) = installation_id {
            apply_client_metadata_installation_id(&mut body, id);
        }
    }
    if body.same(json) {
        None
    } else {
        Some(body)
    }
}

/// The text of a request as it goes to the upstream, where that is not as it came.
pub open spec fn changed_request_text(
    text: Seq<char>,
    mode: FingerprintMode,
    codex_originator: bool,
    snapshot: Option<&ModelsSnapshot>,
    installation_id: Option<Seq<char>>,
) -> Option<Seq<char>> {
    match parsed_json(text) {
        Some(json) => match changed_request(
            json,
            mode,
            codex_originator,
            snapshot,
            installation_id,
        ) {
            Some(changed) => Some(json_text(changed)),
            None => None,
        },
        None => None,
    }
}

/// The text of a request as it goes to the upstream; nothing where it goes as it came.
pub fn normalize_response_create_payload(
    text: &str,
    mode: FingerprintMode,
    codex_originator: bool,
    snapshot: Option<&ModelsSnapshot>,
    installation_id: Option<&str>,
) -> (normalized: Option<String>)
    ensures
        (match normalized {
            Some(normalized) => Some(normalized@),
            None => None,
        }) == changed_request_text(
            text@,
            mode,
            codex_originator,
            snapshot,
            optional_text(installation_id),
        ),
{
    match parse_json(text) {
        Some(json) => match normalize_response_create(
            &json,
            mode,
            codex_originator,
            snapshot,
            installation_id,
        ) {
            Some(changed) => Some(render_json(&changed)),
            None => None,
        },
        None => None,
    }
}

/// The text of a request of a Codex client as it goes to the upstream.
pub fn normalize_response_create_installation_id_payload(
    text: &str,
    mode: FingerprintMode,
    installation_id: Option<&str>,
) -> (normalized: Option<String>)
    ensures
        (match normalized {
            Some(normalized) => Some(normalized@),
            None => None,
        }) == changed_request_text(text@, mode, true, None, optional_text(installation_id)),
{
    normalize_response_create_payload(text, mode, true, None, installation_id)
}

/// A message of a client as it goes to the upstream.
pub open spec fn outgoing(
    message: MessageView,
    mode: FingerprintMode,
    codex_originator: bool,
    snapshot: Option<&ModelsSnapshot>,
    installation_id: Option<Seq<char>>,
) -> MessageView {
    match message {
        MessageView::Text(text) => match changed_request_text(
            text,
            mode,
            codex_originator,
            snapshot,
            installation_id,
        ) {
            Some(changed) => MessageView::Text(changed),
            None => message,
        },
        _ => message,
    }
}

/// A message of a client as it goes to the upstream.
pub fn normalize_response_create_message(
    message: WebsocketMessage,
    mode: FingerprintMode,
    codex_originator: bool,
    snapshot: Option<&ModelsSnapshot>,
    installation_id: Option<&str>,
) -> (normalized: WebsocketMessage)
    ensures
        normalized@ == outgoing(
            message@,
            mode,
            codex_originator,
            snapshot,
            optional_text(installation_id),
        ),
{
    match message {
        WebsocketMessage::Text(text) => match normalize_response_create_payload(
            text.as_str(),
            mode,
            codex_originator,
            snapshot,
            installation_id,
        ) {
            Some(changed) => WebsocketMessage::Text(changed),
            None => WebsocketMessage::Text(text),
        },
        other => other,
    }
}

/// Does a message ask a client to open a new websocket?
pub open spec fn asks_to_reconnect(message: MessageView) -> bool {
    match message {
        MessageView::Text(text) => match parsed_json(text) {
            Some(json) => error_code(json) == Some(WEBSOCKET_CONNECTION_LIMIT_REACHED_CODE@),
            None => false,
        },
        _ => false,
    }
}

/// Is a message passed on which asks a client to open a new websocket? Only where a request waits
/// of whose response nothing has come yet.
pub fn should_passthrough_retryable_websocket_reset(
    has_pending_uncommitted_request: bool,
    message: &WebsocketMessage,
) -> (passes: bool)
    ensures
        passes == (has_pending_uncommitted_request && asks_to_reconnect(message@)),
{
    if !has_pending_uncommitted_request {
        return false;
    }
    match message {
        WebsocketMessage::Text(text) => match parse_json(text.as_str()) {
            Some(json) => has_error_code(&json, WEBSOCKET_CONNECTION_LIMIT_REACHED_CODE),
            None => false,
        },
        _ => false,
    }
}

/// Does a message of a client begin a request?
pub open spec fn begins_request(message: MessageView) -> bool {
    message_kind(message) == Some("response.create"@)
}

/// Does a message of a client begin a request?
pub fn is_responses_websocket_request_start(message: &WebsocketMessage) -> (begins: bool)
    ensures
        begins == begins_request(message@),
{
    match message {
        WebsocketMessage::Text(text) => has_kind(text.as_str(), "response.create"),
        _ => false,
    }
}

/// Does a message carry content?
pub open spec fn carries_content(message: MessageView) -> bool {
    message is Text || message is Binary
}

/// Is a message of a client sent once more with another account?
pub fn should_replay_client_message(message: &WebsocketMessage) -> (replays: bool)
    ensures
        replays == carries_content(message@),
{
    match message {
        WebsocketMessage::Text(_) | WebsocketMessage::Binary(_) => true,
        _ => false,
    }
}

/// Is a message of the upstream held back until the response has begun?
pub fn should_buffer_upstream_message_before_commit(message: &WebsocketMessage) -> (holds: bool)
    ensures
        holds == carries_content(message@),
{
    match message {
        WebsocketMessage::Text(_) | WebsocketMessage::Binary(_) => true,
        _ => false,
    }
}

/// Has the response begun with this message, so that no other account can take it over?
pub open spec fn commits(message: MessageView) -> bool {
    match message {
        MessageView::Text(text) => {
            let kind = text_kind(text);
            kind != Some("error"@) && kind != Some("response.failed"@) && kind != Some(
                "response.incomplete"@,
            ) && kind != Some("codex.rate_limits"@)
        },
        MessageView::Binary(_) => true,
        _ => false,
    }
}

/// Has the response begun with this message?
pub fn upstream_message_commits_request(message: &WebsocketMessage) -> (committed: bool)
    ensures
        committed == commits(message@),
{
    match message {
        WebsocketMessage::Text(text) => match websocket_message_type(text.as_str()) {
            Some(kind) => !(same_text(kind.as_str(), "error") || same_text(
                kind.as_str(),
                "response.failed",
            ) || same_text(kind.as_str(), "response.incomplete") || same_text(
                kind.as_str(),
                "codex.rate_limits",
            )),
            None => true,
        },
        WebsocketMessage::Binary(_) => true,
        _ => false,
    }
}

/// Does the response end with this message?
pub open spec fn is_last(message: MessageView) -> bool {
    match message {
        MessageView::Text(text) => {
            let kind = text_kind(text);
            kind == Some("error"@) || kind == Some("response.failed"@) || kind == Some(
                "response.incomplete"@,
            ) || kind == Some("response.completed"@)
        },
        MessageView::Close(_) => true,
        _ => false,
    }
}

/// Does the response end with this message?
pub fn upstream_message_is_terminal(message: &WebsocketMessage) -> (last: bool)
    ensures
        last == is_last(message@),
{
    match message {
        WebsocketMessage::Text(text) => match websocket_message_type(text.as_str()) {
            Some(kind) => same_text(kind.as_str(), "error") || same_text(
                kind.as_str(),
                "response.failed",
            ) || same_text(kind.as_str(), "response.incomplete") || same_text(
                kind.as_str(),
                "response.completed",
            ),
            None => false,
        },
        WebsocketMessage::Close(_) => true,
        _ => false,
    }
}

/// A code that a close may carry on the wire.
pub open spec fn wire_legal(code: u16) -> bool {
    1000 <= code <= 1003 || 1007 <= code <= 1013 || 3000 <= code <= 4999
}

/// May a close carry this code on the wire?
pub fn is_wire_legal_close_code(code: u16) -> (legal: bool)
    ensures
        legal == wire_legal(code),
{
    (1000 <= code && code <= 1003) || (1007 <= code && code <= 1013) || (3000 <= code && code
        <= 4999)
}

/// A message as it can be sent: a close without a frame where its code is not to be sent.
pub open spec fn sendable(message: MessageView) -> MessageView {
    match message {
        MessageView::Close(Some((code, reason))) => if wire_legal(code) {
            message
        } else {
            MessageView::Close(None)
        },
        _ => message,
    }
}

fn sanitize_close(message: WebsocketMessage) -> (sanitized: WebsocketMessage)
    ensures
        sanitized@ == sendable(message@),
{
    match message {
        WebsocketMessage::Close(Some(frame)) => if is_wire_legal_close_code(frame.code) {
            WebsocketMessage::Close(Some(frame))
        } else {
            WebsocketMessage::Close(None)
        },
        other => other,
    }
}

/// A message of a client as the upstream can be sent it.
pub fn map_client_message_to_upstream(message: WebsocketMessage) -> (mapped: WebsocketMessage)
    ensures
        mapped@ == sendable(message@),
{
    sanitize_close(message)
}

/// A message of the upstream as a client can be sent it; nothing for a raw frame.
pub fn map_upstream_message_to_client(message: WebsocketMessage) -> (mapped: Option<
    WebsocketMessage,
>)
    ensures
        optional_message(mapped) == (if message@ is Frame {
            None
        } else {
            Some(sendable(message@))
        }),
{
    match message {
        WebsocketMessage::Frame => None,
        other => Some(sanitize_close(other)),
    }
}

/// The outcome that is known once a message of the upstream has come.
pub fn known_settlement_from_upstream_message(
    message: &WebsocketMessage,
    classified: Option<WebsocketProxyOutcome>,
) -> (known: Option<WebsocketProxyOutcome>)
    ensures
        known == (match classified {
            Some(outcome) => Some(outcome),
            None => if message_kind(message@) == Some("response.completed"@) {
                Some(WebsocketProxyOutcome::Success)
            } else {
                None
            },
        }),
{
    match classified {
        Some(outcome) => Some(outcome),
        None => match message {
            WebsocketMessage::Text(text) => if has_kind(text.as_str(), "response.completed") {
                Some(WebsocketProxyOutcome::Success)
            } else {
                None
            },
            _ => None,
        },
    }
}

}
