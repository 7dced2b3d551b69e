//! What the messages of an upstream websocket mean for the account that it belongs to.
use crate::classifier::FailureClass;
use crate::error_semantics::{
    analyze_error_at, borrowed, either, empty_payload, error_class, exact, explicit_payload,
    header_delay, headers_delay, message_hint, parse_retry_after_str_at,
    parse_structured_error_value, payload_of, resets_delay, retry_view, AnalyzeErrorContext,
    PayloadView, RetryAfter, RetryView, StructuredErrorPayload, UpstreamErrorSemantics,
};
use crate::json::{optional_text, parse_json, parsed_json, Json, JsonNumber, JsonView};
use crate::responses::failure::or_text;
use crate::responses::websocket::{
    optional_outcome, CloseFrame, MessageView, OutcomeView, WebsocketMessage,
    WebsocketProxyOutcome,
};
use crate::text::{
    chars_of, contains_text, decimal, decimal_text, has_text, lower, same_text, signed_decimal,
    signed_decimal_text, to_lower, trim, trimmed,
};
use crate::time::{in_calendar, utc_now, Delay, Timestamp};
use vstd::prelude::*;

verus! {

/// The code of the error that asks a client to open a new websocket.
pub const WEBSOCKET_CONNECTION_LIMIT_REACHED_CODE: &'static str =
    "websocket_connection_limit_reached";

/// The message of that error.
pub const WEBSOCKET_CONNECTION_LIMIT_REACHED_MESSAGE: &'static str =
    "Responses websocket connection limit reached (60 minutes). Create a new websocket connection to continue.";

/// What an event of failure means.
#[derive(Debug, Clone, PartialEq, Eq)]
pub struct ClassifiedFailure {
    pub status: u16,
    pub failure: FailureClass,
    pub retry_after: Option<RetryAfter>,
    pub details: String,
}

/// The model of such a meaning.
pub struct ClassifiedView {
    pub status: u16,
    pub failure: FailureClass,
    pub retry_after: Option<RetryView>,
    pub details: Seq<char>,
}

impl View for ClassifiedFailure {
    type V = ClassifiedView;

    open spec fn view(&self) -> ClassifiedView {
        ClassifiedView {
            status: self.status,
            failure: self.failure,
            retry_after: retry_view(self.retry_after),
            details: self.details@,
        }
    }
}

/// The status that an error stands for, by its code, its type or its message; nothing where none
/// of them tells.
pub open spec fn told_status(
    code: Option<Seq<char>>,
    error_type: Option<Seq<char>>,
    message: Seq<char>,
) -> Option<u16> {
    if error_type == Some("usage_limit_reached"@) || code == Some("rate_limit_exceeded"@) {
        Some(429)
    } else if code == Some("insufficient_quota"@) {
        Some(403)
    } else if code == Some("server_is_overloaded"@) || code == Some("slow_down"@) {
        Some(503)
    } else if code == Some("invalid_prompt"@) || code == Some("context_length_exceeded"@) {
        Some(400)
    } else if error_type == Some("authentication_error"@) || code == Some("invalid_api_key"@) {
        Some(401)
    } else if error_type == Some("permission_error"@) || code == Some("forbidden"@) {
        Some(403)
    } else if has_text(lower(message), "unauthorized"@) {
        Some(401)
    } else if risk_text(lower(message)) {
        Some(403)
    } else {
        None
    }
}

/// Does a text, in lower case, speak of a check for abuse?
pub open spec fn risk_text(text: Seq<char>) -> bool {
    has_text(text, "unusual activity"@) || has_text(text, "arkose"@) || has_text(
        text,
        "turnstile"@,
    )
}

fn speaks_of_risk(text: &str) -> (found: bool)
    ensures
        found == risk_text(text@),
{
    contains_text(text, "unusual activity") || contains_text(text, "arkose") || contains_text(
        text,
        "turnstile",
    )
}

fn is_text(text: Option<&str>, expected: &str) -> (same: bool)
    ensures
        same == (optional_text(text) == Some(expected@)),
{
    match text {
        Some(text) => same_text(text, expected),
        None => false,
    }
}

/// The status that an error stands for, by its code, its type or its message.
pub fn infer_response_error_status(
    code: Option<&str>,
    error_type: Option<&str>,
    message: &str,
) -> (status: Option<u16>)
    ensures
        status == told_status(optional_text(code), optional_text(error_type), message@),
{
    if is_text(error_type, "usage_limit_reached") || is_text(code, "rate_limit_exceeded") {
        return Some(429);
    }
    if is_text(code, "insufficient_quota") {
        return Some(403);
    }
    if is_text(code, "server_is_overloaded") || is_text(code, "slow_down") {
        return Some(503);
    }
    if is_text(code, "invalid_prompt") || is_text(code, "context_length_exceeded") {
        return Some(400);
    }
    if is_text(error_type, "authentication_error") || is_text(code, "invalid_api_key") {
        return Some(401);
    }
    if is_text(error_type, "permission_error") || is_text(code, "forbidden") {
        return Some(403);
    }
    let lowered: String = to_lower(message);
    if contains_text(lowered.as_str(), "unauthorized") {
        Some(401)
    } else if speaks_of_risk(lowered.as_str()) {
        Some(403)
    } else {
        None
    }
}

/// The class of an error that an event tells of.
pub open spec fn event_class(status: u16, payload: PayloadView) -> FailureClass {
    error_class(
        status,
        payload.code,
        payload.error_type,
        payload.message,
        FailureClass::AccessTokenRejected,
    )
}

/// When to try again after an event: as given, else once a limit is lifted, else as the message
/// says.
pub open spec fn event_retry(
    payload: PayloadView,
    given: Option<Delay>,
    now: Timestamp,
) -> Option<RetryView> {
    let known = either(given, resets_delay(payload, now));
    if known is Some {
        exact(known)
    } else {
        match payload.message {
            Some(message) => message_hint(message),
            None => None,
        }
    }
}

fn analyze_event_at(
    status: u16,
    payload: &StructuredErrorPayload,
    given: Option<Delay>,
    now: Timestamp,
) -> (meaning: (FailureClass, Option<RetryAfter>))
    requires
        in_calendar(now),
    ensures
        meaning.0 == event_class(status, payload@),
        retry_view(meaning.1) == event_retry(payload@, given, now),
{
    let nothing: StructuredErrorPayload = StructuredErrorPayload {
        code: None,
        message: None,
        error_type: None,
        plan_type: None,
        resets_at: None,
        resets_in_seconds: None,
    };
    let context: AnalyzeErrorContext<'_> = AnalyzeErrorContext {
        status,
        headers: None,
        body: None,
        explicit_code: borrowed(&payload.code),
        explicit_message: borrowed(&payload.message),
        explicit_error_type: borrowed(&payload.error_type),
        explicit_plan_type: borrowed(&payload.plan_type),
        explicit_resets_at: payload.resets_at,
        explicit_resets_in_seconds: payload.resets_in_seconds,
        explicit_retry_after: given,
        unauthorized_failure: FailureClass::AccessTokenRejected,
        allow_message_retry_after: true,
    };
    assert(nothing@ == empty_payload());
    assert(explicit_payload(context, empty_payload()) == payload@);
    assert(headers_delay(context.headers, now) is None);
    let semantics: UpstreamErrorSemantics = analyze_error_at(context, nothing, now);
    (semantics.failure, semantics.retry_after)
}

/// The fields of an error, with a message in any case.
pub open spec fn with_message(payload: PayloadView, message: Seq<char>) -> PayloadView {
    PayloadView { message: Some(or_text(payload.message, message)), ..payload }
}

/// The message of an event that holds none.
pub open spec fn silent_failure() -> Seq<char> {
    "response.failed event received"@
}

/// The status of an error of no told status.
pub open spec fn or_status(status: Option<u16>, other: u16) -> u16 {
    match status {
        Some(status) => status,
        None => other,
    }
}

/// What the error of a failed response means.
pub open spec fn failed_meaning(error: JsonView, now: Timestamp) -> ClassifiedView {
    let payload = with_message(payload_of(error), silent_failure());
    let status = or_status(
        told_status(payload.code, payload.error_type, payload.message->0),
        400,
    );
    ClassifiedView {
        status,
        failure: event_class(status, payload),
        retry_after: event_retry(payload, None, now),
        details: payload.message->0,
    }
}

fn with_default_message(payload: StructuredErrorPayload) -> (filled: StructuredErrorPayload)
    ensures
        filled@ == with_message(payload@, silent_failure()),
{
    let mut filled: StructuredErrorPayload = payload;
    if filled.message.is_none() {
        filled.message = Some("response.failed event received".to_owned());
    }
    filled
}

/// What the error of a failed response means, at `now`.
pub fn classify_response_failed_event_at(error: &Json, now: Timestamp) -> (classified:
    ClassifiedFailure)
    requires
        in_calendar(now),
    ensures
        classified@ == failed_meaning(error@, now),
{
    let payload: StructuredErrorPayload = with_default_message(parse_structured_error_value(error));
    let details: String = match &payload.message {
        Some(message) => message.clone(),
        None => "".to_owned(),
    };
    let status: u16 = match infer_response_error_status(
        borrowed(&payload.code),
        borrowed(&payload.error_type),
        details.as_str(),
    ) {
        Some(status) => status,
        None => 400,
    };
    let (failure, retry_after) = analyze_event_at(status, &payload, None, now);
    ClassifiedFailure { status, failure, retry_after, details }
}

/// What the error of a failed response means.
pub fn classify_response_failed_event(error: &Json) -> (classified: ClassifiedFailure)
    ensures
        exists|now: Timestamp| #[trigger]
            in_calendar(now) && classified@ == failed_meaning(error@, now),
{
    let now: Timestamp = utc_now();
    classify_response_failed_event_at(error, now)
}

/// The HTTP status under a key.
pub open spec fn status_field(json: JsonView, key: Seq<char>) -> Option<u16> {
    match json.field(key) {
        Some(value) => match value.unsigned() {
            Some(n) => if 100 <= n <= 999 {
                Some(n as u16)
            } else {
                None
            },
            None => None,
        },
        None => None,
    }
}

/// The status that an event states.
pub open spec fn stated_status(json: JsonView) -> Option<u16> {
    either(status_field(json, "status"@), status_field(json, "status_code"@))
}

fn get_status(json: &Json, key: &str) -> (status: Option<u16>)
    ensures
        status == status_field(json@, key@),
{
    match json.get(key) {
        Some(value) => match value.as_u64() {
            Some(n) => if 100 <= n && n <= 999 {
                Some(n as u16)
            } else {
                None
            },
            None => None,
        },
        None => None,
    }
}

fn explicit_status(json: &Json) -> (status: Option<u16>)
    ensures
        status == stated_status(json@),
{
    match get_status(json, "status") {
        Some(status) => Some(status),
        None => get_status(json, "status_code"),
    }
}

/// What an event of an error means: its error object, or the event itself where it has none.
pub open spec fn error_event_meaning(json: JsonView, now: Timestamp) -> ClassifiedView {
    let source = match json.field("error"@) {
        Some(error) => if error is Object {
            error
        } else {
            json
        },
        None => json,
    };
    let payload = with_message(payload_of(source), silent_failure());
    let status = or_status(
        either(
            stated_status(json),
            told_status(payload.code, payload.error_type, payload.message->0),
        ),
        400,
    );
    ClassifiedView {
        status,
        failure: event_class(status, payload),
        retry_after: event_retry(payload, None, now),
        details: payload.message->0,
    }
}

/// What an event of an error means, at `now`.
pub fn classify_openai_error_event_at(json: &Json, now: Timestamp) -> (classified:
    ClassifiedFailure)
    requires
        in_calendar(now),
    ensures
        classified@ == error_event_meaning(json@, now),
{
    let source: &Json = match json.get("error") {
        Some(error) => if error.is_object() {
            error
        } else {
            json
        },
        None => json,
    };
    let payload: StructuredErrorPayload = with_default_message(
        parse_structured_error_value(source),
    );
    let details: String = match &payload.message {
        Some(message) => message.clone(),
        None => "".to_owned(),
    };
    let status: u16 = match explicit_status(json) {
        Some(status) => status,
        None => match infer_response_error_status(
            borrowed(&payload.code),
            borrowed(&payload.error_type),
            details.as_str(),
        ) {
            Some(status) => status,
            None => 400,
        },
    };
    let (failure, retry_after) = analyze_event_at(status, &payload, None, now);
    ClassifiedFailure { status, failure, retry_after, details }
}

/// What an event of an error means.
pub fn classify_openai_error_event(json: &Json) -> (classified: ClassifiedFailure)
    ensures
        exists|now: Timestamp| #[trigger]
            in_calendar(now) && classified@ == error_event_meaning(json@, now),
{
    let now: Timestamp = utc_now();
    classify_openai_error_event_at(json, now)
}

/// A text, a number or a truth value as text.
pub open spec fn scalar_text(value: JsonView) -> Option<Seq<char>> {
    match value {
        JsonView::Text(text) => Some(text),
        JsonView::Integer(n) => Some(signed_decimal(n)),
        JsonView::Decimal(text) => Some(text),
        JsonView::Bool(b) => Some(
            if b {
                "true"@
            } else {
                "false"@
            },
        ),
        _ => None,
    }
}

fn render_scalar(value: &Json) -> (text: Option<String>)
    ensures
        (match text {
            Some(text) => Some(text@),
            None => None,
        }) == scalar_text(value@),
{
    match value {
        Json::Text(text) => Some(text.clone()),
        Json::Number(JsonNumber::Unsigned(n)) => Some(decimal_text(*n as u128)),
        Json::Number(JsonNumber::Negative(n)) => Some(signed_decimal_text(*n)),
        Json::Number(JsonNumber::Decimal(text)) => Some(text.clone()),
        Json::Bool(b) => Some(
            if *b {
                "true".to_owned()
            } else {
                "false".to_owned()
            },
        ),
        _ => None,
    }
}

/// Only characters that a header value read as text may hold.
pub open spec fn visible(text: Seq<char>) -> bool {
    forall|i: int|
        0 <= i < text.len() ==> (32 <= (#[trigger] text[i]) as u32 && (text[i] as u32) < 127)
            || text[i] == '\t'
}

fn is_visible(text: &str) -> (ok: bool)
    ensures
        ok == visible(text@),
{
    let chars: Vec<char> = chars_of(text);
    let mut i: usize = 0;
    while i < chars.len()
        invariant
            i <= chars.len(),
            chars@ == text@,
            forall|j: int|
                0 <= j < i ==> (32 <= (#[trigger] text@[j]) as u32 && (text@[j] as u32) < 127)
                    || text@[j] == '\t',
        decreases chars.len() - i,
    {
        let n: u32 = chars[i] as u32;
        if !((32 <= n && n < 127) || chars[i] == '\t') {
            assert(text@[i as int] == chars[i as int]);
            return false;
        }
        i = i + 1;
    }
    true
}

/// The value of `retry-after` among the headers that an event holds.
pub open spec fn event_header(json: JsonView) -> Option<Seq<char>> {
    match json.field("headers"@) {
        Some(headers) => match headers.field("retry-after"@) {
            Some(value) => scalar_text(value),
            None => None,
        },
        None => None,
    }
}

fn get_event_header(json: &Json) -> (text: Option<String>)
    ensures
        (match text {
            Some(text) => Some(text@),
            None => None,
        }) == event_header(json@),
{
    match json.get("headers") {
        Some(headers) => match headers.get("retry-after") {
            Some(value) => render_scalar(value),
            None => None,
        },
        None => None,
    }
}

/// The delay that the headers of an event name.
pub open spec fn event_header_delay(json: JsonView, now: Timestamp) -> Option<Delay> {
    match event_header(json) {
        Some(text) => if visible(text) {
            header_delay(trimmed(text), now)
        } else {
            None
        },
        None => None,
    }
}

/// A piece of a description, where there is a value for it.
pub open spec fn piece(label: Seq<char>, value: Option<Seq<char>>) -> Seq<char> {
    match value {
        Some(value) => label + value,
        None => Seq::empty(),
    }
}

/// An integer as text.
pub open spec fn integer_text(n: Option<i64>) -> Option<Seq<char>> {
    match n {
        Some(n) => Some(signed_decimal(n as int)),
        None => None,
    }
}

fn push_piece(text: &mut String, label: &str, value: Option<&str>)
    ensures
        final(text)@ == old(text)@ + piece(label@, optional_text(value)),
{
    if let Some(value) = value {
        text.append(label);
        text.append(value);
        assert(text@ == old(text)@ + (label@ + value@));
    } else {
        assert(text@ == old(text)@ + Seq::<char>::empty());
    }
}

fn push_integer(text: &mut String, label: &str, value: Option<i64>)
    ensures
        final(text)@ == old(text)@ + piece(label@, integer_text(value)),
{
    if let Some(n) = value {
        let shown: String = signed_decimal_text(n);
        push_piece(text, label, Some(shown.as_str()));
    } else {
        push_piece(text, label, None);
    }
}

/// The error object of an event; nothing where it has none.
pub open spec fn event_error(json: JsonView) -> JsonView {
    match json.field("error"@) {
        Some(error) => error,
        None => JsonView::Null,
    }
}

/// A description of the event of an error.
pub open spec fn event_description(json: JsonView, status: u16) -> Seq<char> {
    let error = event_error(json);
    "responses websocket upstream returned error event: status="@ + decimal(status as nat) + piece(
        " error.type="@,
        error.text_field("type"@),
    ) + piece(" error.code="@, error.text_field("code"@)) + piece(
        " error.message="@,
        error.text_field("message"@),
    ) + piece(" error.resets_at="@, integer_text(error.signed_field("resets_at"@))) + piece(
        " error.resets_in_seconds="@,
        integer_text(error.signed_field("resets_in_seconds"@)),
    ) + piece(" headers.retry-after="@, event_header(json))
}

fn describe_wrapped_websocket_error_event(json: &Json, status: u16) -> (text: String)
    ensures
        text@ == event_description(json@, status),
{
    let nothing: Json = Json::Null;
    let error: &Json = match json.get("error") {
        Some(error) => error,
        None => &nothing,
    };
    let mut text: String = "responses websocket upstream returned error event: status=".to_owned();
    text.append(decimal_text(status as u128).as_str());
    push_piece(&mut text, " error.type=", error.get_str("type"));
    push_piece(&mut text, " error.code=", error.get_str("code"));
    push_piece(&mut text, " error.message=", error.get_str("message"));
    push_integer(&mut text, " error.resets_at=", error.get_i64("resets_at"));
    push_integer(&mut text, " error.resets_in_seconds=", error.get_i64("resets_in_seconds"));
    let header: Option<String> = get_event_header(json);
    push_piece(&mut text, " headers.retry-after=", borrowed(&header));
    text
}

/// The status of the event of an error: as it states, else as the error tells, else a bad gateway.
pub open spec fn wrapped_status(json: JsonView) -> u16 {
    let payload = payload_of(event_error(json));
    or_status(
        either(
            stated_status(json),
            told_status(payload.code, payload.error_type, or_text(payload.message, ""@)),
        ),
        502,
    )
}

/// The reason why a response is incomplete.
pub open spec fn incomplete_reason(json: JsonView) -> Seq<char> {
    match json.field("response"@) {
        Some(response) => match response.field("incomplete_details"@) {
            Some(details) => or_text(details.text_field("reason"@), "unknown"@),
            None => "unknown"@,
        },
        None => "unknown"@,
    }
}

/// The reason why a response is incomplete.
pub fn get_incomplete_reason(json: &Json) -> (reason: String)
    ensures
        reason@ == incomplete_reason(json@),
{
    match json.get("response") {
        Some(response) => match response.get("incomplete_details") {
            Some(details) => match details.get_str("reason") {
                Some(reason) => reason.to_owned(),
                None => "unknown".to_owned(),
            },
            None => "unknown".to_owned(),
        },
        None => "unknown".to_owned(),
    }
}

/// The outcome that an upstream event ends a request with; nothing where it ends none.
pub open spec fn event_outcome(json: JsonView, now: Timestamp) -> Option<OutcomeView> {
    let kind = json.text_field("type"@);
    if kind == Some("error"@) {
        let payload = payload_of(event_error(json));
        Some(
            OutcomeView::Failed {
                failure: event_class(wrapped_status(json), payload),
                retry_after: event_retry(payload, event_header_delay(json, now), now),
                details: event_description(json, wrapped_status(json)),
            },
        )
    } else if kind == Some("response.failed"@) {
        match json.field("response"@) {
            Some(response) => {
                let meaning = failed_meaning(event_error(response), now);
                Some(
                    OutcomeView::Failed {
                        failure: meaning.failure,
                        retry_after: meaning.retry_after,
                        details: "responses websocket upstream returned response.failed: "@
                            + meaning.details,
                    },
                )
            },
            None => None,
        }
    } else if kind == Some("response.incomplete"@) && json.field("response"@) is Some {
        Some(
            OutcomeView::Failed {
                failure: FailureClass::RequestRejected,
                retry_after: None,
                details: "responses websocket upstream returned response.incomplete: reason="@
                    + incomplete_reason(json),
            },
        )
    } else {
        None
    }
}

/// The outcome that an upstream event ends a request with, at `now`.
pub fn classify_websocket_error_event_at(json: &Json, now: Timestamp) -> (outcome: Option<
    WebsocketProxyOutcome,
>)
    requires
        in_calendar(now),
    ensures
        optional_outcome(outcome) == event_outcome(json@, now),
{
    let nothing: Json = Json::Null;
    let kind: Option<&str> = json.get_str("type");
    if is_text(kind, "error") {
        let error: &Json = match json.get("error") {
            Some(error) => error,
            None => &nothing,
        };
        let payload: StructuredErrorPayload = parse_structured_error_value(error);
        let message: &str = match &payload.message {
            Some(message) => message.as_str(),
            None => "",
        };
        let status: u16 = match explicit_status(json) {
            Some(status) => status,
            None => match infer_response_error_status(
                borrowed(&payload.code),
                borrowed(&payload.error_type),
                message,
            ) {
                Some(status) => status,
                None => 502,
            },
        };
        let given: Option<Delay> = match get_event_header(json) {
            Some(text) => if is_visible(text.as_str()) {
                parse_retry_after_str_at(trim(text.as_str()).as_str(), now)
            } else {
                None
            },
            None => None,
        };
        let (failure, retry_after) = analyze_event_at(status, &payload, given, now);
        let details: String = describe_wrapped_websocket_error_event(json, status);
        return Some(WebsocketProxyOutcome::Failed { failure, retry_after, details });
    }
    if is_text(kind, "response.failed") {
        return match json.get("response") {
            Some(response) => {
                let error: &Json = match response.get("error") {
                    Some(error) => error,
                    None => &nothing,
                };
                let classified: ClassifiedFailure = classify_response_failed_event_at(error, now);
                let mut details: String =
                    "responses websocket upstream returned response.failed: ".to_owned();
                details.append(classified.details.as_str());
                Some(
                    WebsocketProxyOutcome::Failed {
                        failure: classified.failure,
                        retry_after: classified.retry_after,
                        details,
                    },
                )
            },
            None => None,
        };
    }
    if is_text(kind, "response.incomplete") && json.get("response").is_some() {
        let mut details: String =
            "responses websocket upstream returned response.incomplete: reason=".to_owned();
        details.append(get_incomplete_reason(json).as_str());
        return Some(
            WebsocketProxyOutcome::Failed {
                failure: FailureClass::RequestRejected,
                retry_after: None,
                details,
            },
        );
    }
    None
}

/// The outcome that an upstream text ends a request with.
pub open spec fn text_outcome(text: Seq<char>, now: Timestamp) -> Option<OutcomeView> {
    match parsed_json(text) {
        Some(json) => event_outcome(json, now),
        None => None,
    }
}

/// The outcome that an upstream text ends a request with; nothing where it is no event of failure.
pub fn classify_websocket_error_text(text: &str) -> (outcome: Option<WebsocketProxyOutcome>)
    ensures
        exists|now: Timestamp| #[trigger]
            in_calendar(now) && optional_outcome(outcome) == text_outcome(text@, now),
{
    let now: Timestamp = utc_now();
    match parse_json(text) {
        Some(json) => classify_websocket_error_event_at(&json, now),
        None => None,
    }
}

/// The class of failure that the reason of a close speaks of.
pub open spec fn close_class(reason: Seq<char>) -> Option<FailureClass> {
    let text = lower(reason);
    if risk_text(text) {
        Some(FailureClass::RiskControlled)
    } else if has_text(text, "rate limit"@) {
        Some(FailureClass::RateLimited)
    } else if has_text(text, "quota"@) || has_text(text, "usage cap"@) {
        Some(FailureClass::QuotaExhausted)
    } else {
        None
    }
}

/// The outcome that a close ends a request with: a failure that its reason speaks of, nothing for
/// a close in order, and a passing failure for any other.
pub open spec fn close_outcome(code: u16, reason: Seq<char>) -> OutcomeView {
    match close_class(reason) {
        Some(failure) => OutcomeView::Failed {
            failure,
            retry_after: None,
            details: "responses websocket upstream closed with error: reason="@ + reason,
        },
        None => if code == 1000 || code == 1001 {
            OutcomeView::Released
        } else {
            OutcomeView::Failed {
                failure: FailureClass::TemporaryFailure,
                retry_after: None,
                details: "responses websocket upstream closed with error: code="@ + decimal(
                    code as nat,
                ) + " reason="@ + reason,
            }
        },
    }
}

fn classify_websocket_close_reason(reason: &str) -> (failure: Option<FailureClass>)
    ensures
        failure == close_class(reason@),
{
    let lowered: String = to_lower(reason);
    if speaks_of_risk(lowered.as_str()) {
        Some(FailureClass::RiskControlled)
    } else if contains_text(lowered.as_str(), "rate limit") {
        Some(FailureClass::RateLimited)
    } else if contains_text(lowered.as_str(), "quota") || contains_text(
        lowered.as_str(),
        "usage cap",
    ) {
        Some(FailureClass::QuotaExhausted)
    } else {
        None
    }
}

/// The outcome that a close ends a request with.
pub fn classify_websocket_close_frame(frame: &CloseFrame) -> (outcome: WebsocketProxyOutcome)
    ensures
        outcome@ == close_outcome(frame.code, frame.reason@),
{
    match classify_websocket_close_reason(frame.reason.as_str()) {
        Some(failure) => {
            let mut details: String =
                "responses websocket upstream closed with error: reason=".to_owned();
            details.append(frame.reason.as_str());
            WebsocketProxyOutcome::Failed { failure, retry_after: None, details }
        },
        None => if frame.code == 1000 || frame.code == 1001 {
            WebsocketProxyOutcome::Released
        } else {
            let mut details: String =
                "responses websocket upstream closed with error: code=".to_owned();
            details.append(decimal_text(frame.code as u128).as_str());
            details.append(" reason=");
            details.append(frame.reason.as_str());
            WebsocketProxyOutcome::Failed {
                failure: FailureClass::TemporaryFailure,
                retry_after: None,
                details,
            }
        },
    }
}

/// The outcome that an upstream message ends a request with.
pub open spec fn message_outcome(message: MessageView, now: Timestamp) -> Option<OutcomeView> {
    match message {
        MessageView::Text(text) => text_outcome(text, now),
        MessageView::Close(Some((code, reason))) => Some(close_outcome(code, reason)),
        MessageView::Close(None) => Some(OutcomeView::Released),
        _ => None,
    }
}

/// The outcome that an upstream message ends a request with, at `now`.
pub fn classify_websocket_upstream_message_at(message: &WebsocketMessage, now: Timestamp) -> (
    outcome: Option<WebsocketProxyOutcome>)
    requires
        in_calendar(now),
    ensures
        optional_outcome(outcome) == message_outcome(message@, now),
{
    match message {
        WebsocketMessage::Text(text) => match parse_json(text.as_str()) {
            Some(json) => classify_websocket_error_event_at(&json, now),
            None => None,
        },
        WebsocketMessage::Close(Some(frame)) => Some(classify_websocket_close_frame(frame)),
        WebsocketMessage::Close(None) => Some(WebsocketProxyOutcome::Released),
        _ => None,
    }
}

/// The outcome that an upstream message ends a request with; nothing where it ends none.
pub fn classify_websocket_upstream_message(message: &WebsocketMessage) -> (outcome: Option<
    WebsocketProxyOutcome,
>)
    ensures
        exists|now: Timestamp| #[trigger]
            in_calendar(now) && optional_outcome(outcome) == message_outcome(message@, now),
{
    let now: Timestamp = utc_now();
    classify_websocket_upstream_message_at(message, now)
}

}
