//! What an upstream error means: its class, and when to try again.
use crate::classifier::FailureClass;
use crate::headers::{header_entries, header_str, header_text};
use crate::json::{optional_text, parse_json, parsed_json, Json, JsonView};
use crate::text::{
    after_text, begins_with, contains_text, has_text, lower, number_length, parse_u64, parsed_u64,
    same_text, split_number, starts_with, text_after, to_lower, trim, trim_start, trimmed,
    trimmed_start,
};
use crate::time::{in_calendar, timestamp, utc_now, whole_seconds, Delay, Timestamp};
use http::{HeaderMap, HeaderValue};
use vstd::prelude::*;

verus! {

/// The unit of a delay that a message names.
#[derive(Debug, Clone, Copy, PartialEq, Eq, Structural)]
pub enum RetryUnit {
    Milliseconds,
    Seconds,
    Minutes,
    Hours,
}

/// A delay that a message names: a decimal number and its unit.
#[derive(Debug, Clone, PartialEq, Eq)]
pub struct RetryHint {
    pub amount: String,
    pub unit: RetryUnit,
}

/// When to try again: after a known delay, or after one that a message names.
#[derive(Debug, Clone, PartialEq, Eq)]
pub enum RetryAfter {
    Exact(Delay),
    Hint(RetryHint),
}

/// The model of such a delay.
pub enum RetryView {
    Exact(Delay),
    Hint(Seq<char>, RetryUnit),
}

/// The model of an optional delay.
pub open spec fn retry_view(retry_after: Option<RetryAfter>) -> Option<RetryView> {
    match retry_after {
        Some(RetryAfter::Exact(delay)) => Some(RetryView::Exact(delay)),
        Some(RetryAfter::Hint(hint)) => Some(RetryView::Hint(hint.amount@, hint.unit)),
        None => None,
    }
}

/// The length of time after which to try again: as it is known, else as the hint was read.
pub open spec fn delay_of(retry_after: Option<RetryView>, hinted: Option<Delay>) -> Option<Delay> {
    match retry_after {
        Some(RetryView::Exact(delay)) => Some(delay),
        Some(RetryView::Hint(_, _)) => hinted,
        None => None,
    }
}

/// The length of time after which to try again.
pub fn resolve_delay(retry_after: &Option<RetryAfter>, hinted: Option<Delay>) -> (delay: Option<
    Delay,
>)
    ensures
        delay == delay_of(retry_view(*retry_after), hinted),
{
    match retry_after {
        Some(RetryAfter::Exact(delay)) => Some(*delay),
        Some(RetryAfter::Hint(_)) => hinted,
        None => None,
    }
}

/// A copy of an optional delay.
pub fn copy_retry(retry_after: &Option<RetryAfter>) -> (copy: Option<RetryAfter>)
    ensures
        copy == *retry_after,
{
    match retry_after {
        Some(RetryAfter::Exact(delay)) => Some(RetryAfter::Exact(*delay)),
        Some(RetryAfter::Hint(hint)) => Some(
            RetryAfter::Hint(RetryHint { amount: hint.amount.clone(), unit: hint.unit }),
        ),
        None => None,
    }
}

/// The fields of an upstream error.
#[derive(Debug, Clone, PartialEq, Eq)]
pub struct StructuredErrorPayload {
    pub code: Option<String>,
    pub message: Option<String>,
    pub error_type: Option<String>,
    pub plan_type: Option<String>,
    pub resets_at: Option<i64>,
    pub resets_in_seconds: Option<i64>,
}

/// The model of these fields.
pub struct PayloadView {
    pub code: Option<Seq<char>>,
    pub message: Option<Seq<char>>,
    pub error_type: Option<Seq<char>>,
    pub plan_type: Option<Seq<char>>,
    pub resets_at: Option<i64>,
    pub resets_in_seconds: Option<i64>,
}

/// The characters of an optional text.
pub open spec fn owned_text(text: Option<String>) -> Option<Seq<char>> {
    match text {
        Some(text) => Some(text@),
        None => None,
    }
}

impl View for StructuredErrorPayload {
    type V = PayloadView;

    open spec fn view(&self) -> PayloadView {
        PayloadView {
            code: owned_text(self.code),
            message: owned_text(self.message),
            error_type: owned_text(self.error_type),
            plan_type: owned_text(self.plan_type),
            resets_at: self.resets_at,
            resets_in_seconds: self.resets_in_seconds,
        }
    }
}

/// What an upstream error means.
#[derive(Debug, Clone, PartialEq, Eq)]
pub struct UpstreamErrorSemantics {
    pub failure: FailureClass,
    pub retry_after: Option<RetryAfter>,
    pub payload: StructuredErrorPayload,
}

/// What is known of an upstream error. What is given explicitly goes before what the body says.
#[derive(Clone, Copy)]
pub struct AnalyzeErrorContext<'a> {
    pub status: u16,
    pub headers: Option<&'a HeaderMap<HeaderValue>>,
    pub body: Option<&'a str>,
    pub explicit_code: Option<&'a str>,
    pub explicit_message: Option<&'a str>,
    pub explicit_error_type: Option<&'a str>,
    pub explicit_plan_type: Option<&'a str>,
    pub explicit_resets_at: Option<i64>,
    pub explicit_resets_in_seconds: Option<i64>,
    pub explicit_retry_after: Option<Delay>,
    pub unauthorized_failure: FailureClass,
    pub allow_message_retry_after: bool,
}

/// The fields of an error with nothing in it.
pub open spec fn empty_payload() -> PayloadView {
    PayloadView {
        code: None,
        message: None,
        error_type: None,
        plan_type: None,
        resets_at: None,
        resets_in_seconds: None,
    }
}

/// The fields of an error object.
pub open spec fn payload_of(value: JsonView) -> PayloadView {
    PayloadView {
        code: value.text_field("code"@),
        message: value.text_field("message"@),
        error_type: value.text_field("type"@),
        plan_type: value.text_field("plan_type"@),
        resets_at: value.signed_field("resets_at"@),
        resets_in_seconds: value.signed_field("resets_in_seconds"@),
    }
}

/// The fields of the error in a body: of what stands under `error`, else of the body itself.
pub open spec fn body_payload(value: JsonView) -> PayloadView {
    match value.field("error"@) {
        Some(error) => payload_of(error),
        None => payload_of(value),
    }
}

/// The fields of the error in a body that may be missing or no JSON.
pub open spec fn text_payload(body: Option<Seq<char>>) -> PayloadView {
    match body {
        Some(text) => match parsed_json(text) {
            Some(value) => body_payload(value),
            None => empty_payload(),
        },
        None => empty_payload(),
    }
}

/// The first of two optional values that is there.
pub open spec fn either<T>(first: Option<T>, second: Option<T>) -> Option<T> {
    if first is Some {
        first
    } else {
        second
    }
}

/// The fields of a body, and in their place what is given explicitly.
pub open spec fn explicit_payload(
    context: AnalyzeErrorContext<'_>,
    payload: PayloadView,
) -> PayloadView {
    PayloadView {
        code: either(optional_text(context.explicit_code), payload.code),
        message: either(optional_text(context.explicit_message), payload.message),
        error_type: either(optional_text(context.explicit_error_type), payload.error_type),
        plan_type: either(optional_text(context.explicit_plan_type), payload.plan_type),
        resets_at: either(context.explicit_resets_at, payload.resets_at),
        resets_in_seconds: either(context.explicit_resets_in_seconds, payload.resets_in_seconds),
    }
}

/// The class that a code or a type stands for by itself.
pub open spec fn structured_class(
    code: Option<Seq<char>>,
    error_type: Option<Seq<char>>,
) -> Option<FailureClass> {
    if error_type == Some("usage_limit_reached"@) {
        Some(FailureClass::QuotaExhausted)
    } else if error_type == Some("usage_not_included"@) {
        Some(FailureClass::RequestRejected)
    } else if code == Some("rate_limit_exceeded"@) {
        Some(FailureClass::RateLimited)
    } else if code == Some("insufficient_quota"@) {
        Some(FailureClass::QuotaExhausted)
    } else if code == Some("websocket_connection_limit_reached"@) || code == Some(
        "server_is_overloaded"@,
    ) || code == Some("slow_down"@) {
        Some(FailureClass::TemporaryFailure)
    } else if code == Some("invalid_prompt"@) || code == Some("context_length_exceeded"@) {
        Some(FailureClass::RequestRejected)
    } else {
        None
    }
}

/// The class that a status and a text stand for.
pub open spec fn status_class(status: u16, text: Seq<char>) -> FailureClass {
    let body = lower(text);
    if status == 403 && (has_text(body, "unusual activity"@) || has_text(body, "arkose"@)
        || has_text(body, "turnstile"@)) {
        FailureClass::RiskControlled
    } else if status == 429 || has_text(body, "rate limit"@) {
        FailureClass::RateLimited
    } else if has_text(body, "quota"@) || has_text(body, "credits"@) || has_text(body, "usage cap"@)
        || has_text(body, "limit reached"@) {
        FailureClass::QuotaExhausted
    } else if status == 403 || 500 <= status < 600 {
        FailureClass::TemporaryFailure
    } else {
        FailureClass::RequestRejected
    }
}

/// The class of an error. A status of 401 decides alone, then code and type, then status and text.
pub open spec fn error_class(
    status: u16,
    code: Option<Seq<char>>,
    error_type: Option<Seq<char>>,
    text: Option<Seq<char>>,
    unauthorized: FailureClass,
) -> FailureClass {
    if status == 401 {
        unauthorized
    } else {
        match structured_class(code, error_type) {
            Some(class) => class,
            None => status_class(
                status,
                match text {
                    Some(text) => text,
                    None => Seq::empty(),
                },
            ),
        }
    }
}

/// What `chrono::DateTime::parse_from_rfc2822` reads a text as, in seconds and nanoseconds since
/// the start of 1970; nothing where it reports an error.
pub uninterp spec fn rfc2822_instant(text: Seq<char>) -> Option<(i64, u32)>;

/// The seconds of a day that have gone by at so many seconds since the start of 1970.
pub open spec fn second_of_day(seconds: int) -> int {
    seconds % 86_400
}

/// The nanoseconds until a date. A date within a leap second has a second or more of nanoseconds
/// beyond its whole seconds; at an instant whose time of day is later, one of them is not counted.
pub open spec fn nanos_until(seconds: i64, nanos: u32, now: Timestamp) -> int {
    let left = seconds * 1_000_000_000 + nanos - now.nanos;
    if nanos >= 1_000_000_000 && second_of_day(seconds as int) < second_of_day(
        now.nanos as int / 1_000_000_000int,
    ) {
        left - 1_000_000_000
    } else {
        left
    }
}

/// The delay that a header names: seconds, or the time left until a date that is to come.
pub open spec fn header_delay(value: Seq<char>, now: Timestamp) -> Option<Delay> {
    match parsed_u64(value) {
        Some(seconds) => Some(Delay { nanos: (seconds * 1_000_000_000) as u128 }),
        None => match rfc2822_instant(value) {
            Some((seconds, nanos)) => {
                let left = nanos_until(seconds, nanos, now);
                if left >= 0 {
                    Some(Delay { nanos: left as u128 })
                } else {
                    None
                }
            },
            None => None,
        },
    }
}

/// The delay of the header `retry-after`.
pub open spec fn headers_delay(
    headers: Option<&HeaderMap<HeaderValue>>,
    now: Timestamp,
) -> Option<Delay> {
    match headers {
        Some(headers) => match header_text(header_entries(*headers), "retry-after"@) {
            Some(value) => header_delay(trimmed(value), now),
            None => None,
        },
        None => None,
    }
}

/// The delay until a limit is lifted.
pub open spec fn resets_delay(payload: PayloadView, now: Timestamp) -> Option<Delay> {
    let present = now.nanos as int / 1_000_000_000int;
    if payload.resets_at is Some && payload.resets_at->0 > present {
        Some(Delay { nanos: ((payload.resets_at->0 - present) * 1_000_000_000) as u128 })
    } else if payload.resets_in_seconds is Some && payload.resets_in_seconds->0 > 0 {
        Some(Delay { nanos: (payload.resets_in_seconds->0 * 1_000_000_000) as u128 })
    } else {
        None
    }
}

/// The unit that a text begins with; seconds where it names no other.
pub open spec fn unit_of(text: Seq<char>) -> RetryUnit {
    if begins_with(text, "millisecond"@) || begins_with(text, "msec"@) || begins_with(text, "ms"@) {
        RetryUnit::Milliseconds
    } else if begins_with(text, "m"@) {
        RetryUnit::Minutes
    } else if begins_with(text, "h"@) {
        RetryUnit::Hours
    } else {
        RetryUnit::Seconds
    }
}

/// The delay that a message names behind the words `try again in`.
pub open spec fn message_hint(message: Seq<char>) -> Option<RetryView> {
    match text_after(lower(message), "try again in"@) {
        Some(rest) => {
            let text = trimmed_start(rest);
            let n = number_length(text) as int;
            if n == 0 {
                None
            } else {
                Some(RetryView::Hint(text.take(n), unit_of(trimmed_start(text.skip(n)))))
            }
        },
        None => None,
    }
}

/// An exact delay.
pub open spec fn exact(delay: Option<Delay>) -> Option<RetryView> {
    match delay {
        Some(delay) => Some(RetryView::Exact(delay)),
        None => None,
    }
}

/// When to try again: as given, else as the header says, else once a limit is lifted, else as the
/// message says.
pub open spec fn retry_of(
    context: AnalyzeErrorContext<'_>,
    payload: PayloadView,
    now: Timestamp,
) -> Option<RetryView> {
    let known = either(
        context.explicit_retry_after,
        either(headers_delay(context.headers, now), resets_delay(payload, now)),
    );
    if known is Some {
        exact(known)
    } else if context.allow_message_retry_after {
        match either(payload.message, optional_text(context.body)) {
            Some(message) => message_hint(message),
            None => None,
        }
    } else {
        None
    }
}

/// Do these semantics follow from the context and from the fields that its body holds?
pub open spec fn means(
    semantics: UpstreamErrorSemantics,
    context: AnalyzeErrorContext<'_>,
    body: PayloadView,
    now: Timestamp,
) -> bool {
    let payload = explicit_payload(context, body);
    &&& semantics.payload@ == payload
    &&& semantics.failure == error_class(
        context.status,
        payload.code,
        payload.error_type,
        either(optional_text(context.body), payload.message),
        context.unauthorized_failure,
    )
    &&& retry_view(semantics.retry_after) == retry_of(context, payload, now)
}

/// The context of an answer to a request.
pub open spec fn http_context<'a>(
    status: u16,
    headers: Option<&'a HeaderMap<HeaderValue>>,
    body: Option<&'a str>,
    unauthorized_failure: FailureClass,
) -> AnalyzeErrorContext<'a> {
    AnalyzeErrorContext {
        status,
        headers,
        body,
        explicit_code: None,
        explicit_message: None,
        explicit_error_type: None,
        explicit_plan_type: None,
        explicit_resets_at: None,
        explicit_resets_in_seconds: None,
        explicit_retry_after: None,
        unauthorized_failure,
        allow_message_retry_after: true,
    }
}

/// `chrono::DateTime::parse_from_rfc2822`: the instant that a date stands for. It depends on the
/// text alone.
#[verifier::external_body]
fn parse_rfc2822(text: &str) -> (instant: Option<(i64, u32)>)
    ensures
        instant == rfc2822_instant(text@),
{
    chrono::DateTime::parse_from_rfc2822(text).ok().map(
        |at| (at.timestamp(), at.timestamp_subsec_nanos()),
    )
}

fn copied(text: Option<&str>) -> (copy: Option<String>)
    ensures
        owned_text(copy) == optional_text(text),
{
    match text {
        Some(text) => Some(text.to_owned()),
        None => None,
    }
}

/// The text that an optional string holds.
pub fn borrowed(text: &Option<String>) -> (borrow: Option<&str>)
    ensures
        optional_text(borrow) == owned_text(*text),
{
    match text {
        Some(text) => Some(text.as_str()),
        None => None,
    }
}

/// The fields of an error object.
pub fn parse_structured_error_value(value: &Json) -> (payload: StructuredErrorPayload)
    ensures
        payload@ == payload_of(value@),
{
    StructuredErrorPayload {
        code: copied(value.get_str("code")),
        message: copied(value.get_str("message")),
        error_type: copied(value.get_str("type")),
        plan_type: copied(value.get_str("plan_type")),
        resets_at: value.get_i64("resets_at"),
        resets_in_seconds: value.get_i64("resets_in_seconds"),
    }
}

/// The fields of the error in a body: of what stands under `error`, else of the body itself.
pub fn structured_error_of_body(body: &Json) -> (payload: StructuredErrorPayload)
    ensures
        payload@ == body_payload(body@),
{
    match body.get("error") {
        Some(error) => parse_structured_error_value(error),
        None => parse_structured_error_value(body),
    }
}

/// The fields of the error in a body; none where there is no body or it is no JSON.
pub fn parse_structured_error_body(body: Option<&str>) -> (payload: StructuredErrorPayload)
    ensures
        payload@ == text_payload(optional_text(body)),
{
    if let Some(text) = body {
        if let Some(json) = parse_json(text) {
            return structured_error_of_body(&json);
        }
    }
    StructuredErrorPayload {
        code: None,
        message: None,
        error_type: None,
        plan_type: None,
        resets_at: None,
        resets_in_seconds: None,
    }
}

/// The seconds of a day that have gone by at so many seconds since the start of 1970.
fn seconds_into_day(seconds: i128) -> (second: i128)
    requires
        -10_000_000_000_000_000_000 <= seconds <= 10_000_000_000_000_000_000,
    ensures
        second == second_of_day(seconds as int),
{
    // A whole number of days more makes the number positive.
    ((seconds + 86_400_000_000_000_000_000_000) as u128 % 86_400) as i128
}

/// The nanoseconds until a date.
fn time_until(seconds: i64, nanos: u32, now: Timestamp) -> (left: i128)
    requires
        in_calendar(now),
    ensures
        left == nanos_until(seconds, nanos, now),
{
    let left: i128 = timestamp(seconds, nanos).nanos - now.nanos;
    if nanos >= 1_000_000_000 && seconds_into_day(seconds as i128) < seconds_into_day(
        whole_seconds(now),
    ) {
        left - 1_000_000_000
    } else {
        left
    }
}

/// The delay that a header names, at `now`.
pub fn parse_retry_after_str_at(value: &str, now: Timestamp) -> (delay: Option<Delay>)
    requires
        in_calendar(now),
    ensures
        delay == header_delay(value@, now),
{
    if let Some(seconds) = parse_u64(value) {
        return Some(Delay::from_secs(seconds));
    }
    match parse_rfc2822(value) {
        Some((seconds, nanos)) => {
            let left: i128 = time_until(seconds, nanos, now);
            if left >= 0 {
                Some(Delay { nanos: left as u128 })
            } else {
                None
            }
        },
        None => None,
    }
}

/// The delay that a header names.
pub fn parse_retry_after_str(value: &str) -> (delay: Option<Delay>)
    ensures
        exists|now: Timestamp| #[trigger] in_calendar(now) && delay == header_delay(value@, now),
{
    let now: Timestamp = utc_now();
    parse_retry_after_str_at(value, now)
}

/// The delay of the header `retry-after`, at `now`.
pub fn parse_retry_after_header_at(
    headers: Option<&HeaderMap<HeaderValue>>,
    now: Timestamp,
) -> (delay: Option<Delay>)
    requires
        in_calendar(now),
    ensures
        delay == headers_delay(headers, now),
{
    match headers {
        Some(headers) => match header_str(headers, "retry-after") {
            Some(value) => parse_retry_after_str_at(trim(value.as_str()).as_str(), now),
            None => None,
        },
        None => None,
    }
}

/// The delay of the header `retry-after`.
pub fn parse_retry_after_header(headers: Option<&HeaderMap<HeaderValue>>) -> (delay: Option<Delay>)
    ensures
        exists|now: Timestamp| #[trigger] in_calendar(now) && delay == headers_delay(headers, now),
{
    let now: Timestamp = utc_now();
    parse_retry_after_header_at(headers, now)
}

/// The delay until a limit is lifted, at `now`.
pub fn parse_resets_retry_after_payload_at(
    payload: &StructuredErrorPayload,
    now: Timestamp,
) -> (delay: Option<Delay>)
    requires
        in_calendar(now),
    ensures
        delay == resets_delay(payload@, now),
{
    let present: i128 = whole_seconds(now);
    if let Some(resets_at) = payload.resets_at {
        if resets_at as i128 > present {
            let left: i128 = resets_at as i128 - present;
            return Some(Delay { nanos: (left as u128) * 1_000_000_000 });
        }
    }
    if let Some(seconds) = payload.resets_in_seconds {
        if seconds > 0 {
            return Some(Delay::from_secs(seconds as u64));
        }
    }
    None
}

/// The class that a code or a type stands for by itself.
pub fn classify_structured_error(code: Option<&str>, error_type: Option<&str>) -> (class: Option<
    FailureClass,
>)
    ensures
        class == structured_class(optional_text(code), optional_text(error_type)),
{
    if let Some(error_type) = error_type {
        if same_text(error_type, "usage_limit_reached") {
            return Some(FailureClass::QuotaExhausted);
        }
        if same_text(error_type, "usage_not_included") {
            return Some(FailureClass::RequestRejected);
        }
    }
    if let Some(code) = code {
        if same_text(code, "rate_limit_exceeded") {
            return Some(FailureClass::RateLimited);
        }
        if same_text(code, "insufficient_quota") {
            return Some(FailureClass::QuotaExhausted);
        }
        if same_text(code, "websocket_connection_limit_reached") || same_text(
            code,
            "server_is_overloaded",
        ) || same_text(code, "slow_down") {
            return Some(FailureClass::TemporaryFailure);
        }
        if same_text(code, "invalid_prompt") || same_text(code, "context_length_exceeded") {
            return Some(FailureClass::RequestRejected);
        }
    }
    None
}

/// The class that a status and a text stand for.
pub fn classify_http_from_status_and_text(status: u16, text: Option<&str>) -> (class: FailureClass)
    ensures
        class == status_class(
            status,
            match text {
                Some(text) => text@,
                None => Seq::empty(),
            },
        ),
{
    let body: String = match text {
        Some(text) => to_lower(text),
        None => String::new(),
    };
    let body: &str = body.as_str();
    proof {
        assert(lower(Seq::<char>::empty()) =~= Seq::<char>::empty());
    }
    if status == 403 && (contains_text(body, "unusual activity") || contains_text(body, "arkose")
        || contains_text(body, "turnstile")) {
        return FailureClass::RiskControlled;
    }
    if status == 429 || contains_text(body, "rate limit") {
        return FailureClass::RateLimited;
    }
    if contains_text(body, "quota") || contains_text(body, "credits") || contains_text(
        body,
        "usage cap",
    ) || contains_text(body, "limit reached") {
        return FailureClass::QuotaExhausted;
    }
    if status == 403 {
        return FailureClass::TemporaryFailure;
    }
    if 500 <= status && status < 600 {
        return FailureClass::TemporaryFailure;
    }
    FailureClass::RequestRejected
}

/// The class of an error.
pub fn classify_error(
    status: u16,
    code: Option<&str>,
    error_type: Option<&str>,
    fallback_text: Option<&str>,
    unauthorized_failure: FailureClass,
) -> (class: FailureClass)
    ensures
        class == error_class(
            status,
            optional_text(code),
            optional_text(error_type),
            optional_text(fallback_text),
            unauthorized_failure,
        ),
{
    if status == 401 {
        return unauthorized_failure;
    }
    if let Some(failure) = classify_structured_error(code, error_type) {
        return failure;
    }
    classify_http_from_status_and_text(status, fallback_text)
}

fn retry_unit(text: &str) -> (unit: RetryUnit)
    ensures
        unit == unit_of(text@),
{
    if starts_with(text, "millisecond") || starts_with(text, "msec") || starts_with(text, "ms") {
        RetryUnit::Milliseconds
    } else if starts_with(text, "m") {
        RetryUnit::Minutes
    } else if starts_with(text, "h") {
        RetryUnit::Hours
    } else {
        RetryUnit::Seconds
    }
}

/// The delay that a message names behind the words `try again in`.
pub fn parse_retry_after_message(message: &str) -> (retry_after: Option<RetryAfter>)
    ensures
        retry_view(retry_after) == message_hint(message@),
{
    let lowered: String = to_lower(message);
    match after_text(lowered.as_str(), "try again in") {
        Some(rest) => {
            let text: String = trim_start(rest.as_str());
            let (amount, unit): (String, String) = split_number(text.as_str());
            if amount.as_str().is_empty() {
                return None;
            }
            let unit: RetryUnit = retry_unit(trim_start(unit.as_str()).as_str());
            Some(RetryAfter::Hint(RetryHint { amount, unit }))
        },
        None => None,
    }
}

/// What an error means, given the fields that its body holds and the present instant.
pub fn analyze_error_at(
    context: AnalyzeErrorContext<'_>,
    body: StructuredErrorPayload,
    now: Timestamp,
) -> (semantics: UpstreamErrorSemantics)
    requires
        in_calendar(now),
    ensures
        means(semantics, context, body@, now),
{
    let mut payload: StructuredErrorPayload = body;
    if let Some(code) = context.explicit_code {
        payload.code = Some(code.to_owned());
    }
    if let Some(message) = context.explicit_message {
        payload.message = Some(message.to_owned());
    }
    if let Some(error_type) = context.explicit_error_type {
        payload.error_type = Some(error_type.to_owned());
    }
    if let Some(plan_type) = context.explicit_plan_type {
        payload.plan_type = Some(plan_type.to_owned());
    }
    if let Some(resets_at) = context.explicit_resets_at {
        payload.resets_at = Some(resets_at);
    }
    if let Some(resets_in_seconds) = context.explicit_resets_in_seconds {
        payload.resets_in_seconds = Some(resets_in_seconds);
    }
    let fallback_text: Option<&str> = match context.body {
        Some(text) => Some(text),
        None => borrowed(&payload.message),
    };
    let failure: FailureClass = classify_error(
        context.status,
        borrowed(&payload.code),
        borrowed(&payload.error_type),
        fallback_text,
        context.unauthorized_failure,
    );
    let known: Option<Delay> = match context.explicit_retry_after {
        Some(delay) => Some(delay),
        None => match parse_retry_after_header_at(context.headers, now) {
            Some(delay) => Some(delay),
            None => parse_resets_retry_after_payload_at(&payload, now),
        },
    };
    let retry_after: Option<RetryAfter> = match known {
        Some(delay) => Some(RetryAfter::Exact(delay)),
        None => if context.allow_message_retry_after {
            match &payload.message {
                Some(message) => parse_retry_after_message(message.as_str()),
                None => match context.body {
                    Some(text) => parse_retry_after_message(text),
                    None => None,
                },
            }
        } else {
            None
        },
    };
    UpstreamErrorSemantics { failure, retry_after, payload }
}

/// What an error means.
pub fn analyze_error(context: AnalyzeErrorContext<'_>) -> (semantics: UpstreamErrorSemantics)
    ensures
        exists|now: Timestamp| #[trigger]
            in_calendar(now) && means(
                semantics,
                context,
                text_payload(optional_text(context.body)),
                now,
            ),
{
    let body: StructuredErrorPayload = parse_structured_error_body(context.body);
    let now: Timestamp = utc_now();
    analyze_error_at(context, body, now)
}

/// What the answer to a request means.
pub fn analyze_request_http(
    status: u16,
    headers: Option<&HeaderMap<HeaderValue>>,
    body: Option<&str>,
) -> (semantics: UpstreamErrorSemantics)
    ensures
        exists|now: Timestamp| #[trigger]
            in_calendar(now) && means(
                semantics,
                http_context(status, headers, body, FailureClass::AccessTokenRejected),
                text_payload(optional_text(body)),
                now,
            ),
{
    analyze_error(
        AnalyzeErrorContext {
            status,
            headers,
            body,
            explicit_code: None,
            explicit_message: None,
            explicit_error_type: None,
            explicit_plan_type: None,
            explicit_resets_at: None,
            explicit_resets_in_seconds: None,
            explicit_retry_after: None,
            unauthorized_failure: FailureClass::AccessTokenRejected,
            allow_message_retry_after: true,
        },
    )
}

/// Does the answer to a refresh say that the refresh token is of no use?
pub open spec fn says_invalid_token(body: Seq<char>) -> bool {
    let text = lower(body);
    has_text(text, "refresh_token_expired"@) || has_text(text, "invalid refresh token"@) || has_text(
        text,
        "could not validate your refresh token"@,
    ) || has_text(text, "\"invalid_grant\""@)
}

/// Does the answer to a refresh say that the refresh token is of no use?
pub fn refresh_body_indicates_invalid_token(body: &str) -> (invalid: bool)
    ensures
        invalid == says_invalid_token(body@),
{
    let lowered: String = to_lower(body);
    let text: &str = lowered.as_str();
    contains_text(text, "refresh_token_expired") || contains_text(text, "invalid refresh token")
        || contains_text(text, "could not validate your refresh token") || contains_text(
        text,
        "\"invalid_grant\"",
    )
}

/// The class of the answer to a refresh: a refused request counts as a lost account where the body
/// says that the token is of no use.
pub open spec fn refresh_class(class: FailureClass, body: Option<Seq<char>>) -> FailureClass {
    if class == FailureClass::RequestRejected && body is Some && says_invalid_token(body->0) {
        FailureClass::AuthInvalid
    } else {
        class
    }
}

/// What the answer to a token refresh means.
pub fn analyze_refresh_http(
    status: u16,
    headers: Option<&HeaderMap<HeaderValue>>,
    body: Option<&str>,
) -> (semantics: UpstreamErrorSemantics)
    ensures
        exists|plain: UpstreamErrorSemantics, now: Timestamp|
            {
                &&& #[trigger] in_calendar(now)
                &&& #[trigger] means(
                    plain,
                    http_context(status, headers, body, FailureClass::AuthInvalid),
                    text_payload(optional_text(body)),
                    now,
                )
                &&& semantics == UpstreamErrorSemantics {
                    failure: refresh_class(plain.failure, optional_text(body)),
                    ..plain
                }
            },
{
    let mut semantics: UpstreamErrorSemantics = analyze_error(
        AnalyzeErrorContext {
            status,
            headers,
            body,
            explicit_code: None,
            explicit_message: None,
            explicit_error_type: None,
            explicit_plan_type: None,
            explicit_resets_at: None,
            explicit_resets_in_seconds: None,
            explicit_retry_after: None,
            unauthorized_failure: FailureClass::AuthInvalid,
            allow_message_retry_after: true,
        },
    );
    if semantics.failure == FailureClass::RequestRejected {
        if let Some(text) = body {
            if refresh_body_indicates_invalid_token(text) {
                semantics.failure = FailureClass::AuthInvalid;
            }
        }
    }
    semantics
}

}
