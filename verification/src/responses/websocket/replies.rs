//! How a client on a websocket is told of a failure.
use crate::classifier::TransportError;
use crate::error_semantics::PayloadView;
use crate::failover::FailoverFailure;
use crate::gateway_errors::{
    failover_failure_payload, failover_payload, failure_delay, failure_delay_at, failure_tellable,
};
use crate::json::{json_text, render_json, Json, JsonView};
use crate::responses::failure::{
    error_object, error_object_json, fallback_error_code_for_http, http_fallback_code, tellable,
    SyntheticResponseFailedPayload,
};
use crate::responses::websocket::{MessageView, WebsocketMessage};
use crate::status::{render_status, status_text};
use crate::text::{decimal, decimal_text};
use crate::time::{in_calendar, utc_now, Delay, Timestamp};
use vstd::prelude::*;

verus! {

/// A length of time in whole seconds, rounded up, and one at least.
pub open spec fn retry_seconds(delay: Delay) -> nat {
    let seconds = (delay.nanos as nat + 999_999_999) / 1_000_000_000;
    if seconds < 1 {
        1
    } else {
        seconds
    }
}

/// The event of a failure.
pub open spec fn failure_event(status: u16, payload: PayloadView, delay: Option<Delay>) -> JsonView {
    let event = JsonView::empty_object().with("type"@, JsonView::Text("error"@)).with(
        "status"@,
        JsonView::Integer(status as int),
    ).with(
        "error"@,
        error_object(
            payload,
            http_fallback_code(status, None),
            "Upstream request failed with status "@ + status_text(status) + "."@,
        ),
    );
    match delay {
        Some(delay) => event.with(
            "headers"@,
            JsonView::empty_object().with(
                "retry-after"@,
                JsonView::Text(decimal(retry_seconds(delay))),
            ),
        ),
        None => event,
    }
}

/// The event of a failure.
pub fn websocket_error_event_from_payload(
    status: u16,
    payload: &SyntheticResponseFailedPayload,
    delay: Option<Delay>,
) -> (event: Json)
    ensures
        event@ == failure_event(status, payload@, delay),
{
    let mut message: String = "Upstream request failed with status ".to_owned();
    message.append(render_status(status).as_str());
    message.append(".");
    let error: Json = error_object_json(
        payload,
        fallback_error_code_for_http(status, None),
        message.as_str(),
    );
    let mut event: Json = Json::object().with("type", Json::text("error")).with(
        "status",
        Json::natural(status as u64),
    ).with("error", error);
    if let Some(delay) = delay {
        let whole: u128 = delay.nanos / 1_000_000_000;
        let rounded: u128 = if delay.nanos % 1_000_000_000 > 0 {
            whole + 1
        } else {
            whole
        };
        let seconds: u128 = if rounded < 1 {
            1
        } else {
            rounded
        };
        assert(seconds == retry_seconds(delay));
        event.set(
            "headers",
            Json::object().with("retry-after", Json::Text(decimal_text(seconds))),
        );
    }
    event
}

/// The status of a failed request.
pub open spec fn transport_status(error: TransportError) -> u16 {
    match error {
        TransportError::Http { status, headers: _, body: _ } => status,
        TransportError::Timeout => 408,
        _ => 502,
    }
}

/// The status that a failure is told with.
pub open spec fn failure_status(failure: FailoverFailure) -> u16 {
    match failure {
        FailoverFailure::PoolBlocked(_) => 503,
        FailoverFailure::Refresh(error) => error.status,
        FailoverFailure::Transport(error) => transport_status(error),
        FailoverFailure::CallerJson { status, message: _ } => status,
        FailoverFailure::Internal { status, detail: _ } => status,
    }
}

/// The event that a client on a websocket gets for a failure. Only what the upstream refused says
/// when to try again.
pub open spec fn failover_event(
    failure: FailoverFailure,
    text: Seq<char>,
    delay: Option<Delay>,
) -> JsonView {
    failure_event(
        failure_status(failure),
        failover_payload(failure, text, delay),
        match failure {
            FailoverFailure::Refresh(_) | FailoverFailure::Transport(_) => delay,
            _ => None,
        },
    )
}

/// The event that a client on a websocket gets for a failure. `text` is what is shown of an error
/// without an answer, and `delay` when to try again.
pub fn websocket_error_event_for_failover_failure(
    failure: &FailoverFailure,
    text: &str,
    delay: Option<Delay>,
) -> (event: Json)
    requires
        tellable(delay),
    ensures
        event@ == failover_event(*failure, text@, delay),
{
    let payload: SyntheticResponseFailedPayload = failover_failure_payload(failure, text, delay);
    match failure {
        FailoverFailure::PoolBlocked(_) => websocket_error_event_from_payload(503, &payload, None),
        FailoverFailure::Refresh(error) => websocket_error_event_from_payload(
            error.status,
            &payload,
            delay,
        ),
        FailoverFailure::Transport(error) => {
            let status: u16 = match error {
                TransportError::Http { status, headers: _, body: _ } => *status,
                TransportError::Timeout => 408,
                _ => 502,
            };
            websocket_error_event_from_payload(status, &payload, delay)
        },
        FailoverFailure::CallerJson { status, message: _ } => websocket_error_event_from_payload(
            *status,
            &payload,
            None,
        ),
        FailoverFailure::Internal { status, detail: _ } => websocket_error_event_from_payload(
            *status,
            &payload,
            None,
        ),
    }
}

/// The message that a client on a websocket gets for a failure, at `now`. `text` is what is shown of
/// an error without an answer, and `hinted` the delay that an answer names in words.
pub fn websocket_error_message_for_failover_failure_at(
    failure: &FailoverFailure,
    text: &str,
    hinted: Option<Delay>,
    now: Timestamp,
) -> (message: WebsocketMessage)
    requires
        in_calendar(now),
        failure_tellable(*failure, hinted),
    ensures
        message@ == MessageView::Text(
            json_text(failover_event(*failure, text@, failure_delay(*failure, hinted, now))),
        ),
{
    let delay: Option<Delay> = failure_delay_at(failure, hinted, now);
    WebsocketMessage::Text(
        render_json(&websocket_error_event_for_failover_failure(failure, text, delay)),
    )
}

/// The message that a client on a websocket gets for a failure.
pub fn websocket_error_message_for_failover_failure(
    failure: &FailoverFailure,
    text: &str,
    hinted: Option<Delay>,
) -> (message: WebsocketMessage)
    requires
        failure_tellable(*failure, hinted),
    ensures
        exists|now: Timestamp| #[trigger]
            in_calendar(now) && message@ == MessageView::Text(
                json_text(failover_event(*failure, text@, failure_delay(*failure, hinted, now))),
            ),
{
    let now: Timestamp = utc_now();
    websocket_error_message_for_failover_failure_at(failure, text, hinted, now)
}

}
