//! What holds of every message on a websocket.
use crate::accounts::{after_failure, AccountRecord};
use crate::classifier::FailureClass;
use crate::config::FingerprintMode;
use crate::error_laws::{says_nothing, silence_speaks_of_nothing, speaks_of_limits};
use crate::error_semantics::{header_delay, message_hint, payload_of, RetryView};
use crate::fingerprint::with_user_thread_source;
use crate::json::{json_text, parsed_json, JsonView};
use crate::models::ModelsSnapshot;
use crate::request_laws::fields_are_sent_as_written;
use crate::request_normalization::normalized_responses;
use crate::responses::websocket::errors::{
    close_outcome, event_header, event_outcome, integer_text, message_outcome, piece, stated_status,
    visible, wrapped_status,
};
use crate::responses::websocket::protocol::{
    commits, is_last, outgoing, outgoing_request, reconnect_event, reconnecting, sendable,
    unused_limits, without_limits,
};
use crate::responses::websocket::proxy::{
    after_client_message, after_client_sent, after_failed_account, after_stream_failure,
    no_replacement_plan, replayed, settlement_of_outcome, upstream_plan, PendingView, ProxyStepView,
};
use crate::responses::websocket::{MessageView, OutcomeView};
use crate::text::{begins_with, decimal, has_text, lower, parsed_u64, signed_decimal, trimmed};
use crate::text_laws::{
    found_texts_stand_somewhere, numbers_are_read_back, only_digits_are_numbers,
    signs_stand_in_front, trimmed_texts_stay, visible_characters_are_no_spaces,
};
use crate::time::{Delay, Timestamp};
use vstd::prelude::*;

verus! {

/// The names of events and of the codes in them that are told apart.
proof fn lemma_kinds()
    ensures
        "error"@.len() == 5,
        "response.failed"@.len() == 15 && "response.failed"@[9] == 'f',
        "response.create"@.len() == 15 && "response.create"@[9] == 'c',
        "response.incomplete"@.len() == 19,
        "response.completed"@.len() == 18,
        "codex.rate_limits"@.len() == 17,
        "primary"@.len() == 7,
        "secondary"@.len() == 9,
        "previous_response_not_found"@.len() == 27,
        "websocket_connection_limit_reached"@.len() == 34,
{
    reveal_strlit("error");
    reveal_strlit("response.failed");
    reveal_strlit("response.create");
    reveal_strlit("response.incomplete");
    reveal_strlit("response.completed");
    reveal_strlit("codex.rate_limits");
    reveal_strlit("primary");
    reveal_strlit("secondary");
    reveal_strlit("previous_response_not_found");
    reveal_strlit("websocket_connection_limit_reached");
}

/// Does a message say under `error` that the connection is used up?
pub open spec fn uses_connection_up(json: JsonView) -> bool {
    match json.field("error"@) {
        Some(error) => error.text_field("code"@) == Some("websocket_connection_limit_reached"@),
        None => false,
    }
}

/// Does an `error` event say that the upstream does not know the response that a request goes on
/// from?
pub open spec fn forgets_its_response(json: JsonView) -> bool {
    json.text_field("type"@) == Some("error"@) && match json.field("error"@) {
        Some(error) => error.text_field("code"@) == Some("previous_response_not_found"@),
        None => false,
    }
}

/// A response that ends before it is complete is no fault of the account, whatever it says of the
/// reason: it is a failure of the request itself, without a delay. It is passed on and never tried
/// again, and the account that served it is as free, or as blocked, as it was before.
pub proof fn incomplete_responses_blame_the_request(
    text: Seq<char>,
    json: JsonView,
    pending: Option<PendingView>,
    codex_originator: bool,
    now: Timestamp,
    record: AccountRecord,
    note: String,
)
    requires
        parsed_json(text) == Some(json),
        json.text_field("type"@) == Some("response.incomplete"@),
        json.field("response"@) is Some,
    ensures
        event_outcome(json, now) == message_outcome(MessageView::Text(text), now),
        ({
            let outcome = event_outcome(json, now);
            &&& outcome is Some && outcome->0 is Failed
            &&& outcome->0->failure == FailureClass::RequestRejected
            &&& outcome->0->retry_after is None
        }),
        ({
            let plan = upstream_plan(pending, MessageView::Text(text), codex_originator, now);
            let outcome = event_outcome(json, now)->0;
            &&& !(plan.next is Retry)
            &&& plan.deliver.len() > 0 && plan.deliver.last() == MessageView::Text(text)
            &&& !uses_connection_up(json) ==> plan.next == ProxyStepView::End(outcome)
                && plan.on_delivery_failure == outcome
            &&& settlement_of_outcome(outcome) is Failure
            &&& settlement_of_outcome(outcome)->failure == FailureClass::RequestRejected
            &&& settlement_of_outcome(outcome)->retry_after is None
        }),
        ({
            let settled = after_failure(record, now, FailureClass::RequestRejected, None, note);
            &&& settled.blocked_reason == record.blocked_reason
            &&& settled.blocked_source == record.blocked_source
            &&& settled.blocked_until == record.blocked_until
            &&& settled.local_backoff_level == record.local_backoff_level
            &&& settled.access_token == record.access_token
            &&& settled.access_token_expires_at == record.access_token_expires_at
        }),
{
    lemma_kinds();
}

/// A response that is complete is a success of its account; nothing else is.
pub proof fn complete_responses_succeed(
    text: Seq<char>,
    json: JsonView,
    pending: Option<PendingView>,
    codex_originator: bool,
    now: Timestamp,
)
    requires
        parsed_json(text) == Some(json),
        !uses_connection_up(json),
    ensures
        json.text_field("type"@) == Some("response.completed"@) ==> upstream_plan(
            pending,
            MessageView::Text(text),
            codex_originator,
            now,
        ).next == ProxyStepView::End(OutcomeView::Success),
        json.text_field("type"@) == Some("response.completed"@) ==> upstream_plan(
            pending,
            MessageView::Text(text),
            codex_originator,
            now,
        ).deliver.last() == MessageView::Text(text),
        !forgets_its_response(json) && upstream_plan(pending, MessageView::Text(text), false, now).next
            == ProxyStepView::End(OutcomeView::Success) ==> json.text_field("type"@) == Some(
            "response.completed"@,
        ),
{
    lemma_kinds();
}

/// Does an event name a status?
pub open spec fn names_status(json: JsonView, status: int) -> bool {
    json.field("status"@) == Some(JsonView::Integer(status)) || (json.field("status"@) is None
        && json.field("status_code"@) == Some(JsonView::Integer(status)))
}

/// What an `error` event says of its account, by the status that it names: the token is refused,
/// a limit is reached, the upstream fails for a while, or the request is at fault.
pub proof fn error_events_are_classed_by_status(
    json: JsonView,
    error: JsonView,
    status: int,
    now: Timestamp,
)
    requires
        json.text_field("type"@) == Some("error"@),
        json.field("error"@) == Some(error),
        names_status(json, status),
        100 <= status <= 999,
    ensures
        ({
            let outcome = event_outcome(json, now);
            let message = lower(
                match error.text_field("message"@) {
                    Some(message) => message,
                    None => Seq::empty(),
                },
            );
            let risky = has_text(message, "unusual activity"@) || has_text(message, "arkose"@)
                || has_text(message, "turnstile"@);
            &&& outcome is Some && outcome->0 is Failed
            &&& begins_with(
                outcome->0->details,
                "responses websocket upstream returned error event: status="@ + decimal(
                    status as nat,
                ),
            )
            &&& status == 401 ==> outcome->0->failure == FailureClass::AccessTokenRejected
            &&& says_nothing(payload_of(error)) && status == 429 ==> outcome->0->failure
                == FailureClass::RateLimited
            &&& says_nothing(payload_of(error)) && status == 403 && risky ==> outcome->0->failure
                == FailureClass::RiskControlled
            &&& says_nothing(payload_of(error)) && !speaks_of_limits(message) && (500 <= status < 600
                || (status == 403 && !risky)) ==> outcome->0->failure
                == FailureClass::TemporaryFailure
            &&& says_nothing(payload_of(error)) && !speaks_of_limits(message) && status != 401
                && status != 403 && status != 429 && !(500 <= status < 600) ==> outcome->0->failure
                == FailureClass::RequestRejected
        }),
{
    let outcome = event_outcome(json, now);
    assert(stated_status(json) == Some(status as u16));
    let head = "responses websocket upstream returned error event: status="@ + decimal(
        status as nat,
    );
    assert(outcome->0->details.subrange(0, head.len() as int) =~= head);
}

/// Do the code and the type of an error stand for this class? The type goes first.
pub open spec fn classed_by_code(error: JsonView, failure: FailureClass) -> bool {
    let code = error.text_field("code"@);
    let kind = error.text_field("type"@);
    let typed = kind == Some("usage_limit_reached"@) || kind == Some("usage_not_included"@);
    &&& kind == Some("usage_limit_reached"@) ==> failure == FailureClass::QuotaExhausted
    &&& !typed && code == Some("rate_limit_exceeded"@) ==> failure == FailureClass::RateLimited
    &&& !typed && code == Some("insufficient_quota"@) ==> failure == FailureClass::QuotaExhausted
    &&& !typed && code == Some("server_is_overloaded"@) ==> failure
        == FailureClass::TemporaryFailure
    &&& !typed && code == Some("slow_down"@) ==> failure == FailureClass::TemporaryFailure
    &&& !typed && code == Some("invalid_prompt"@) ==> failure == FailureClass::RequestRejected
    &&& !typed && code == Some("context_length_exceeded"@) ==> failure
        == FailureClass::RequestRejected
    &&& !typed && says_nothing(payload_of(error)) && (code == Some("invalid_api_key"@) || kind
        == Some("authentication_error"@)) ==> failure == FailureClass::AccessTokenRejected
}

/// Does an error say nothing that any class could be told by?
pub open spec fn is_silent(error: JsonView) -> bool {
    let code = error.text_field("code"@);
    let kind = error.text_field("type"@);
    &&& says_nothing(payload_of(error))
    &&& code != Some("invalid_api_key"@) && code != Some("forbidden"@)
    &&& kind != Some("authentication_error"@) && kind != Some("permission_error"@)
    &&& error.text_field("message"@) is Some
    &&& is_harmless(lower(error.text_field("message"@)->0))
}

/// Does a text name no limit, no doubt about the client and no missing authorization?
pub open spec fn is_harmless(text: Seq<char>) -> bool {
    &&& !speaks_of_limits(text)
    &&& !has_text(text, "unauthorized"@)
    &&& !speaks_of_risk(text)
}

/// Does a text doubt that the client is what it says?
pub open spec fn speaks_of_risk(text: Seq<char>) -> bool {
    has_text(text, "unusual activity"@) || has_text(text, "arkose"@) || has_text(
        text,
        "turnstile"@,
    )
}

proof fn lemma_codes()
    ensures
        "rate_limit_exceeded"@.len() == 19,
        "insufficient_quota"@.len() == 18,
        "websocket_connection_limit_reached"@.len() == 34,
        "server_is_overloaded"@.len() == 20,
        "slow_down"@.len() == 9 && "slow_down"@[0] == 's',
        "forbidden"@.len() == 9 && "forbidden"@[0] == 'f',
        "invalid_prompt"@.len() == 14,
        "context_length_exceeded"@.len() == 23,
        "invalid_api_key"@.len() == 15,
        "usage_limit_reached"@.len() == 19,
        "usage_not_included"@.len() == 18,
        "authentication_error"@.len() == 20,
        "permission_error"@.len() == 16,
{
    reveal_strlit("rate_limit_exceeded");
    reveal_strlit("insufficient_quota");
    reveal_strlit("websocket_connection_limit_reached");
    reveal_strlit("server_is_overloaded");
    reveal_strlit("slow_down");
    reveal_strlit("forbidden");
    reveal_strlit("invalid_prompt");
    reveal_strlit("context_length_exceeded");
    reveal_strlit("invalid_api_key");
    reveal_strlit("usage_limit_reached");
    reveal_strlit("usage_not_included");
    reveal_strlit("authentication_error");
    reveal_strlit("permission_error");
}

/// An `error` event that names no status is classed by its code and its type. One that says nothing
/// is a failure that passes.
pub proof fn error_events_are_classed_by_code(json: JsonView, error: JsonView, now: Timestamp)
    requires
        json.text_field("type"@) == Some("error"@),
        json.field("error"@) == Some(error),
        json.field("status"@) is None,
        json.field("status_code"@) is None,
    ensures
        ({
            let outcome = event_outcome(json, now);
            &&& outcome is Some && outcome->0 is Failed
            &&& classed_by_code(error, outcome->0->failure)
            &&& is_silent(error) ==> outcome->0->failure == FailureClass::TemporaryFailure
        }),
{
    lemma_codes();
}

/// A `response.failed` event is classed by the code and the type of the error in its response. One
/// that says nothing blames the request. Its message ends the note that is made of it.
pub proof fn failed_responses_are_classed_by_code(
    json: JsonView,
    response: JsonView,
    error: JsonView,
    now: Timestamp,
)
    requires
        json.text_field("type"@) == Some("response.failed"@),
        json.field("response"@) == Some(response),
        response.field("error"@) == Some(error),
    ensures
        ({
            let outcome = event_outcome(json, now);
            let message = error.text_field("message"@);
            &&& outcome is Some && outcome->0 is Failed
            &&& classed_by_code(error, outcome->0->failure)
            &&& is_silent(error) ==> outcome->0->failure == FailureClass::RequestRejected
            &&& message is Some ==> outcome->0->details
                == "responses websocket upstream returned response.failed: "@ + message->0
        }),
{
    lemma_codes();
    lemma_kinds();
}

/// The words of an error event that names no status and no code of its own tell its class too.
pub proof fn error_events_are_classed_by_words(
    json: JsonView,
    error: JsonView,
    message: Seq<char>,
    now: Timestamp,
)
    requires
        json.text_field("type"@) == Some("error"@) && json.field("error"@) == Some(error)
            && json.field("status"@) is None && json.field("status_code"@) is None || json.text_field(
            "type"@,
        ) == Some("response.failed"@) && json.field("response"@) is Some && json.field(
            "response"@,
        )->0.field("error"@) == Some(error),
        error.text_field("code"@) is None,
        error.text_field("type"@) is None,
        error.text_field("message"@) == Some(message),
    ensures
        ({
            let outcome = event_outcome(json, now);
            let words = lower(message);
            &&& outcome is Some && outcome->0 is Failed
            &&& has_text(words, "unauthorized"@) ==> outcome->0->failure
                == FailureClass::AccessTokenRejected
            &&& !has_text(words, "unauthorized"@) && speaks_of_risk(words) ==> outcome->0->failure
                == FailureClass::RiskControlled
            &&& !has_text(words, "unauthorized"@) && !speaks_of_risk(words) && has_text(
                words,
                "rate limit"@,
            ) ==> outcome->0->failure == FailureClass::RateLimited
            &&& !has_text(words, "unauthorized"@) && !speaks_of_risk(words) && !has_text(
                words,
                "rate limit"@,
            ) && speaks_of_limits(words) ==> outcome->0->failure == FailureClass::QuotaExhausted
        }),
{
    lemma_codes();
    lemma_kinds();
}

/// A number in digits is read as it is written.
proof fn lemma_written_numbers(n: u64)
    ensures
        trimmed(decimal(n as nat)) == decimal(n as nat),
        visible(decimal(n as nat)),
        parsed_u64(decimal(n as nat)) == Some(n),
{
    let text = decimal(n as nat);
    numbers_are_read_back(n);
    assert forall|i: int| 0 <= i < text.len() implies '!' <= #[trigger] text[i] && text[i] <= '~' by {
        only_digits_are_numbers(text, i);
    }
    if text.len() > 0 {
        assert('!' <= text[0] && text[text.len() - 1] <= '~');
        visible_characters_are_no_spaces(text[0]);
        visible_characters_are_no_spaces(text.last());
    }
    trimmed_texts_stay(text);
}

/// The delay of an error event is the one under `retry-after` among its headers, be it a number or
/// a text; else the one that its error names in seconds.
pub proof fn events_name_their_delay(
    json: JsonView,
    error: JsonView,
    header: Option<JsonView>,
    seconds: u64,
    now: Timestamp,
)
    requires
        json.text_field("type"@) == Some("error"@),
        json.field("error"@) == Some(error),
        header == (match json.field("headers"@) {
            Some(headers) => headers.field("retry-after"@),
            None => None,
        }),
    ensures
        ({
            let found = event_outcome(json, now)->0->retry_after;
            let delay = RetryView::Exact(Delay { nanos: (seconds * 1_000_000_000) as u128 });
            &&& header == Some(JsonView::Integer(seconds as int)) ==> found == Some(delay)
            &&& header == Some(JsonView::Text(decimal(seconds as nat))) ==> found == Some(delay)
            &&& header is None && error.field("resets_at"@) is None && error.field(
                "resets_in_seconds"@,
            ) == Some(JsonView::Integer(seconds as int)) && 0 < seconds <= i64::MAX ==> found
                == Some(delay)
            &&& header is None && error.field("resets_at"@) is None && error.field(
                "resets_in_seconds"@,
            ) is None && error.field("message"@) is None ==> found is None
        }),
{
    lemma_written_numbers(seconds);
    signs_stand_in_front(seconds as int);
}

/// A websocket that closes frees its account where it closes without a fault. The words of the
/// close tell what it was closed for; else it is a failure that passes.
pub proof fn closes_are_classed(code: u16, reason: Seq<char>, now: Timestamp)
    ensures
        message_outcome(MessageView::Close(None), now) == Some(OutcomeView::Released),
        message_outcome(MessageView::Close(Some((code, reason))), now) == Some(
            close_outcome(code, reason),
        ),
        ({
            let outcome = close_outcome(code, reason);
            let words = lower(reason);
            let limited = has_text(words, "rate limit"@);
            let used_up = has_text(words, "quota"@) || has_text(words, "usage cap"@);
            let told = speaks_of_risk(words) || limited || used_up;
            &&& outcome is Released <==> !told && (code == 1000 || code == 1001)
            &&& !(outcome is Released) ==> outcome is Failed && outcome->retry_after is None
            &&& speaks_of_risk(words) ==> outcome->failure == FailureClass::RiskControlled
            &&& !speaks_of_risk(words) && limited ==> outcome->failure == FailureClass::RateLimited
            &&& !speaks_of_risk(words) && !limited && used_up ==> outcome->failure
                == FailureClass::QuotaExhausted
            &&& !told && code != 1000 && code != 1001 ==> outcome->failure
                == FailureClass::TemporaryFailure
        }),
{
}

/// Pings, bytes, raw frames and events of any other kind say nothing of an account.
pub proof fn other_messages_say_nothing(message: MessageView, now: Timestamp)
    ensures
        !(message is Text) && !(message is Close) ==> message_outcome(message, now) is None,
        message is Text && parsed_json(message->Text_0) is None ==> message_outcome(message, now)
            is None,
        message is Text && parsed_json(message->Text_0) is Some && ({
            let kind = parsed_json(message->Text_0)->0.text_field("type"@);
            kind != Some("error"@) && kind != Some("response.failed"@) && kind != Some(
                "response.incomplete"@,
            )
        }) ==> message_outcome(message, now) is None,
{
}

/// Limits are hidden: a general client is not told of them at all, and a Codex client that nothing
/// of them is used up.
pub proof fn limits_are_hidden(
    text: Seq<char>,
    json: JsonView,
    limits: JsonView,
    pending: Option<PendingView>,
    key: Seq<char>,
    now: Timestamp,
)
    requires
        parsed_json(text) == Some(json),
        json.text_field("type"@) == Some("codex.rate_limits"@),
        json.field("rate_limits"@) == Some(limits),
        limits is Object,
    ensures
        ({
            let plan = upstream_plan(pending, MessageView::Text(text), false, now);
            &&& plan.pending == pending
            &&& plan.deliver.len() == 0
            &&& plan.next is Continue
        }),
        exists|told: JsonView|
            {
                let unused = told.field("rate_limits"@);
                &&& without_limits(MessageView::Text(text), true) == Some(
                    MessageView::Text(#[trigger] json_text(told)),
                )
                &&& unused is Some
                &&& key != "rate_limits"@ ==> told.field(key) == json.field(key)
                &&& key != "primary"@ && key != "secondary"@ ==> unused->0.field(key) == limits.field(
                    key,
                )
                &&& limits.field("primary"@) is Some && limits.field("primary"@)->0 is Object
                    ==> unused->0.field("primary"@) == Some(
                    limits.field("primary"@)->0.with("used_percent"@, JsonView::Decimal("0.0"@)),
                )
                &&& limits.field("secondary"@) is Some && limits.field("secondary"@)->0 is Object
                    ==> unused->0.field("secondary"@) == Some(
                    limits.field("secondary"@)->0.with("used_percent"@, JsonView::Decimal("0.0"@)),
                )
            },
{
    lemma_kinds();
    let told = unused_limits(json)->0;
    assert(without_limits(MessageView::Text(text), true) == Some(
        MessageView::Text(json_text(told)),
    ));
}

/// Everything else from the upstream goes on as it is, but for one event: where the upstream does
/// not know the response that a request goes on from, the client is told to connect again.
pub proof fn other_messages_are_shown_as_they_are(message: MessageView, codex_originator: bool)
    ensures
        !(message is Text) || parsed_json(message->Text_0) is None ==> without_limits(
            message,
            codex_originator,
        ) == Some(message) && reconnecting(message) == message,
        message is Text && parsed_json(message->Text_0) is Some ==> {
            let json = parsed_json(message->Text_0)->0;
            &&& json.text_field("type"@) != Some("codex.rate_limits"@) ==> without_limits(
                message,
                codex_originator,
            ) == Some(message)
            &&& !forgets_its_response(json) ==> reconnecting(message) == message
            &&& forgets_its_response(json) ==> exists|told: JsonView|
                {
                    let error = told.field("error"@);
                    &&& reconnecting(message) == MessageView::Text(#[trigger] json_text(told))
                    &&& told.field("type"@) == Some(JsonView::Text("error"@))
                    &&& told.field("status"@) == Some(JsonView::Integer(400))
                    &&& error is Some
                    &&& error->0.field("type"@) == Some(JsonView::Text("invalid_request_error"@))
                    &&& error->0.field("code"@) == Some(
                        JsonView::Text("websocket_connection_limit_reached"@),
                    )
                    &&& error->0.text_field("message"@) is Some
                }
        },
{
    lemma_kinds();
    lemma_fields();
    if message is Text && parsed_json(message->Text_0) is Some && forgets_its_response(
        parsed_json(message->Text_0)->0,
    ) {
        let told = reconnect_event();
        assert(reconnecting(message) == MessageView::Text(json_text(told)));
    }
}

proof fn lemma_fields()
    ensures
        "type"@.len() == 4 && "type"@[0] == 't',
        "code"@.len() == 4 && "code"@[0] == 'c',
        "status"@.len() == 6,
        "error"@.len() == 5,
        "message"@.len() == 7,
{
    reveal_strlit("type");
    reveal_strlit("code");
    reveal_strlit("status");
    reveal_strlit("error");
    reveal_strlit("message");
}

/// Before a response begins, what the upstream says of it is held back, and the first event of the
/// response brings it all to the client, in order. From then on messages go through one by one.
pub proof fn responses_begin_with_their_first_event(
    request: PendingView,
    text: Seq<char>,
    json: JsonView,
    codex_originator: bool,
    now: Timestamp,
)
    requires
        parsed_json(text) == Some(json),
        json.text_field("type"@) != Some("error"@),
        json.text_field("type"@) != Some("response.failed"@),
        json.text_field("type"@) != Some("response.incomplete"@),
        json.text_field("type"@) != Some("codex.rate_limits"@),
        !uses_connection_up(json),
    ensures
        ({
            let message = MessageView::Text(text);
            let plan = upstream_plan(Some(request), message, codex_originator, now);
            let over = json.text_field("type"@) == Some("response.completed"@);
            &&& !request.committed ==> plan.deliver == request.buffered.push(message)
            &&& request.committed ==> plan.deliver == seq![message]
            &&& !over ==> plan.next is Continue && plan.pending is Some
                && plan.pending->0.committed
            &&& !over && !request.committed ==> plan.pending->0.buffered.len() == 0
                && plan.pending->0.requests == request.requests && plan.pending->0.tried
                == request.tried
            &&& !over && request.committed ==> plan.pending == Some(request)
            &&& over && !request.committed ==> plan.pending is None
        }),
{
    lemma_kinds();
    let message = MessageView::Text(text);
    assert(Seq::<MessageView>::empty() + request.buffered.push(message)
        =~= request.buffered.push(message));
}

/// Bytes begin a response too; a ping goes through at once and begins nothing.
pub proof fn pings_begin_no_response(
    request: PendingView,
    bytes: Seq<u8>,
    codex_originator: bool,
    now: Timestamp,
)
    requires
        !request.committed,
    ensures
        ({
            let plan = upstream_plan(
                Some(request),
                MessageView::Binary(bytes),
                codex_originator,
                now,
            );
            &&& plan.deliver == request.buffered.push(MessageView::Binary(bytes))
            &&& plan.pending is Some && plan.pending->0.committed
            &&& plan.next is Continue
        }),
        ({
            let plan = upstream_plan(Some(request), MessageView::Ping(bytes), codex_originator, now);
            &&& plan.deliver == seq![MessageView::Ping(bytes)]
            &&& plan.pending == Some(request)
            &&& plan.next is Continue
        }),
        ({
            let plan = upstream_plan(Some(request), MessageView::Pong(bytes), codex_originator, now);
            &&& plan.deliver == seq![MessageView::Pong(bytes)]
            &&& plan.pending == Some(request)
            &&& plan.next is Continue
        }),
{
    let message = MessageView::Binary(bytes);
    assert(Seq::<MessageView>::empty() + request.buffered.push(message)
        =~= request.buffered.push(message));
}

/// A failure before a response begins is hidden, and the request goes to another account, unless
/// the request or the gateway itself is at fault: then the client gets all that was held back and
/// the failure. Once a response has begun every failure goes to the client.
pub proof fn early_failures_lead_to_others(
    pending: Option<PendingView>,
    message: MessageView,
    now: Timestamp,
)
    requires
        message_outcome(message, now) is Some,
        message_outcome(message, now)->0 is Failed,
        message is Text ==> parsed_json(message->Text_0) is Some && !uses_connection_up(
            parsed_json(message->Text_0)->0,
        ) && !forgets_its_response(parsed_json(message->Text_0)->0),
    ensures
        ({
            let plan = upstream_plan(pending, message, true, now);
            let outcome = message_outcome(message, now)->0;
            let early = pending is Some && !pending->0.committed;
            let blamed = outcome->failure == FailureClass::RequestRejected || outcome->failure
                == FailureClass::InternalFailure;
            &&& upstream_plan(pending, message, false, now) == plan
            &&& plan.on_delivery_failure == outcome
            &&& early && !blamed ==> plan.next == ProxyStepView::Retry(outcome) && plan.pending
                == pending && plan.deliver.len() == 0
            &&& early && blamed ==> plan.next == ProxyStepView::End(outcome) && plan.deliver
                == pending->0.buffered.push(message)
            &&& !early ==> plan.next == ProxyStepView::End(outcome) && plan.deliver == seq![message]
        }),
{
    lemma_kinds();
}

/// A client that is told to connect again gets all that was held back first, and no account is to
/// blame.
pub proof fn used_up_connections_blame_no_account(
    request: PendingView,
    text: Seq<char>,
    json: JsonView,
    codex_originator: bool,
    now: Timestamp,
)
    requires
        !request.committed,
        parsed_json(text) == Some(json),
        uses_connection_up(json),
        json.text_field("type"@) == Some("error"@),
    ensures
        ({
            let plan = upstream_plan(Some(request), MessageView::Text(text), codex_originator, now);
            &&& plan.deliver == request.buffered.push(MessageView::Text(text))
            &&& plan.next == ProxyStepView::End(OutcomeView::Released)
            &&& plan.on_delivery_failure is Released
        }),
        settlement_of_outcome(OutcomeView::Released) is Release,
        settlement_of_outcome(OutcomeView::Success) is Success,
{
    lemma_kinds();
}

/// A new request forgets the one before it. What a client sends of a request is kept, in order, to
/// be sent again, until its response begins; pings and closes are no part of it.
pub proof fn requests_are_kept_to_be_sent_again(
    pending: Option<PendingView>,
    message: MessageView,
)
    ensures
        ({
            let begins = message is Text && parsed_json(message->Text_0) is Some && parsed_json(
                message->Text_0,
            )->0.text_field("type"@) == Some("response.create"@);
            let content = message is Text || message is Binary;
            let kept = after_client_message(pending, message);
            &&& begins ==> kept is Some && kept->0.requests == seq![message]
                && kept->0.buffered.len() == 0 && kept->0.tried.len() == 0 && !kept->0.committed
            &&& !begins && pending is None ==> kept is None
            &&& !begins && pending is Some && !pending->0.committed && content ==> kept is Some
                && kept->0.requests == pending->0.requests.push(message) && kept->0.buffered
                == pending->0.buffered && kept->0.tried == pending->0.tried
                && !kept->0.committed
            &&& !begins && (pending is None || pending->0.committed || !content) ==> kept == pending
        }),
{
    assert(Seq::<MessageView>::empty().push(message) =~= seq![message]);
}

/// A stream that breaks is a failure that passes. It leads to another account where the response
/// has not begun, and ends the websocket where it has. A client that closes ends it without blame.
pub proof fn broken_streams_lead_to_others(pending: Option<PendingView>, text: Seq<char>)
    ensures
        ({
            let plan = after_stream_failure(pending, text);
            let failure = plan.on_delivery_failure;
            &&& failure is Failed && failure->failure == FailureClass::TemporaryFailure
                && failure->retry_after is None
            &&& plan.pending == pending && plan.deliver.len() == 0
            &&& plan.next == (if pending is Some && !pending->0.committed {
                ProxyStepView::Retry(failure)
            } else {
                ProxyStepView::End(failure)
            })
            &&& after_client_sent(pending, false, Some(text)) == plan
        }),
        after_client_sent(pending, false, None).next is Continue,
        after_client_sent(pending, false, None).pending == pending,
        after_client_sent(pending, true, Some(text)).next == ProxyStepView::End(
            OutcomeView::Released,
        ),
        after_client_sent(pending, true, None).next == ProxyStepView::End(OutcomeView::Released),
{
}

/// Where no account can take a request over, the client gets what was held back, and the failure
/// at the end, and the websocket ends.
pub proof fn failures_without_another_account_are_told(
    request: PendingView,
    message: MessageView,
    failure: OutcomeView,
)
    ensures
        ({
            let plan = no_replacement_plan(Some(request), Some(message), failure);
            &&& plan.deliver == request.buffered.push(message)
            &&& plan.next == ProxyStepView::End(failure)
            &&& plan.on_delivery_failure == failure
        }),
        no_replacement_plan(Some(request), None, failure).deliver == request.buffered,
        no_replacement_plan(None, Some(message), failure).deliver =~= seq![message],
        no_replacement_plan(None, None, failure).deliver.len() == 0,
{
}

/// Another account gets every message of a request, in order, each as the first account would.
pub proof fn requests_are_sent_again_whole(
    requests: Seq<MessageView>,
    mode: FingerprintMode,
    codex_originator: bool,
    snapshot: Option<&ModelsSnapshot>,
    installation_id: Option<Seq<char>>,
    i: int,
)
    requires
        0 <= i < requests.len(),
    ensures
        ({
            let sent = replayed(requests, mode, codex_originator, snapshot, installation_id);
            &&& sent.len() == requests.len()
            &&& sent[i] == outgoing(requests[i], mode, codex_originator, snapshot, installation_id)
        }),
{
}

/// Only a request is changed on its way to the upstream; any other message goes as it came.
pub proof fn other_client_messages_are_sent_as_written(
    message: MessageView,
    mode: FingerprintMode,
    codex_originator: bool,
    snapshot: Option<&ModelsSnapshot>,
    installation_id: Option<Seq<char>>,
)
    requires
        message is Text ==> parsed_json(message->Text_0) is None || parsed_json(
            message->Text_0,
        )->0.text_field("type"@) != Some("response.create"@),
    ensures
        outgoing(message, mode, codex_originator, snapshot, installation_id) == message,
{
}

proof fn lemma_metadata_names()
    ensures
        "client_metadata"@.len() == 15,
        "x-codex-installation-id"@.len() == 23,
        "x-codex-turn-metadata"@.len() == 21,
        "thread_source"@.len() == 13,
{
    reveal_strlit("client_metadata");
    reveal_strlit("x-codex-installation-id");
    reveal_strlit("x-codex-turn-metadata");
    reveal_strlit("thread_source");
}

/// Where fingerprints are normalized, a request that leaves room for it names the installation of
/// the account that it goes through. What else the client says of itself stays, but for its turn.
pub proof fn requests_name_their_installation(
    text: Seq<char>,
    json: JsonView,
    codex_originator: bool,
    snapshot: Option<&ModelsSnapshot>,
    id: Seq<char>,
    key: Seq<char>,
)
    requires
        parsed_json(text) == Some(json),
        json.text_field("type"@) == Some("response.create"@),
        json.field("client_metadata"@) is None || json.field("client_metadata"@)->0 is Object,
    ensures
        exists|sent: JsonView|
            {
                let message = outgoing(
                    MessageView::Text(text),
                    FingerprintMode::Normalize,
                    codex_originator,
                    snapshot,
                    Some(id),
                );
                let told = sent.field("client_metadata"@);
                let said = json.field("client_metadata"@);
                &&& message == MessageView::Text(#[trigger] json_text(sent)) || (message
                    == MessageView::Text(text) && sent == json)
                &&& told is Some && told->0.field("x-codex-installation-id"@) == Some(
                    JsonView::Text(id),
                )
                &&& key != "x-codex-installation-id"@ && key != "x-codex-turn-metadata"@ && said
                    is Some ==> told->0.field(key) == said->0.field(key)
                &&& key != "client_metadata"@ ==> sent.field(key) == normalized_responses(
                    FingerprintMode::Normalize,
                    codex_originator,
                    json,
                    snapshot,
                ).field(key)
            },
{
    lemma_metadata_names();
    lemma_kinds();
    let mode = FingerprintMode::Normalize;
    lemma_client_metadata_is_no_other();
    fields_are_sent_as_written(mode, codex_originator, json, snapshot, "client_metadata"@);
    let sent = outgoing_request(json, mode, codex_originator, snapshot, Some(id));
    let told = json_text(sent);
    assert(sent.field("client_metadata"@) is Some);
}

proof fn lemma_client_metadata_is_no_other()
    ensures
        ({
            let key = "client_metadata"@;
            &&& key != "max_output_tokens"@ && key != "max_completion_tokens"@
            &&& key != "temperature"@ && key != "top_p"@ && key != "truncation"@ && key != "user"@
            &&& key != "service_tier"@ && key != "tools"@ && key != "tool_choice"@ && key != "input"@
            &&& key != "instructions"@ && key != "store"@ && key != "parallel_tool_calls"@
        }),
{
    reveal_strlit("client_metadata");
    reveal_strlit("max_output_tokens");
    reveal_strlit("max_completion_tokens");
    reveal_strlit("temperature");
    reveal_strlit("top_p");
    reveal_strlit("truncation");
    reveal_strlit("user");
    reveal_strlit("service_tier");
    reveal_strlit("tools");
    reveal_strlit("tool_choice");
    reveal_strlit("input");
    reveal_strlit("instructions");
    reveal_strlit("store");
    reveal_strlit("parallel_tool_calls");
    assert("client_metadata"@.len() == 15);
    assert("max_output_tokens"@.len() == 17 && "max_completion_tokens"@.len() == 21);
    assert("temperature"@.len() == 11 && "top_p"@.len() == 5 && "truncation"@.len() == 10);
    assert("user"@.len() == 4 && "service_tier"@.len() == 12 && "tools"@.len() == 5);
    assert("tool_choice"@.len() == 11 && "input"@.len() == 5 && "instructions"@.len() == 12);
    assert("store"@.len() == 5 && "parallel_tool_calls"@.len() == 19);
}

/// A request says that its thread comes from the user, unless it says already where it comes from,
/// or what it says of its turn cannot be read.
pub proof fn threads_come_from_the_user(body: JsonView, metadata: JsonView)
    requires
        body is Object,
        body.field("client_metadata"@) == Some(metadata),
    ensures
        ({
            let sourced = with_user_thread_source(body);
            let told = sourced.field("client_metadata"@);
            let said = metadata.field("x-codex-turn-metadata"@);
            let turn = parsed_json(said->0->Text_0);
            let open = said is Some && said->0 is Text && turn is Some && turn->0 is Object
                && turn->0.field("thread_source"@) is None;
            &&& metadata is Object && said is None ==> told is Some && told->0.field(
                "x-codex-turn-metadata"@,
            ) == Some(
                JsonView::Text(
                    json_text(
                        JsonView::empty_object().with(
                            "thread_source"@,
                            JsonView::Text("user"@),
                        ),
                    ),
                ),
            )
            &&& open ==> told is Some && told->0.field("x-codex-turn-metadata"@) == Some(
                JsonView::Text(json_text(turn->0.with("thread_source"@, JsonView::Text("user"@)))),
            )
            &&& said is Some && !open ==> sourced == body
            &&& !(metadata is Object) ==> sourced == body
        }),
{
    lemma_metadata_names();
}

/// A close is passed on with its code where the code may be sent, else without; any other message
/// is passed on as it is.
pub proof fn reserved_codes_are_not_sent(message: MessageView, code: u16, reason: Seq<char>)
    ensures
        !(message is Close) ==> sendable(message) == message,
        sendable(MessageView::Close(None)) == MessageView::Close(None),
        code < 1000 || 1004 <= code <= 1006 || 1014 <= code < 3000 || code >= 5000 ==> sendable(
            MessageView::Close(Some((code, reason))),
        ) == MessageView::Close(None),
        1000 <= code <= 1003 || 1007 <= code <= 1013 || 3000 <= code <= 4999 ==> sendable(
            MessageView::Close(Some((code, reason))),
        ) == MessageView::Close(Some((code, reason))),
{
}

/// Which messages begin a response for the client, and which are the last of one: an error, a failed
/// or an incomplete response is the last and begins none, limits are neither, any other event begins
/// one, and only a complete response does both. Bytes begin one; a close is the last; pings are
/// neither.
pub proof fn messages_begin_and_end_responses(
    text: Seq<char>,
    bytes: Seq<u8>,
    close: Option<(u16, Seq<char>)>,
)
    ensures
        ({
            let message = MessageView::Text(text);
            let json = parsed_json(text);
            let kind = if json is Some {
                json->0.text_field("type"@)
            } else {
                None
            };
            let failed = kind == Some("error"@) || kind == Some("response.failed"@) || kind == Some(
                "response.incomplete"@,
            );
            let limits = kind == Some("codex.rate_limits"@);
            &&& failed ==> is_last(message) && !commits(message)
            &&& limits ==> !is_last(message) && !commits(message)
            &&& kind == Some("response.completed"@) ==> is_last(message) && commits(message)
            &&& !failed && !limits && kind != Some("response.completed"@) ==> !is_last(message)
                && commits(message)
        }),
        commits(MessageView::Binary(bytes)) && !is_last(MessageView::Binary(bytes)),
        !commits(MessageView::Ping(bytes)) && !is_last(MessageView::Ping(bytes)),
        !commits(MessageView::Pong(bytes)) && !is_last(MessageView::Pong(bytes)),
        !commits(MessageView::Frame) && !is_last(MessageView::Frame),
        !commits(MessageView::Close(close)) && is_last(MessageView::Close(close)),
{
    lemma_kinds();
}

/// A close before a response has begun goes to the client at once and ends the request, unless it
/// tells of a failure.
pub proof fn plain_closes_end_a_request(
    request: PendingView,
    codex_originator: bool,
    now: Timestamp,
)
    requires
        !request.committed,
    ensures
        ({
            let message = MessageView::Close(None);
            let plan = upstream_plan(Some(request), message, codex_originator, now);
            &&& plan.deliver == seq![message]
            &&& plan.pending is None
            &&& plan.next is Continue
            &&& plan.on_delivery_failure is Released
        }),
{
}

/// Limits that cannot be read are held back for a Codex client like any event before its response.
pub proof fn limits_begin_no_response(
    request: PendingView,
    text: Seq<char>,
    json: JsonView,
    now: Timestamp,
)
    requires
        !request.committed,
        parsed_json(text) == Some(json),
        json.text_field("type"@) == Some("codex.rate_limits"@),
        json.field("rate_limits"@) is None,
        json.field("error"@) is None,
    ensures
        ({
            let message = MessageView::Text(text);
            let plan = upstream_plan(Some(request), message, true, now);
            &&& plan.deliver.len() == 0
            &&& plan.next is Continue
            &&& plan.pending is Some && !plan.pending->0.committed && plan.pending->0.buffered
                == request.buffered.push(message)
        }),
{
    lemma_kinds();
}

/// What is forbidden, and says nothing else, passes: another account may be allowed it.
pub proof fn forbidden_responses_pass(
    json: JsonView,
    error: JsonView,
    now: Timestamp,
)
    requires
        json.text_field("type"@) == Some("response.failed"@),
        json.field("response"@) is Some,
        json.field("response"@)->0.field("error"@) == Some(error),
        says_nothing(payload_of(error)),
        error.text_field("code"@) != Some("invalid_api_key"@),
        error.text_field("type"@) != Some("authentication_error"@),
        error.text_field("code"@) == Some("forbidden"@) || error.text_field("type"@) == Some(
            "permission_error"@,
        ),
        error.text_field("message"@) is Some,
        is_harmless(lower(error.text_field("message"@)->0)),
    ensures
        event_outcome(json, now)->0->failure == FailureClass::TemporaryFailure,
{
    lemma_codes();
    lemma_kinds();
}

/// An error event that names no status that there is, and says nothing else, is one of a bad gateway.
pub proof fn silent_error_events_are_bad_gateways(json: JsonView, error: JsonView, now: Timestamp)
    requires
        json.text_field("type"@) == Some("error"@),
        json.field("error"@) == Some(error),
        is_silent(error) || (error.text_field("code"@) is None && error.text_field("type"@) is None
            && error.text_field("message"@) is None),
        names_no_status(json.field("status"@)),
        names_no_status(json.field("status_code"@)),
    ensures
        event_outcome(json, now)->0->failure == FailureClass::TemporaryFailure,
        begins_with(
            event_outcome(json, now)->0->details,
            "responses websocket upstream returned error event: status="@ + decimal(502),
        ),
{
    lemma_codes();
    silence_speaks_of_nothing();
    lemma_nothing_unauthorized();
    assert(lower(""@) =~= Seq::empty());
    assert(lower(Seq::empty()) =~= Seq::empty());
    let head = "responses websocket upstream returned error event: status="@ + decimal(502);
    assert(event_outcome(json, now)->0->details.subrange(0, head.len() as int) =~= head);
}

/// Is there no number here that a status could be?
pub open spec fn names_no_status(value: Option<JsonView>) -> bool {
    match value {
        Some(JsonView::Integer(n)) => n < 100 || n > 999,
        _ => true,
    }
}

proof fn lemma_nothing_unauthorized()
    ensures
        ""@.len() == 0,
        !has_text(Seq::empty(), "unauthorized"@),
{
    reveal_strlit("");
    reveal_strlit("unauthorized");
    assert("unauthorized"@.len() == 12);
}

/// The note on an error event has each field of its error, and the time to wait that it names.
pub proof fn error_notes_tell_all(json: JsonView, error: JsonView, now: Timestamp)
    requires
        json.text_field("type"@) == Some("error"@),
        json.field("error"@) == Some(error),
    ensures
        ({
            let note = event_outcome(json, now)->0->details;
            let header = match json.field("headers"@) {
                Some(headers) => headers.field("retry-after"@),
                None => None,
            };
            &&& error.text_field("type"@) matches Some(text) ==> has_text(
                note,
                " error.type="@ + text,
            )
            &&& error.text_field("code"@) matches Some(text) ==> has_text(
                note,
                " error.code="@ + text,
            )
            &&& error.text_field("message"@) matches Some(text) ==> has_text(
                note,
                " error.message="@ + text,
            )
            &&& error.signed_field("resets_at"@) matches Some(n) ==> has_text(
                note,
                " error.resets_at="@ + signed_decimal(n as int),
            )
            &&& error.signed_field("resets_in_seconds"@) matches Some(n) ==> has_text(
                note,
                " error.resets_in_seconds="@ + signed_decimal(n as int),
            )
            &&& header matches Some(JsonView::Text(text)) ==> has_text(
                note,
                " headers.retry-after="@ + text,
            )
            &&& header matches Some(JsonView::Integer(n)) ==> has_text(
                note,
                " headers.retry-after="@ + signed_decimal(n),
            )
            &&& header == Some(JsonView::Bool(true)) ==> has_text(
                note,
                " headers.retry-after="@ + "true"@,
            )
            &&& header == Some(JsonView::Bool(false)) ==> has_text(
                note,
                " headers.retry-after="@ + "false"@,
            )
        }),
{
    let note = event_outcome(json, now)->0->details;
    let status = wrapped_status(json);
    let start = "responses websocket upstream returned error event: status="@ + decimal(
        status as nat,
    );
    let a = piece(" error.type="@, error.text_field("type"@));
    let b = piece(" error.code="@, error.text_field("code"@));
    let c = piece(" error.message="@, error.text_field("message"@));
    let d = piece(" error.resets_at="@, integer_text(error.signed_field("resets_at"@)));
    let e = piece(
        " error.resets_in_seconds="@,
        integer_text(error.signed_field("resets_in_seconds"@)),
    );
    let f = piece(" headers.retry-after="@, event_header(json));
    assert(note == start + a + b + c + d + e + f);
    lemma_pieces_stand(start, a, b, c, d, e, f);
}

proof fn lemma_pieces_stand(
    start: Seq<char>,
    a: Seq<char>,
    b: Seq<char>,
    c: Seq<char>,
    d: Seq<char>,
    e: Seq<char>,
    f: Seq<char>,
)
    ensures
        ({
            let note = start + a + b + c + d + e + f;
            &&& has_text(note, a) && has_text(note, b) && has_text(note, c)
            &&& has_text(note, d) && has_text(note, e) && has_text(note, f)
        }),
{
    let note = start + a + b + c + d + e + f;
    lemma_stands(start, a, b + c + d + e + f, note);
    lemma_stands(start + a, b, c + d + e + f, note);
    lemma_stands(start + a + b, c, d + e + f, note);
    lemma_stands(start + a + b + c, d, e + f, note);
    lemma_stands(start + a + b + c + d, e, f, note);
    lemma_stands(start + a + b + c + d + e, f, Seq::empty(), note);
}

proof fn lemma_stands(front: Seq<char>, needle: Seq<char>, back: Seq<char>, note: Seq<char>)
    requires
        note =~= front + needle + back,
    ensures
        has_text(note, needle),
{
    found_texts_stand_somewhere(front, needle, back, note);
}

/// The note on an incomplete response has its reason, and the one on a failed response its message;
/// where there is none it says so.
pub proof fn ends_of_responses_are_noted(json: JsonView, response: JsonView, now: Timestamp)
    requires
        json.field("response"@) == Some(response),
    ensures
        json.text_field("type"@) == Some("response.incomplete"@) ==> ({
            let details = response.field("incomplete_details"@);
            let note = event_outcome(json, now)->0->details;
            let reason = details->0.text_field("reason"@);
            &&& details is Some && reason is Some ==> note
                == "responses websocket upstream returned response.incomplete: reason="@
                + reason->0
            &&& details is None || reason is None ==> note
                == "responses websocket upstream returned response.incomplete: reason="@
                + "unknown"@
        }),
        json.text_field("type"@) == Some("response.failed"@) && (response.field("error"@) is None
            || response.field("error"@)->0.text_field("message"@) is None) ==> event_outcome(
            json,
            now,
        )->0->details == "responses websocket upstream returned response.failed: "@
            + "response.failed event received"@,
        json.text_field("type"@) == Some("response.failed"@) && response.field("error"@) is None
            ==> event_outcome(json, now)->0->retry_after is None || message_hint(
            "response.failed event received"@,
        ) is Some,
{
    lemma_kinds();
}

/// A time to wait that is a date, or any other text of visible characters, is read like a header. A
/// text with others is not read at all.
pub proof fn events_name_their_delay_by_text(
    json: JsonView,
    error: JsonView,
    headers: JsonView,
    value: Seq<char>,
    now: Timestamp,
    i: int,
)
    requires
        json.text_field("type"@) == Some("error"@),
        json.field("error"@) == Some(error),
        json.field("headers"@) == Some(headers),
        headers.field("retry-after"@) == Some(JsonView::Text(value)),
        0 <= i < value.len(),
    ensures
        (forall|k: int| 0 <= k < value.len() ==> ' ' <= #[trigger] value[k] && value[k] <= '~') ==> (
        header_delay(trimmed(value), now) matches Some(delay) ==> event_outcome(
            json,
            now,
        )->0->retry_after == Some(RetryView::Exact(delay))),
        value[i] > '~' || value[i] == '\n' ==> event_outcome(json, now)->0->retry_after
            == event_outcome(json.without("headers"@), now)->0->retry_after,
{
    reveal_strlit("headers");
    reveal_strlit("error");
    reveal_strlit("type");
    assert("headers"@.len() == 7 && "error"@.len() == 5 && "type"@.len() == 4);
    if value[i] > '~' || value[i] == '\n' {
        lemma_hidden(value[i]);
        assert(!visible(value));
    }
}

proof fn lemma_hidden(c: char)
    requires
        c > '~' || c == '\n',
    ensures
        !(32 <= c as u32 && (c as u32) < 127),
        c != '\t',
{
}

/// An account that failed is not asked for the same request again, and every other part of the
/// request stays.
pub proof fn failed_accounts_are_remembered(request: PendingView, account_id: Seq<char>)
    ensures
        ({
            let after = after_failed_account(Some(request), account_id);
            &&& after is Some
            &&& after->0.tried.contains(account_id)
            &&& forall|id: Seq<char>| #[trigger]
                request.tried.contains(id) ==> after->0.tried.contains(id)
            &&& after->0.requests == request.requests && after->0.buffered == request.buffered
                && after->0.committed == request.committed
        }),
        after_failed_account(None, account_id) is None,
{
    let after = after_failed_account(Some(request), account_id)->0;
    if !request.tried.contains(account_id) {
        assert(after.tried.last() == account_id);
        assert forall|id: Seq<char>| #[trigger] request.tried.contains(id) implies after.tried.contains(
            id,
        ) by {
            let k = request.tried.index_of(id);
            assert(after.tried[k] == id);
        }
    }
}

}
