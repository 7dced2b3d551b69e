//! What holds of every event of a streamed response, and of the stream around it.
use crate::answer_laws::{
    codex_errors_are_told_whole, error_events_are_told_whole, failed_events_are_told_whole,
};
use crate::classifier::{transport_class, FailureClass, TransportError};
use crate::error_laws::{says_nothing, speaks_of_limits};
use crate::error_semantics::{payload_of, PayloadView, RetryView};
use crate::failover::SettlementView;
use crate::json::{parsed_json, JsonView};
use crate::models::ResponseShape;
use crate::responses::failure::{
    error_event, failed_event, next_sequence, sse_bytes, sse_text, transport_payload, unavailable,
};
use crate::responses::managed::{reaction_to, ManagedView, StepView, StreamInput};
use crate::responses::sse::{
    boundary, event_end, event_end_from, event_of, has_prefix, line_feed, line_match, lossy_text,
    read_from, starts_line, with_line, without_returns, EventView, SseLineStartMatch,
};
use crate::responses::stream::{
    consumed, drained, ended, events_start, fresh, hidden_error, leftover, observed, synthetic,
    told_error, SseView,
};
use crate::responses::websocket::laws::{classed_by_code, is_silent, names_status};
use crate::text::{begins_with, has_text, lower, trimmed_start};
use crate::time::{Delay, Timestamp};
use vstd::prelude::*;

verus! {

/// Do these bytes hold an event of this kind, with this value as its data? The event's own name goes
/// before the type in its data.
pub open spec fn holds_event(bytes: Seq<u8>, kind: Seq<char>, json: JsonView) -> bool {
    let event = event_of(lossy_text(bytes));
    &&& event.data is Some
    &&& parsed_json(event.data->0) == Some(json)
    &&& event.name == Some(kind) || (event.name is None && json.text_field("type"@) == Some(kind))
}

proof fn lemma_kinds()
    ensures
        "error"@.len() == 5,
        "response.failed"@.len() == 15,
        "response.incomplete"@.len() == 19,
        "response.completed"@.len() == 18,
{
    reveal_strlit("error");
    reveal_strlit("response.failed");
    reveal_strlit("response.incomplete");
    reveal_strlit("response.completed");
}

proof fn lemma_fields()
    ensures
        "error"@.len() == 5,
        "response"@.len() == 8,
{
    reveal_strlit("error");
    reveal_strlit("response");
}

proof fn lemma_codes()
    ensures
        "rate_limit_exceeded"@.len() == 19,
        "insufficient_quota"@.len() == 18,
        "websocket_connection_limit_reached"@.len() == 34,
        "server_is_overloaded"@.len() == 20,
        "slow_down"@.len() == 9 && "slow_down"@[0] == 's',
        "forbidden"@.len() == 9 && "forbidden"@[0] == 'f',
        "invalid_prompt"@.len() == 14,
        "context_length_exceeded"@.len() == 23,
        "invalid_api_key"@.len() == 15,
        "usage_limit_reached"@.len() == 19,
        "usage_not_included"@.len() == 18,
        "authentication_error"@.len() == 20,
        "permission_error"@.len() == 16,
{
    reveal_strlit("rate_limit_exceeded");
    reveal_strlit("insufficient_quota");
    reveal_strlit("websocket_connection_limit_reached");
    reveal_strlit("server_is_overloaded");
    reveal_strlit("slow_down");
    reveal_strlit("forbidden");
    reveal_strlit("invalid_prompt");
    reveal_strlit("context_length_exceeded");
    reveal_strlit("invalid_api_key");
    reveal_strlit("usage_limit_reached");
    reveal_strlit("usage_not_included");
    reveal_strlit("authentication_error");
    reveal_strlit("permission_error");
}

/// An event that completes a response is a success and passes as it is. One that leaves it
/// incomplete blames the request, whatever the reason, names no delay, and passes as it is.
pub proof fn last_events_pass_as_they_are(
    state: SseView,
    bytes: Seq<u8>,
    json: JsonView,
    shape: ResponseShape,
    now: Timestamp,
)
    ensures
        holds_event(bytes, "response.completed"@, json) ==> ({
            let (after, sent) = consumed(state, bytes, shape, now);
            &&& after.terminal == Some(SettlementView::Success)
            &&& sent == bytes
        }),
        holds_event(bytes, "response.incomplete"@, json) ==> ({
            let (after, sent) = consumed(state, bytes, shape, now);
            &&& after.terminal is Some && after.terminal->0 is Failure
            &&& after.terminal->0->failure == FailureClass::RequestRejected
            &&& after.terminal->0->retry_after is None
            &&& sent == bytes
        }),
{
    lemma_kinds();
}

/// Any other event ends nothing and passes as it is, and so does what cannot be read. What an event
/// says of its number and of its response is remembered.
pub proof fn other_events_pass_as_they_are(
    state: SseView,
    bytes: Seq<u8>,
    kind: Seq<char>,
    json: JsonView,
    shape: ResponseShape,
    now: Timestamp,
)
    ensures
        kind != "response.completed"@ && kind != "response.failed"@ && kind != "response.incomplete"@
            && kind != "error"@ && holds_event(bytes, kind, json) ==> consumed(
            state,
            bytes,
            shape,
            now,
        ).0.terminal == state.terminal && consumed(state, bytes, shape, now).1 == bytes,
        holds_event(bytes, kind, json) ==> ({
            let after = consumed(state, bytes, shape, now).0;
            let number = json.signed_field("sequence_number"@);
            let response = json.field("response"@);
            let named = response is Some && response->0.text_field("id"@) is Some;
            &&& number is Some ==> after.last_sequence_number == number
            &&& number is None ==> after.last_sequence_number == state.last_sequence_number
            &&& named ==> after.last_response_id == response->0.text_field("id"@)
            &&& !named ==> after.last_response_id == state.last_response_id
            &&& after.buffer == state.buffer
            &&& after.sse_mode == state.sse_mode
        }),
        event_of(lossy_text(bytes)).data is None || parsed_json(
            event_of(lossy_text(bytes)).data->0,
        ) is None ==> consumed(state, bytes, shape, now) == (state, bytes),
{
}

/// Does a failure say that another account, or more time, is what is missing?
pub open spec fn is_passing(failure: FailureClass) -> bool {
    failure != FailureClass::RequestRejected && failure != FailureClass::InternalFailure
}

/// An event by which a response fails is classed by the code and the type of its error; where that
/// says nothing, the request is to blame. What blames the request passes as it is; anything else is
/// replaced.
pub proof fn failed_responses_are_classed_by_code(
    state: SseView,
    bytes: Seq<u8>,
    json: JsonView,
    error: JsonView,
    shape: ResponseShape,
    now: Timestamp,
)
    requires
        holds_event(bytes, "response.failed"@, json),
        json.field("response"@) is Some,
        json.field("response"@)->0.field("error"@) == Some(error),
    ensures
        ({
            let (after, sent) = consumed(state, bytes, shape, now);
            let message = error.text_field("message"@);
            &&& after.terminal is Some && after.terminal->0 is Failure
            &&& classed_by_code(error, after.terminal->0->failure)
            &&& is_silent(error) ==> after.terminal->0->failure == FailureClass::RequestRejected
            &&& message is Some ==> after.terminal->0->details == message->0
            &&& !is_passing(after.terminal->0->failure) ==> sent == bytes
        }),
{
    lemma_kinds();
    lemma_codes();
}

/// An `error` event on a stream is classed by the status that it names, else by the code and the
/// type of its error; where that says nothing, the request is to blame.
pub proof fn error_events_are_classed(
    state: SseView,
    bytes: Seq<u8>,
    json: JsonView,
    error: JsonView,
    status: int,
    shape: ResponseShape,
    now: Timestamp,
)
    requires
        holds_event(bytes, "error"@, json),
        json.field("error"@) == Some(error),
        error is Object,
        error.text_field("message"@) is Some,
    ensures
        ({
            let (after, sent) = consumed(state, bytes, shape, now);
            let failure = after.terminal->0->failure;
            let words = lower(error.text_field("message"@)->0);
            let risky = has_text(words, "unusual activity"@) || has_text(words, "arkose"@)
                || has_text(words, "turnstile"@);
            let named = names_status(json, status) && 100 <= status <= 999;
            let quiet = says_nothing(payload_of(error)) && !speaks_of_limits(words);
            &&& after.terminal is Some && after.terminal->0 is Failure
            &&& after.terminal->0->details == error.text_field("message"@)->0
            &&& named && status == 401 ==> failure == FailureClass::AccessTokenRejected
            &&& named && says_nothing(payload_of(error)) && status == 429 ==> failure
                == FailureClass::RateLimited
            &&& named && says_nothing(payload_of(error)) && status == 403 && risky ==> failure
                == FailureClass::RiskControlled
            &&& named && quiet && (500 <= status < 600 || (status == 403 && !risky)) ==> failure
                == FailureClass::TemporaryFailure
            &&& named && quiet && status != 401 && status != 403 && status != 429 && !(500 <= status
                < 600) ==> failure == FailureClass::RequestRejected
            &&& json.field("status"@) is None && json.field("status_code"@) is None
                ==> classed_by_code(error, failure)
            &&& json.field("status"@) is None && json.field("status_code"@) is None && is_silent(
                error,
            ) ==> failure == FailureClass::RequestRejected
            &&& !is_passing(failure) ==> sent == bytes
        }),
{
    lemma_kinds();
    lemma_codes();
}

/// Is this the error by which clients learn that no account can serve them?
pub open spec fn says_no_account(code: Option<JsonView>, message: Option<JsonView>) -> bool {
    &&& code == Some(JsonView::Text("server_is_overloaded"@))
    &&& message == Some(JsonView::Text("No account available right now. Try again later."@))
}

/// Where an event tells that an account failed, a Codex client gets a failed response in its place:
/// the one that failed, with the error that no account is available in place of its own.
pub proof fn codex_clients_learn_of_no_account(
    state: SseView,
    bytes: Seq<u8>,
    kind: Seq<char>,
    json: JsonView,
    key: Seq<char>,
    now: Timestamp,
)
    requires
        holds_event(bytes, kind, json),
        kind == "response.failed"@ || kind == "error"@,
        is_passing(consumed(state, bytes, ResponseShape::Codex, now).0.terminal->0->failure),
        kind == "response.failed"@ ==> json.field("response"@) is Some && json.field(
            "response"@,
        )->0.field("error"@) is Some,
    ensures
        exists|event: JsonView|
            {
                let response = event.field("response"@)->0;
                let error = response.field("error"@);
                &&& consumed(state, bytes, ResponseShape::Codex, now).1 == #[trigger] sse_bytes(
                    "response.failed"@,
                    event,
                )
                &&& error is Some
                &&& says_no_account(error->0.field("code"@), error->0.field("message"@))
                &&& error->0.field("type"@) is None && error->0.field("resets_at"@) is None
                    && error->0.field("resets_in_seconds"@) is None
                &&& kind == "response.failed"@ && key != "response"@ ==> event.field(key)
                    == json.field(key)
                &&& kind == "response.failed"@ && key != "error"@ ==> response.field(key)
                    == json.field("response"@)->0.field(key)
            },
{
    lemma_kinds();
    lemma_fields();
    let after = consumed(state, bytes, ResponseShape::Codex, now).0;
    codex_errors_are_told_whole(
        unavailable(),
        "internal_server_error"@,
        "Upstream request failed."@,
    );
    lemma_error_fields();
    if kind == "response.failed"@ {
        let event = hidden_error(json);
        assert(consumed(state, bytes, ResponseShape::Codex, now).1 == sse_bytes(
            "response.failed"@,
            event,
        ));
    } else {
        let number = crate::responses::stream::stand_in_number(after, json);
        failed_events_are_told_whole(after.last_response_id, number, unavailable(), now);
        let event = failed_event(after.last_response_id, number, unavailable(), now);
        assert(consumed(state, bytes, ResponseShape::Codex, now).1 == sse_bytes(
            "response.failed"@,
            event,
        ));
    }
}

proof fn lemma_error_fields()
    ensures
        "code"@.len() == 4 && "code"@[0] == 'c',
        "type"@.len() == 4 && "type"@[0] == 't',
        "message"@.len() == 7,
        "resets_at"@.len() == 9,
        "resets_in_seconds"@.len() == 17,
        "id"@.len() == 2,
        "object"@.len() == 6 && "object"@[0] == 'o',
        "status"@.len() == 6 && "status"@[0] == 's',
        "created_at"@.len() == 10 && "created_at"@[0] == 'c',
        "background"@.len() == 10 && "background"@[0] == 'b',
        "incomplete_details"@.len() == 18,
        "sequence_number"@.len() == 15,
{
    reveal_strlit("code");
    reveal_strlit("type");
    reveal_strlit("message");
    reveal_strlit("resets_at");
    reveal_strlit("resets_in_seconds");
    reveal_strlit("id");
    reveal_strlit("object");
    reveal_strlit("status");
    reveal_strlit("created_at");
    reveal_strlit("background");
    reveal_strlit("incomplete_details");
    reveal_strlit("sequence_number");
}

/// Where an event tells that an account failed, a general client gets an `error` event in its place,
/// with the number of that event, or else the next one.
pub proof fn general_clients_learn_of_no_account(
    state: SseView,
    bytes: Seq<u8>,
    kind: Seq<char>,
    json: JsonView,
    now: Timestamp,
)
    requires
        holds_event(bytes, kind, json),
        kind == "response.failed"@ || kind == "error"@,
        is_passing(consumed(state, bytes, ResponseShape::OpenAi, now).0.terminal->0->failure),
    ensures
        exists|event: JsonView|
            {
                let number = event.signed_field("sequence_number"@);
                let said = json.signed_field("sequence_number"@);
                let last = state.last_sequence_number;
                &&& consumed(state, bytes, ResponseShape::OpenAi, now).1 == #[trigger] sse_bytes(
                    "error"@,
                    event,
                )
                &&& event.field("type"@) == Some(JsonView::Text("error"@))
                &&& says_no_account(event.field("code"@), event.field("message"@))
                &&& said is Some ==> number == said
                &&& said is None && last is None ==> number == Some(0i64)
                &&& said is None && last is Some && -1 <= last->0 < i64::MAX ==> number is Some
                    && number->0 == last->0 + 1
            },
{
    lemma_kinds();
    lemma_error_fields();
    let after = consumed(state, bytes, ResponseShape::OpenAi, now).0;
    let number = crate::responses::stream::stand_in_number(after, json);
    error_events_are_told_whole(number, unavailable());
    let event = error_event(number, unavailable());
    assert(consumed(state, bytes, ResponseShape::OpenAi, now).1 == sse_bytes("error"@, event));
}

/// A failure in the middle of a stream is told as one more event behind the last, in the form that
/// the client knows.
pub proof fn broken_streams_end_with_an_event(
    state: SseView,
    payload: PayloadView,
    now: Timestamp,
)
    requires
        payload.code is Some,
        payload.message is Some,
    ensures
        exists|event: JsonView|
            {
                &&& synthetic(state, ResponseShape::OpenAi, payload, now) == #[trigger] sse_bytes(
                    "error"@,
                    event,
                )
                &&& event.field("type"@) == Some(JsonView::Text("error"@))
                &&& event.text_field("code"@) == payload.code
                &&& event.text_field("message"@) == payload.message
                &&& state.last_sequence_number is None ==> event.signed_field("sequence_number"@)
                    == Some(0i64)
                &&& state.last_sequence_number is Some && state.last_sequence_number->0 < i64::MAX
                    ==> event.signed_field("sequence_number"@) is Some && event.signed_field(
                    "sequence_number"@,
                )->0 == state.last_sequence_number->0 + 1
            },
        exists|event: JsonView|
            {
                let response = event.field("response"@)->0;
                let error = response.field("error"@)->0;
                &&& synthetic(state, ResponseShape::Codex, payload, now) == #[trigger] sse_bytes(
                    "response.failed"@,
                    event,
                )
                &&& event.field("type"@) == Some(JsonView::Text("response.failed"@))
                &&& error.text_field("code"@) == payload.code
                &&& error.text_field("message"@) == payload.message
                &&& error.text_field("type"@) == payload.error_type
                &&& state.last_response_id is Some ==> response.text_field("id"@)
                    == state.last_response_id
                &&& state.last_sequence_number is Some && state.last_sequence_number->0 < i64::MAX
                    ==> event.signed_field("sequence_number"@) is Some && event.signed_field(
                    "sequence_number"@,
                )->0 == state.last_sequence_number->0 + 1
            },
{
    let number = next_sequence(state.last_sequence_number);
    error_events_are_told_whole(number, payload);
    failed_events_are_told_whole(state.last_response_id, number, payload, now);
    assert(synthetic(state, ResponseShape::OpenAi, payload, now) == sse_bytes(
        "error"@,
        error_event(number, payload),
    ));
    assert(synthetic(state, ResponseShape::Codex, payload, now) == sse_bytes(
        "response.failed"@,
        failed_event(state.last_response_id, number, payload, now),
    ));
}

/// An answer in the middle of a stream that tells of an unusable account is hidden; what blames the
/// request, or came without an answer, is told.
pub proof fn unusable_accounts_are_hidden_on_streams(
    error: TransportError,
    text: Seq<char>,
    delay: Option<Delay>,
)
    ensures
        error is Http && is_passing(transport_class(error)) ==> told_error(error, text, delay).code
            == Some("server_is_overloaded"@) && told_error(error, text, delay).message == Some(
            "No account available right now. Try again later."@,
        ),
        !(error is Http) || !is_passing(transport_class(error)) ==> told_error(error, text, delay)
            == transport_payload(error, text, delay),
{
}

/// An event ends behind the first empty line: two line feeds, or two pairs of a return and a line
/// feed. Where there is no end yet there is no empty line.
pub proof fn events_end_behind_an_empty_line(buffer: Seq<u8>, i: int)
    ensures
        event_end(buffer) matches Some(end) ==> {
            &&& 2 <= end <= buffer.len()
            &&& (buffer[end - 2] == 10 && buffer[end - 1] == 10) || (end >= 4 && buffer[end - 4] == 13
                && buffer[end - 3] == 10 && buffer[end - 2] == 13 && buffer[end - 1] == 10)
            &&& 0 <= i < end - 2 ==> !(buffer[i] == 10 && buffer[i + 1] == 10)
        },
        event_end(buffer) is None && 0 <= i ==> {
            &&& i + 1 < buffer.len() ==> !(buffer[i] == 10 && buffer[i + 1] == 10)
            &&& i + 3 < buffer.len() ==> !(buffer[i] == 13 && buffer[i + 1] == 10 && buffer[i + 2]
                == 13 && buffer[i + 3] == 10)
        },
{
    lemma_event_end(buffer, 0, i);
}

proof fn lemma_event_end(buffer: Seq<u8>, from: int, i: int)
    requires
        0 <= from,
    ensures
        event_end_from(buffer, from) matches Some(end) ==> {
            &&& from + 2 <= end <= buffer.len()
            &&& exists|at: int|
                from <= at < end && #[trigger] boundary(buffer, at) > 0 && end == at + boundary(
                    buffer,
                    at,
                ) && (from <= i < at ==> boundary(buffer, i) == 0)
        },
        event_end_from(buffer, from) is None && from <= i ==> boundary(buffer, i) == 0,
    decreases buffer.len() - from,
{
    if from < buffer.len() {
        if boundary(buffer, from) > 0 {
            assert(event_end_from(buffer, from) == Some(from + boundary(buffer, from)));
        } else {
            lemma_event_end(buffer, from + 1, i);
        }
    }
}

/// A line of a text, up to the line feed behind it.
proof fn lemma_line(text: Seq<char>, from: int, at: int, end: int)
    requires
        0 <= from <= at <= end < text.len(),
        text[end] == '\n',
        forall|i: int| from <= i < end ==> #[trigger] text[i] != '\n',
    ensures
        line_feed(text, at) == end,
    decreases end - at,
{
    if at < end {
        assert(text[at] != '\n');
        lemma_line(text, from, at + 1, end);
    }
}

/// Is this text one line of its own: without a line feed, a space in front or a return behind?
pub open spec fn is_line(text: Seq<char>) -> bool {
    &&& text.len() > 0
    &&& forall|i: int| 0 <= i < text.len() ==> #[trigger] text[i] != '\n'
    &&& !crate::text::is_space(text[0])
    &&& text.last() != '\r'
}

proof fn lemma_line_of(text: Seq<char>, label: Seq<char>, value: Seq<char>, from: int, event: EventView)
    requires
        is_line(value),
        label == "event: "@ || label == "data: "@,
        0 <= from,
        from + label.len() + value.len() < text.len(),
        text.subrange(from, from + label.len() + value.len()) == label + value,
        text[from + label.len() + value.len()] == '\n',
    ensures
        read_from(event, text, from) == read_from(
            with_line(event, label + value),
            text,
            from + label.len() + value.len() + 1,
        ),
{
    let line = label + value;
    let end = from + line.len();
    reveal_strlit("event: ");
    reveal_strlit("data: ");
    assert forall|i: int| from <= i < end implies #[trigger] text[i] != '\n' by {
        assert(text[i] == text.subrange(from, end)[i - from]);
        if i - from >= label.len() {
            assert(line[i - from] == value[i - from - label.len()]);
        } else {
            assert(line[i - from] == label[i - from]);
        }
    }
    lemma_line(text, from, from, end);
    assert(line.last() == value.last());
    assert(without_returns(line) == line);
}

proof fn lemma_labelled(label: Seq<char>, short: Seq<char>, value: Seq<char>)
    requires
        is_line(value),
        (label == "event: "@ && short == "event:"@) || (label == "data: "@ && short == "data:"@),
    ensures
        begins_with(label + value, short),
        trimmed_start(crate::text::rest_behind(label + value, short)) == value,
{
    reveal_strlit("event: ");
    reveal_strlit("data: ");
    reveal_strlit("event:");
    reveal_strlit("data:");
    let line = label + value;
    assert(line.subrange(0, short.len() as int) =~= short);
    let rest = crate::text::rest_behind(line, short);
    assert(rest =~= seq![' '] + value);
    assert(crate::text::is_space(' '));
    assert(rest.skip(1) =~= value);
    assert(trimmed_start(rest) == trimmed_start(rest.skip(1)));
}

/// What is written as an event is read as that event: its name and its data.
pub proof fn events_are_read_as_written(name: Seq<char>, data: JsonView)
    requires
        is_line(name),
        is_line(crate::json::json_text(data)),
    ensures
        event_of(sse_text(name, data)).name == Some(name),
        event_of(sse_text(name, data)).data == Some(crate::json::json_text(data)),
{
    let value = crate::json::json_text(data);
    let text = sse_text(name, data);
    reveal_strlit("event: ");
    reveal_strlit("\ndata: ");
    reveal_strlit("data: ");
    reveal_strlit("\n\n");
    reveal_strlit("event:");
    reveal_strlit("data:");
    assert(text =~= "event: "@ + name + seq!['\n'] + "data: "@ + value + seq!['\n', '\n']);
    let first: int = name.len() as int + 7;
    let second: int = first + 1 + 6 + value.len();
    assert(text.subrange(0, first) =~= "event: "@ + name);
    assert(text.subrange(first + 1, second) =~= "data: "@ + value);
    let nothing = EventView { name: None, data: None };
    lemma_line_of(text, "event: "@, name, 0, nothing);
    lemma_labelled("event: "@, "event:"@, name);
    let named = with_line(nothing, "event: "@ + name);
    assert(!begins_with("event: "@ + name, "data:"@)) by {
        assert(("event: "@ + name).subrange(0, 5)[0] == 'e');
        assert("data:"@[0] == 'd');
    }
    lemma_line_of(text, "data: "@, value, first + 1, named);
    lemma_labelled("data: "@, "data:"@, value);
    let told = with_line(named, "data: "@ + value);
    assert(!begins_with("data: "@ + value, "event:"@)) by {
        assert(("data: "@ + value).subrange(0, 6)[0] == 'd');
        assert("event:"@[0] == 'e');
    }
    assert(text.len() == second + 2);
    lemma_line(text, second + 1, second + 1, second + 1);
    let bare = text.subrange(second + 1, second + 1);
    assert(bare.len() == 0);
    assert(without_returns(bare) == bare);
    assert("event:"@.len() == 6 && "data:"@.len() == 5);
    assert(with_line(told, bare) == told);
    assert(read_from(told, text, second + 1) == read_from(told, text, second + 2));
}

/// A line begins an event exactly where it begins with one of the fields that events have. A few
/// bytes leave it open; no byte that none of them begins with does. A line starts behind a line feed.
pub proof fn fields_begin_events(bytes: Seq<u8>)
    ensures
        has_prefix(bytes, "event:"@) || has_prefix(bytes, "data:"@) || has_prefix(bytes, "id:"@)
            || has_prefix(bytes, "retry:"@) || has_prefix(bytes, ":"@) <==> line_match(bytes)
            == SseLineStartMatch::Full,
        bytes.len() >= 6 ==> line_match(bytes) != SseLineStartMatch::Partial,
        bytes.len() == 0 ==> line_match(bytes) == SseLineStartMatch::Partial,
        starts_line(true, Seq::empty()) && !starts_line(false, Seq::empty()),
        forall|begun: bool|
            bytes.len() > 0 ==> (#[trigger] starts_line(begun, bytes) <==> bytes[bytes.len() - 1]
                == 10),
        bytes.len() > 0 && bytes[0] != 101 && bytes[0] != 100 && bytes[0] != 105 && bytes[0] != 114
            && bytes[0] != 58 ==> line_match(bytes) == SseLineStartMatch::Unmatched,
{
    reveal_strlit("event:");
    reveal_strlit("data:");
    reveal_strlit("id:");
    reveal_strlit("retry:");
    reveal_strlit(":");
    assert("event:"@.len() == 6 && "data:"@.len() == 5 && "id:"@.len() == 3 && "retry:"@.len() == 6
        && ":"@.len() == 1);
    assert("event:"@[0] == 'e' && "data:"@[0] == 'd' && "id:"@[0] == 'i' && "retry:"@[0] == 'r'
        && ":"@[0] == ':');
}

/// The last event of a stream decides what becomes of its account, once. A stream that ends before
/// that is a failure that passes; one that is given up from this side frees the account.
pub proof fn streams_settle_by_their_end(
    stream: ManagedView,
    bytes: Seq<u8>,
    error: TransportError,
    text: Seq<char>,
    retry_after: Option<RetryView>,
    delay: Option<Delay>,
    now: Timestamp,
)
    requires
        !stream.settled,
        stream.sse.terminal is None,
    ensures
        ({
            let done = reaction_to(stream, StreamInput::Shutdown, now);
            done.settlement == Some(SettlementView::Release) && done.step is End
        }),
        reaction_to(stream, StreamInput::Dropped, now).settlement == Some(SettlementView::Release),
        reaction_to(stream, StreamInput::Polled, now).settlement is None,
        ({
            let done = reaction_to(stream, StreamInput::Bytes(bytes), now);
            &&& done.settlement is Some <==> done.stream.sse.terminal is Some
            &&& done.settlement == done.stream.sse.terminal
            &&& done.settlement is Some ==> done.stream.settled && done.stream.closing
        }),
        ({
            let done = reaction_to(
                stream,
                StreamInput::Error { error, text, retry_after, delay },
                now,
            );
            &&& done.settlement is Some && done.settlement->0 is Failure
            &&& done.settlement->0->failure == transport_class(error)
            &&& done.settlement->0->retry_after == retry_after
            &&& done.stream.settled && done.stream.closing
        }),
        ({
            let done = reaction_to(stream, StreamInput::Finished, now);
            &&& done.settlement is Some
            &&& done.stream.settled && done.stream.closing
            &&& stream.sse.buffer.len() == 0 ==> done.settlement->0 is Failure
                && done.settlement->0->failure == FailureClass::TemporaryFailure
                && done.settlement->0->retry_after is None && done.settlement->0->details
                == "stream closed before response.completed"@
        }),
{
}

/// Every chunk that waits goes out in its turn, before the stream ends.
pub proof fn waiting_chunks_go_first(stream: ManagedView, now: Timestamp)
    ensures
        ({
            let done = reaction_to(stream, StreamInput::Polled, now);
            &&& stream.pending.len() > 0 ==> done.step == StepView::Chunk(stream.pending[0])
                && done.stream.pending == stream.pending.skip(1)
            &&& stream.pending.len() == 0 && stream.closing ==> done.step is End
            &&& stream.pending.len() == 0 && !stream.closing ==> done.step is Wait
            &&& done.stream.sse == stream.sse && done.stream.settled == stream.settled
        }),
{
}

/// A stream that breaks off lets the client have what came before, then one event that tells of it.
pub proof fn broken_streams_tell_of_it(
    stream: ManagedView,
    error: TransportError,
    text: Seq<char>,
    retry_after: Option<RetryView>,
    delay: Option<Delay>,
    now: Timestamp,
)
    requires
        stream.sse.terminal is None,
        stream.pending.len() == 0,
        stream.sse.buffer.len() == 0,
    ensures
        reaction_to(
            stream,
            StreamInput::Error { error, text, retry_after, delay },
            now,
        ).step == StepView::Chunk(
            synthetic(stream.sse, stream.shape, told_error(error, text, delay), now),
        ),
        exists|payload: PayloadView|
            {
                &&& reaction_to(stream, StreamInput::Finished, now).step == StepView::Chunk(
                    #[trigger] synthetic(stream.sse, stream.shape, payload, now),
                )
                &&& payload.code == Some("internal_server_error"@)
                &&& payload.message == Some("stream closed before response.completed"@)
            },
{
    assert(SseView { buffer: Seq::empty(), ..stream.sse } == stream.sse) by {
        assert(stream.sse.buffer =~= Seq::empty());
    }
    let payload = crate::responses::managed::early_end_payload();
    let more = Seq::<Seq<u8>>::empty();
    assert(stream.pending + more =~= stream.pending);
    assert(reaction_to(stream, StreamInput::Finished, now).step == StepView::Chunk(
        synthetic(stream.sse, stream.shape, payload, now),
    ));
}

/// What waited for more bytes is not lost where a stream breaks off before any event began.
pub proof fn plain_bytes_are_not_lost(state: SseView)
    ensures
        !state.sse_mode && state.buffer.len() > 0 && line_match(state.buffer)
            != SseLineStartMatch::Partial ==> leftover(state) == Some(state.buffer),
        state.sse_mode || state.buffer.len() == 0 ==> leftover(state) is None,
{
}

/// The note on an incomplete response has its reason, and the one on a failed response without a
/// message says that it failed.
pub proof fn ends_of_streams_are_noted(
    state: SseView,
    bytes: Seq<u8>,
    json: JsonView,
    response: JsonView,
    shape: ResponseShape,
    now: Timestamp,
)
    requires
        json.field("response"@) == Some(response),
    ensures
        holds_event(bytes, "response.incomplete"@, json) ==> ({
            let details = response.field("incomplete_details"@);
            let reason = details->0.text_field("reason"@);
            let note = consumed(state, bytes, shape, now).0.terminal->0->details;
            &&& details is Some && reason is Some ==> note
                == "Incomplete response returned, reason: "@ + reason->0
            &&& details is None || reason is None ==> note
                == "Incomplete response returned, reason: "@ + "unknown"@
        }),
        holds_event(bytes, "response.failed"@, json) && (response.field("error"@) is None
            || response.field("error"@)->0.text_field("message"@) is None) ==> consumed(
            state,
            bytes,
            shape,
            now,
        ).0.terminal->0->details == "response.failed event received"@,
{
    lemma_kinds();
}

/// A stream begins with nothing read, at the start of a line.
pub proof fn streams_begin_at_a_line(last: Option<i64>, id: Option<Seq<char>>)
    ensures
        ({
            let state = fresh(last, id);
            &&& state.buffer.len() == 0 && state.line_start && !state.sse_mode
            &&& state.terminal is None
            &&& state.last_sequence_number == last && state.last_response_id == id
        }),
{
}

/// An event that comes whole is seen at once: it goes out as one chunk, and what it says of the
/// response is known from then on.
pub proof fn whole_events_are_seen(
    state: SseView,
    bytes: Seq<u8>,
    shape: ResponseShape,
    now: Timestamp,
)
    requires
        state.terminal is None,
        state.buffer.len() == 0,
        state.sse_mode || (state.line_start && line_match(bytes) == SseLineStartMatch::Full),
        event_end(bytes) == Some(bytes.len() as int),
    ensures
        ({
            let (after, output) = observed(state, bytes, shape, now);
            let (seen, chunk) = consumed(SseView { sse_mode: true, ..state }, bytes, shape, now);
            &&& output.len() == 1 && output[0] == chunk
            &&& after.terminal == seen.terminal
            &&& after.last_sequence_number == seen.last_sequence_number
            &&& after.last_response_id == seen.last_response_id
            &&& after.buffer.len() == 0
            &&& after.sse_mode
        }),
{
    assert(state.buffer + bytes =~= bytes);
    lemma_event_end(bytes, 0, 0);
    assert(bytes.take(bytes.len() as int) =~= bytes);
    let rest = bytes.skip(bytes.len() as int);
    assert(rest =~= Seq::empty());
    assert(state.buffer =~= Seq::empty());
    let begun = SseView { sse_mode: true, buffer: bytes, ..state };
    let (after, chunk) = consumed(SseView { buffer: rest, ..begun }, bytes, shape, now);
    let last = SseView { buffer: rest, ..after };
    assert(event_end(rest) is None);
    assert(drained(last, shape, now) == (last, Seq::<Seq<u8>>::empty()));
    assert(seq![chunk] + Seq::<Seq<u8>>::empty() =~= seq![chunk]);
    if !state.sse_mode {
        assert(bytes.take(0) =~= Seq::empty());
        assert(bytes.skip(0) =~= bytes);
        assert(events_start(state.line_start, bytes, 0) == 0);
        assert(Seq::<Seq<u8>>::empty() + seq![chunk] =~= seq![chunk]);
    }
}

/// Events go out one by one, in order, up to the one that ends the response. Nothing goes out behind
/// that one, whatever comes.
pub proof fn events_go_out_up_to_the_last(
    state: SseView,
    bytes: Seq<u8>,
    shape: ResponseShape,
    now: Timestamp,
)
    requires
        state.sse_mode,
    ensures
        state.terminal is Some ==> observed(state, bytes, shape, now).1.len() == 0 && observed(
            state,
            bytes,
            shape,
            now,
        ).0 == state,
        state.terminal is None && event_end(state.buffer + bytes) is Some ==> ({
            let all = state.buffer + bytes;
            let end = event_end(all)->0;
            let (after, output) = observed(state, bytes, shape, now);
            let (seen, chunk) = consumed(
                SseView { buffer: all.skip(end), ..state },
                all.take(end),
                shape,
                now,
            );
            &&& output.len() >= 1 && output[0] == chunk
            &&& seen.terminal is Some ==> output.len() == 1 && after.terminal == seen.terminal
                && after.buffer.len() == 0
        }),
        state.terminal is None && event_end(state.buffer + bytes) is None ==> observed(
            state,
            bytes,
            shape,
            now,
        ).1.len() == 0 && observed(state, bytes, shape, now).0.buffer == state.buffer + bytes,
{
}

/// A stream that ends in the middle of an event still has it seen, where its last line is whole.
pub proof fn last_lines_are_seen(state: SseView, shape: ResponseShape, now: Timestamp)
    ensures
        state.terminal is None && state.sse_mode && state.buffer.len() > 0 && state.buffer.last()
            == 10 ==> ({
            let (after, output) = ended(state, shape, now);
            let (seen, chunk) = consumed(
                SseView { buffer: Seq::empty(), ..state },
                state.buffer,
                shape,
                now,
            );
            &&& output.len() == 1 && output[0] == chunk
            &&& after.terminal == seen.terminal
        }),
        state.terminal is Some || !state.sse_mode || state.buffer.len() == 0 || state.buffer.last()
            != 10 ==> ended(state, shape, now).1.len() == 0 && ended(state, shape, now).0 == state,
{
}

}
