//! A stream of events on its way from the upstream to a client.
use crate::classifier::{classify_request_error, transport_class, FailureClass, TransportError};
use crate::error_semantics::{
    borrowed, copy_retry, delay_of, either, owned_text, retry_view, PayloadView, RetryAfter,
};
use crate::failover::{optional_settlement, AccountSettlement, SettlementView};
use crate::json::{optional_text, parse_json, parsed_json, Json, JsonView};
use crate::models::ResponseShape;
use crate::responses::failure::{
    downstream_failure_kind, error_delay_at, error_event, error_object, error_object_json,
    error_retry, failed_event, failure_kind, gateway_unavailable_payload, next_sequence,
    next_sequence_number, or_text, render_openai_stream_error_event_with_sequence,
    render_sse_event_bytes, sse_bytes, synthetic_response_failed_json_at,
    synthetic_response_failed_payload_from_transport, tellable, transport_payload, unavailable,
    DownstreamFailureKind, SyntheticResponseFailedPayload,
};
use crate::responses::sse::{
    copy_bytes, event_end, event_end_is_inside, event_of, find_sse_event_end, line_match,
    line_start_after_bytes, lossy_text, match_line_start, parse_event_bytes, push_bytes,
    starts_line, SseEvent, SseLineStartMatch,
};
use crate::responses::websocket::errors::{
    classify_openai_error_event_at, classify_response_failed_event_at, error_event_meaning,
    event_error, failed_meaning, get_incomplete_reason, incomplete_reason, ClassifiedFailure,
    ClassifiedView,
};
use crate::text::same_text;
use crate::time::{in_calendar, utc_now, Delay, Timestamp};
use std::collections::VecDeque;
use vstd::prelude::*;

verus! {

/// How a response ended.
#[derive(Debug, Clone, PartialEq, Eq)]
pub enum ResponsesTerminalState {
    Completed,
    Failed { failure: FailureClass, retry_after: Option<RetryAfter>, details: String },
}

/// What is known of a stream of events.
#[derive(Debug, Clone, PartialEq, Eq)]
pub struct ResponsesSseState {
    pub buffer: Vec<u8>,
    pub line_start: bool,
    pub sse_mode: bool,
    pub last_sequence_number: Option<i64>,
    pub last_response_id: Option<String>,
    pub terminal_state: Option<ResponsesTerminalState>,
}

/// The settlement that the end of a response asks for.
pub open spec fn settlement_of(terminal: Option<ResponsesTerminalState>) -> Option<
    SettlementView,
> {
    match terminal {
        Some(ResponsesTerminalState::Completed) => Some(SettlementView::Success),
        Some(ResponsesTerminalState::Failed { failure, retry_after, details }) => Some(
            SettlementView::Failure {
                failure,
                retry_after: retry_view(retry_after),
                details: details@,
            },
        ),
        None => None,
    }
}

/// The model of what is known of a stream.
pub struct SseView {
    /// The bytes that wait for more.
    pub buffer: Seq<u8>,
    /// Does a line start behind what was passed on?
    pub line_start: bool,
    /// Have events begun?
    pub sse_mode: bool,
    pub last_sequence_number: Option<i64>,
    pub last_response_id: Option<Seq<char>>,
    /// The settlement that the end of the response asks for.
    pub terminal: Option<SettlementView>,
}

impl View for ResponsesSseState {
    type V = SseView;

    open spec fn view(&self) -> SseView {
        SseView {
            buffer: self.buffer@,
            line_start: self.line_start,
            sse_mode: self.sse_mode,
            last_sequence_number: self.last_sequence_number,
            last_response_id: owned_text(self.last_response_id),
            terminal: settlement_of(self.terminal_state),
        }
    }
}

/// The bytes of some chunks.
pub open spec fn chunks(output: Seq<Vec<u8>>) -> Seq<Seq<u8>> {
    Seq::new(output.len(), |i: int| output[i]@)
}

/// The failure that an event means for its account.
pub open spec fn failed_settlement(meaning: ClassifiedView) -> SettlementView {
    SettlementView::Failure {
        failure: meaning.failure,
        retry_after: meaning.retry_after,
        details: meaning.details,
    }
}

/// The error of the response that an event holds.
pub open spec fn response_error(json: JsonView) -> JsonView {
    match json.field("response"@) {
        Some(response) => event_error(response),
        None => JsonView::Null,
    }
}

/// The id of the response that an event holds.
pub open spec fn response_id(json: JsonView) -> Option<Seq<char>> {
    match json.field("response"@) {
        Some(response) => response.text_field("id"@),
        None => None,
    }
}

/// What is known of a stream once the number and the response of an event are noted.
pub open spec fn checkpoint(state: SseView, json: JsonView) -> SseView {
    SseView {
        last_sequence_number: either(
            json.signed_field("sequence_number"@),
            state.last_sequence_number,
        ),
        last_response_id: either(response_id(json), state.last_response_id),
        ..state
    }
}

/// What kind of event this is: its name, or its type where it has none.
pub open spec fn event_kind(name: Option<Seq<char>>, json: JsonView) -> Seq<char> {
    match name {
        Some(name) => name,
        None => or_text(json.text_field("type"@), ""@),
    }
}

/// An event of failure with the error that no account can serve the request.
pub open spec fn hidden_error(json: JsonView) -> JsonView {
    match json.field("response"@) {
        Some(response) => if response.field("error"@) is Some {
            json.with("response"@, response.with("error"@, unavailable_object()))
        } else {
            json
        },
        None => json,
    }
}

/// The error that no account can serve the request, as an object.
pub open spec fn unavailable_object() -> JsonView {
    error_object(unavailable(), "internal_server_error"@, "Upstream request failed."@)
}

/// The number of an event that stands in for another: the number of the other, else the one behind
/// the last, and never a negative one.
pub open spec fn stand_in_number(state: SseView, json: JsonView) -> i64 {
    match json.signed_field("sequence_number"@) {
        Some(n) => n,
        None => if next_sequence(state.last_sequence_number) < 0 {
            0
        } else {
            next_sequence(state.last_sequence_number)
        },
    }
}

/// The event that a client gets in place of one that tells of an unusable account.
pub open spec fn stand_in(
    state: SseView,
    shape: ResponseShape,
    kind: Seq<char>,
    json: JsonView,
    now: Timestamp,
) -> Seq<u8> {
    match shape {
        ResponseShape::Codex => if kind == "response.failed"@ {
            sse_bytes(kind, hidden_error(json))
        } else {
            sse_bytes(
                "response.failed"@,
                failed_event(
                    state.last_response_id,
                    stand_in_number(state, json),
                    unavailable(),
                    now,
                ),
            )
        },
        ResponseShape::OpenAi => sse_bytes(
            "error"@,
            error_event(stand_in_number(state, json), unavailable()),
        ),
    }
}

/// What is known of a stream after an event of failure, and the bytes that are passed on for it.
pub open spec fn after_failed_event(
    state: SseView,
    meaning: ClassifiedView,
    shape: ResponseShape,
    kind: Seq<char>,
    json: JsonView,
    bytes: Seq<u8>,
    now: Timestamp,
) -> (SseView, Seq<u8>) {
    (
        SseView { terminal: Some(failed_settlement(meaning)), ..state },
        if failure_kind(meaning.failure) == DownstreamFailureKind::GatewayUnavailable {
            stand_in(state, shape, kind, json, now)
        } else {
            bytes
        },
    )
}

/// What is known of a stream after an event whose data are `json`, and the bytes that are passed on
/// for it.
pub open spec fn after_event(
    state: SseView,
    name: Option<Seq<char>>,
    json: JsonView,
    shape: ResponseShape,
    bytes: Seq<u8>,
    now: Timestamp,
) -> (SseView, Seq<u8>) {
    let seen = checkpoint(state, json);
    let kind = event_kind(name, json);
    if kind == "response.completed"@ {
        (SseView { terminal: Some(SettlementView::Success), ..seen }, bytes)
    } else if kind == "response.failed"@ {
        after_failed_event(
            seen,
            failed_meaning(response_error(json), now),
            shape,
            kind,
            json,
            bytes,
            now,
        )
    } else if kind == "error"@ {
        after_failed_event(seen, error_event_meaning(json, now), shape, kind, json, bytes, now)
    } else if kind == "response.incomplete"@ {
        (
            SseView {
                terminal: Some(
                    SettlementView::Failure {
                        failure: FailureClass::RequestRejected,
                        retry_after: None,
                        details: "Incomplete response returned, reason: "@ + incomplete_reason(
                            json,
                        ),
                    },
                ),
                ..seen
            },
            bytes,
        )
    } else {
        (seen, bytes)
    }
}

/// What is known of a stream after the bytes of an event, and the bytes that are passed on for it.
/// An event without data, or whose data are no JSON, is passed on as it is.
pub open spec fn consumed(
    state: SseView,
    bytes: Seq<u8>,
    shape: ResponseShape,
    now: Timestamp,
) -> (SseView, Seq<u8>) {
    let event = event_of(lossy_text(bytes));
    match event.data {
        Some(data) => match parsed_json(data) {
            Some(json) => after_event(state, event.name, json, shape, bytes, now),
            None => (state, bytes),
        },
        None => (state, bytes),
    }
}

/// What is known of a stream once every complete event of its buffer is passed on, and the chunks
/// that are. What follows the event that ends the response is dropped.
pub open spec fn drained(state: SseView, shape: ResponseShape, now: Timestamp) -> (
    SseView,
    Seq<Seq<u8>>,
)
    decreases state.buffer.len(),
{
    match event_end(state.buffer) {
        None => (state, Seq::empty()),
        Some(end) => {
            proof {
                event_end_is_inside(state.buffer, 0);
            }
            let rest = state.buffer.skip(end);
            let (after, chunk) = consumed(
                SseView { buffer: rest, ..state },
                state.buffer.take(end),
                shape,
                now,
            );
            if after.terminal is Some {
                (SseView { buffer: Seq::empty(), ..after }, seq![chunk])
            } else {
                let (last, more) = drained(SseView { buffer: rest, ..after }, shape, now);
                (last, seq![chunk] + more)
            }
        },
    }
}

/// The first place behind `from` at which a line starts that begins a field of an event, or might
/// with more bytes; the length of the bytes where there is none.
pub open spec fn events_start(line_start: bool, bytes: Seq<u8>, from: int) -> int
    decreases bytes.len() - from,
{
    if from < 0 || from >= bytes.len() {
        bytes.len() as int
    } else if starts_line(line_start, bytes.take(from)) && line_match(bytes.skip(from))
        != SseLineStartMatch::Unmatched {
        from
    } else {
        events_start(line_start, bytes, from + 1)
    }
}

/// What is known of a stream without events after more bytes, and the chunks that are passed on:
/// what stands before the first event is passed on as it is.
pub open spec fn scanned(state: SseView, bytes: Seq<u8>, shape: ResponseShape, now: Timestamp) -> (
    SseView,
    Seq<Seq<u8>>,
) {
    let at = events_start(state.line_start, bytes, 0);
    let front = bytes.take(at);
    let passed = if at > 0 {
        seq![front]
    } else {
        Seq::empty()
    };
    let begun = SseView {
        line_start: starts_line(state.line_start, front),
        buffer: state.buffer + bytes.skip(at),
        ..state
    };
    if at < bytes.len() && line_match(bytes.skip(at)) == SseLineStartMatch::Full {
        let (after, more) = drained(SseView { sse_mode: true, ..begun }, shape, now);
        (after, passed + more)
    } else {
        (begun, passed)
    }
}

/// How many bytes behind a beginning decide whether it begins a field of an event.
pub open spec fn deciding(buffer: Seq<u8>, bytes: Seq<u8>, taken: int) -> int
    decreases bytes.len() - taken,
{
    if taken < 0 || taken >= bytes.len() {
        bytes.len() as int
    } else if line_match(buffer + bytes.take(taken + 1)) != SseLineStartMatch::Partial {
        taken + 1
    } else {
        deciding(buffer, bytes, taken + 1)
    }
}

/// What is known of a stream after more bytes, and the chunks that are passed on.
pub open spec fn observed(state: SseView, bytes: Seq<u8>, shape: ResponseShape, now: Timestamp) -> (
    SseView,
    Seq<Seq<u8>>,
) {
    if state.terminal is Some {
        (state, Seq::empty())
    } else if state.sse_mode {
        drained(SseView { buffer: state.buffer + bytes, ..state }, shape, now)
    } else if bytes.len() == 0 {
        (state, Seq::empty())
    } else if state.buffer.len() > 0 {
        let n = deciding(state.buffer, bytes, 0);
        let front = state.buffer + bytes.take(n);
        match line_match(front) {
            SseLineStartMatch::Full => drained(
                SseView { sse_mode: true, buffer: state.buffer + bytes, ..state },
                shape,
                now,
            ),
            SseLineStartMatch::Partial => (SseView { buffer: front, ..state }, Seq::empty()),
            SseLineStartMatch::Unmatched => {
                let passed = SseView {
                    buffer: Seq::empty(),
                    line_start: starts_line(state.line_start, front),
                    ..state
                };
                let (after, more) = scanned(passed, bytes.skip(n), shape, now);
                (after, seq![front] + more)
            },
        }
    } else {
        scanned(state, bytes, shape, now)
    }
}

impl Default for ResponsesSseState {
    /// Nothing is known yet.
    fn default() -> (state: Self)
        ensures
            state@ == fresh(None, None),
    {
        ResponsesSseState {
            buffer: Vec::new(),
            line_start: true,
            sse_mode: false,
            last_sequence_number: None,
            last_response_id: None,
            terminal_state: None,
        }
    }
}

/// What is known before the first byte, with the last number and response of an earlier stream.
pub open spec fn fresh(
    last_sequence_number: Option<i64>,
    last_response_id: Option<Seq<char>>,
) -> SseView {
    SseView {
        buffer: Seq::empty(),
        line_start: true,
        sse_mode: false,
        last_sequence_number,
        last_response_id,
        terminal: None,
    }
}

fn is_kind(kind: &str, expected: &str) -> (same: bool)
    ensures
        same == (kind@ == expected@),
{
    same_text(kind, expected)
}

fn failed_state(classified: ClassifiedFailure) -> (terminal: ResponsesTerminalState)
    ensures
        settlement_of(Some(terminal)) == Some(failed_settlement(classified@)),
{
    ResponsesTerminalState::Failed {
        failure: classified.failure,
        retry_after: classified.retry_after,
        details: classified.details,
    }
}

/// An event of failure with the error that no account can serve the request.
pub fn hide_error(json: &Json) -> (hidden: Json)
    ensures
        hidden@ == hidden_error(json@),
{
    match json.get("response") {
        Some(response) => if response.get("error").is_some() {
            let error: Json = error_object_json(
                &gateway_unavailable_payload(),
                "internal_server_error",
                "Upstream request failed.",
            );
            let changed: Json = response.clone().with("error", error);
            json.clone().with("response", changed)
        } else {
            json.clone()
        },
        None => json.clone(),
    }
}

impl ResponsesSseState {
    /// Nothing is known yet but the last number and response of an earlier stream.
    pub fn with_checkpoint(
        last_sequence_number: Option<i64>,
        last_response_id: Option<String>,
    ) -> (state: Self)
        ensures
            state@ == fresh(last_sequence_number, owned_text(last_response_id)),
    {
        ResponsesSseState {
            buffer: Vec::new(),
            line_start: true,
            sse_mode: false,
            last_sequence_number,
            last_response_id,
            terminal_state: None,
        }
    }

    /// Has the response ended?
    pub fn has_terminal_event(&self) -> (ended: bool)
        ensures
            ended == self@.terminal is Some,
    {
        self.terminal_state.is_some()
    }

    /// The settlement that the end of the response asks for.
    pub fn terminal_action(&self) -> (action: Option<AccountSettlement>)
        ensures
            optional_settlement(action) == self@.terminal,
    {
        match &self.terminal_state {
            Some(ResponsesTerminalState::Completed) => Some(AccountSettlement::Success),
            Some(ResponsesTerminalState::Failed { failure, retry_after, details }) => Some(
                AccountSettlement::Failure {
                    failure: *failure,
                    retry_after: copy_retry(retry_after),
                    details: details.clone(),
                },
            ),
            None => None,
        }
    }

    /// The event that a client gets in place of one that tells of an unusable account.
    fn rewrite_gateway_unavailable_event_at(
        &self,
        shape: ResponseShape,
        kind: &str,
        json: &Json,
        now: Timestamp,
    ) -> (bytes: Vec<u8>)
        requires
            in_calendar(now),
        ensures
            bytes@ == stand_in(self@, shape, kind@, json@, now),
    {
        let number: i64 = match json.get_i64("sequence_number") {
            Some(n) => n,
            None => {
                let next: i64 = next_sequence_number(self.last_sequence_number);
                if next < 0 {
                    0
                } else {
                    next
                }
            },
        };
        let payload: SyntheticResponseFailedPayload = gateway_unavailable_payload();
        match shape {
            ResponseShape::Codex => if is_kind(kind, "response.failed") {
                render_sse_event_bytes(kind, &hide_error(json))
            } else {
                let event: Json = synthetic_response_failed_json_at(
                    borrowed(&self.last_response_id),
                    number,
                    &payload,
                    now,
                );
                render_sse_event_bytes("response.failed", &event)
            },
            ResponseShape::OpenAi => render_openai_stream_error_event_with_sequence(
                number,
                &payload,
            ),
        }
    }

    /// Takes note of an event whose data are `json`, and says what is passed on for it.
    pub fn note_event_at(
        &mut self,
        name: Option<&str>,
        json: &Json,
        event_bytes: &[u8],
        shape: ResponseShape,
        now: Timestamp,
    ) -> (chunk: Vec<u8>)
        requires
            in_calendar(now),
        ensures
            (final(self)@, chunk@) == after_event(
                old(self)@,
                optional_text(name),
                json@,
                shape,
                event_bytes@,
                now,
            ),
    {
        let nothing: Json = Json::Null;
        if let Some(n) = json.get_i64("sequence_number") {
            self.last_sequence_number = Some(n);
        }
        if let Some(response) = json.get("response") {
            if let Some(id) = response.get_str("id") {
                self.last_response_id = Some(id.to_owned());
            }
        }
        assert(self@ == checkpoint(old(self)@, json@));
        let kind: &str = match name {
            Some(name) => name,
            None => match json.get_str("type") {
                Some(kind) => kind,
                None => "",
            },
        };
        let whole: Vec<u8> = copy_bytes(event_bytes, 0, event_bytes.len());
        assert(whole@ =~= event_bytes@);
        if is_kind(kind, "response.completed") {
            self.terminal_state = Some(ResponsesTerminalState::Completed);
            return whole;
        }
        let failed: bool = is_kind(kind, "response.failed");
        if failed || is_kind(kind, "error") {
            let classified: ClassifiedFailure = if failed {
                let error: &Json = match json.get("response") {
                    Some(response) => match response.get("error") {
                        Some(error) => error,
                        None => &nothing,
                    },
                    None => &nothing,
                };
                classify_response_failed_event_at(error, now)
            } else {
                classify_openai_error_event_at(json, now)
            };
            let hide: bool = downstream_failure_kind(classified.failure)
                == DownstreamFailureKind::GatewayUnavailable;
            let chunk: Vec<u8> = if hide {
                self.rewrite_gateway_unavailable_event_at(shape, kind, json, now)
            } else {
                whole
            };
            self.terminal_state = Some(failed_state(classified));
            return chunk;
        }
        if is_kind(kind, "response.incomplete") {
            let mut details: String = "Incomplete response returned, reason: ".to_owned();
            details.append(get_incomplete_reason(json).as_str());
            self.terminal_state = Some(
                ResponsesTerminalState::Failed {
                    failure: FailureClass::RequestRejected,
                    retry_after: None,
                    details,
                },
            );
        }
        whole
    }

    /// Takes note of the bytes of an event, and says what is passed on for it.
    pub fn consume_event_at(
        &mut self,
        event_bytes: &[u8],
        shape: ResponseShape,
        now: Timestamp,
    ) -> (chunk: Vec<u8>)
        requires
            in_calendar(now),
        ensures
            (final(self)@, chunk@) == consumed(old(self)@, event_bytes@, shape, now),
    {
        let event: SseEvent = parse_event_bytes(event_bytes);
        if let Some(data) = &event.data {
            if let Some(json) = parse_json(data.as_str()) {
                return self.note_event_at(borrowed(&event.name), &json, event_bytes, shape, now);
            }
        }
        let whole: Vec<u8> = copy_bytes(event_bytes, 0, event_bytes.len());
        assert(whole@ =~= event_bytes@);
        whole
    }

    /// Passes on every complete event of the buffer.
    fn consume_buffered_events_at(
        &mut self,
        shape: ResponseShape,
        output: &mut VecDeque<Vec<u8>>,
        now: Timestamp,
    )
        requires
            in_calendar(now),
        ensures
            final(self)@ == drained(old(self)@, shape, now).0,
            chunks(final(output)@) == chunks(old(output)@) + drained(old(self)@, shape, now).1,
    {
        let ghost total = drained(old(self)@, shape, now);
        assert(chunks(output@) + total.1 =~= chunks(old(output)@) + total.1);
        loop
            invariant
                in_calendar(now),
                total == drained(old(self)@, shape, now),
                total.0 == drained(self@, shape, now).0,
                chunks(old(output)@) + total.1 == chunks(output@) + drained(self@, shape, now).1,
            decreases self.buffer.len(),
        {
            let end: usize = match find_sse_event_end(self.buffer.as_slice()) {
                Some(end) => end,
                None => {
                    assert(chunks(output@) + Seq::<Seq<u8>>::empty() =~= chunks(output@));
                    return;
                },
            };
            let ghost before = self@;
            let ghost sent = chunks(output@);
            let event_bytes: Vec<u8> = copy_bytes(self.buffer.as_slice(), 0, end);
            let rest: Vec<u8> = copy_bytes(self.buffer.as_slice(), end, self.buffer.len());
            assert(event_bytes@ =~= before.buffer.take(end as int));
            assert(rest@ =~= before.buffer.skip(end as int));
            self.buffer = rest;
            assert(self@ == SseView { buffer: before.buffer.skip(end as int), ..before });
            let chunk: Vec<u8> = self.consume_event_at(event_bytes.as_slice(), shape, now);
            let ghost bytes = chunk@;
            output.push_back(chunk);
            assert(chunks(output@) =~= sent.push(bytes));
            if self.has_terminal_event() {
                self.buffer = Vec::new();
                assert(sent + seq![bytes] =~= chunks(output@));
                return;
            }
            proof {
                let more = drained(self@, shape, now).1;
                assert(sent + (seq![bytes] + more) =~= chunks(output@) + more);
            }
        }
    }

    /// Adds bytes to a beginning that waits, until they decide whether it begins a field of an
    /// event; says how many were taken.
    fn resolve_pending_line_start(&mut self, bytes: &[u8], output: &mut VecDeque<Vec<u8>>) -> (taken:
        usize)
        requires
            bytes.len() > 0,
            !old(self).sse_mode,
        ensures
            taken <= bytes.len(),
            taken == deciding(old(self)@.buffer, bytes@, 0),
            ({
                let front = old(self)@.buffer + bytes@.take(taken as int);
                match line_match(front) {
                    SseLineStartMatch::Full => final(self)@ == (SseView {
                        sse_mode: true,
                        buffer: front,
                        ..old(self)@
                    }) && final(output)@ == old(output)@,
                    SseLineStartMatch::Partial => taken == bytes.len() && final(self)@ == (SseView {
                        buffer: front,
                        ..old(self)@
                    }) && final(output)@ == old(output)@,
                    SseLineStartMatch::Unmatched => final(self)@ == (SseView {
                        buffer: Seq::empty(),
                        line_start: starts_line(old(self)@.line_start, front),
                        ..old(self)@
                    }) && chunks(final(output)@) == chunks(old(output)@).push(front),
                }
            }),
    {
        let ghost start = self@.buffer;
        let total: usize = bytes.len();
        let mut taken: usize = 0;
        assert(start + bytes@.take(0) =~= start);
        while taken < total
            invariant
                taken <= total == bytes.len(),
                total > 0,
                !self.sse_mode,
                start == old(self)@.buffer,
                self@ == (SseView { buffer: start + bytes@.take(taken as int), ..old(self)@ }),
                output@ == old(output)@,
                deciding(start, bytes@, 0) == deciding(start, bytes@, taken as int),
                taken > 0 ==> line_match(start + bytes@.take(taken as int))
                    == SseLineStartMatch::Partial,
            decreases total - taken,
        {
            self.buffer.push(bytes[taken]);
            assert(start + bytes@.take(taken + 1) =~= (start + bytes@.take(taken as int)).push(
                bytes@[taken as int],
            ));
            taken = taken + 1;
            assert(self.buffer@.skip(0) =~= self.buffer@);
            match match_line_start(self.buffer.as_slice(), 0) {
                SseLineStartMatch::Full => {
                    self.sse_mode = true;
                    return taken;
                },
                SseLineStartMatch::Partial => {},
                SseLineStartMatch::Unmatched => {
                    let passed: Vec<u8> = copy_bytes(
                        self.buffer.as_slice(),
                        0,
                        self.buffer.len(),
                    );
                    assert(passed@ =~= start + bytes@.take(taken as int));
                    self.line_start = line_start_after_bytes(self.line_start, passed.as_slice());
                    self.buffer = Vec::new();
                    let ghost sent = chunks(output@);
                    let ghost front = passed@;
                    output.push_back(passed);
                    assert(chunks(output@) =~= sent.push(front));
                    assert(self@.buffer =~= Seq::<u8>::empty());
                    return taken;
                },
            }
        }
        taken
    }

    /// Passes on what stands before the first event, and the events behind it.
    fn scan_bytes_at(
        &mut self,
        bytes: &[u8],
        from: usize,
        shape: ResponseShape,
        output: &mut VecDeque<Vec<u8>>,
        now: Timestamp,
    )
        requires
            in_calendar(now),
            from <= bytes.len(),
            !old(self).sse_mode,
            old(self).buffer.len() == 0,
        ensures
            ({
                let result = scanned(old(self)@, bytes@.skip(from as int), shape, now);
                final(self)@ == result.0 && chunks(final(output)@) == chunks(old(output)@)
                    + result.1
            }),
    {
        let ghost rest = bytes@.skip(from as int);
        let total: usize = bytes.len();
        let mut at: usize = from;
        let mut line_start: bool = self.line_start;
        let mut found: SseLineStartMatch = SseLineStartMatch::Unmatched;
        assert(rest.take(0) =~= Seq::<u8>::empty());
        while at < total
            invariant_except_break
                found == SseLineStartMatch::Unmatched,
            invariant
                from <= at <= total == bytes.len(),
                rest == bytes@.skip(from as int),
                line_start == starts_line(old(self)@.line_start, rest.take(at - from)),
                events_start(old(self)@.line_start, rest, 0) == events_start(
                    old(self)@.line_start,
                    rest,
                    at - from,
                ),
            ensures
                from <= at <= total,
                line_start == starts_line(old(self)@.line_start, rest.take(at - from)),
                events_start(old(self)@.line_start, rest, 0) == at - from,
                at < total ==> found == line_match(rest.skip(at - from)) && found
                    != SseLineStartMatch::Unmatched,
            decreases total - at,
        {
            if line_start {
                let here: SseLineStartMatch = match_line_start(bytes, at);
                assert(bytes@.skip(at as int) =~= rest.skip(at - from));
                if here != SseLineStartMatch::Unmatched {
                    found = here;
                    break;
                }
            }
            line_start = bytes[at] == 10;
            assert(rest.take(at + 1 - from).last() == bytes@[at as int]);
            at = at + 1;
        }
        let ghost sent = chunks(output@);
        if from < at {
            let passed: Vec<u8> = copy_bytes(bytes, from, at);
            assert(passed@ =~= rest.take(at - from));
            output.push_back(passed);
            assert(chunks(output@) =~= sent + seq![rest.take(at - from)]);
        } else {
            assert(chunks(output@) =~= sent + Seq::<Seq<u8>>::empty());
        }
        self.line_start = line_start;
        push_bytes(&mut self.buffer, bytes, at);
        assert(self.buffer@ =~= old(self)@.buffer + rest.skip(at - from));
        if at < total && found == SseLineStartMatch::Full {
            self.sse_mode = true;
            let ghost begun = self@;
            let ghost passed = chunks(output@);
            self.consume_buffered_events_at(shape, output, now);
            proof {
                let more = drained(begun, shape, now).1;
                if from < at {
                    assert(sent + seq![rest.take(at - from)] + more =~= sent + (seq![
                        rest.take(at - from),
                    ] + more));
                } else {
                    assert(sent + Seq::<Seq<u8>>::empty() + more =~= sent + (
                    Seq::<Seq<u8>>::empty() + more));
                }
            }
        }
    }

    /// Takes note of more bytes, and puts what is passed on behind `output`.
    pub fn observe_bytes_at(
        &mut self,
        bytes: &[u8],
        shape: ResponseShape,
        output: &mut VecDeque<Vec<u8>>,
        now: Timestamp,
    )
        requires
            in_calendar(now),
        ensures
            final(self)@ == observed(old(self)@, bytes@, shape, now).0,
            chunks(final(output)@) == chunks(old(output)@) + observed(
                old(self)@,
                bytes@,
                shape,
                now,
            ).1,
    {
        let ghost sent = chunks(output@);
        assert(sent + Seq::<Seq<u8>>::empty() =~= sent);
        if self.has_terminal_event() {
            return;
        }
        assert(bytes@.skip(0) =~= bytes@);
        if self.sse_mode {
            push_bytes(&mut self.buffer, bytes, 0);
            self.consume_buffered_events_at(shape, output, now);
            return;
        }
        if bytes.len() == 0 {
            return;
        }
        if self.buffer.len() == 0 {
            self.scan_bytes_at(bytes, 0, shape, output, now);
            return;
        }
        let taken: usize = self.resolve_pending_line_start(bytes, output);
        let ghost front = old(self)@.buffer + bytes@.take(taken as int);
        if self.sse_mode {
            push_bytes(&mut self.buffer, bytes, taken);
            assert(self.buffer@ =~= old(self)@.buffer + bytes@);
            self.consume_buffered_events_at(shape, output, now);
        } else if self.buffer.len() == 0 {
            let ghost passed = self@;
            self.scan_bytes_at(bytes, taken, shape, output, now);
            proof {
                let more = scanned(passed, bytes@.skip(taken as int), shape, now).1;
                assert(sent.push(front) + more =~= sent + (seq![front] + more));
            }
        }
    }

    /// Takes note of more bytes, and puts what is passed on behind `output`.
    pub fn observe_bytes(
        &mut self,
        bytes: &[u8],
        shape: ResponseShape,
        output: &mut VecDeque<Vec<u8>>,
    )
        ensures
            exists|now: Timestamp| #[trigger]
                in_calendar(now) && final(self)@ == observed(old(self)@, bytes@, shape, now).0
                    && chunks(final(output)@) == chunks(old(output)@) + observed(
                    old(self)@,
                    bytes@,
                    shape,
                    now,
                ).1,
    {
        let now: Timestamp = utc_now();
        self.observe_bytes_at(bytes, shape, output, now);
    }

    /// Takes note of the end of the stream: a last event may lack the empty line behind it.
    pub fn observe_eof_at(
        &mut self,
        shape: ResponseShape,
        output: &mut VecDeque<Vec<u8>>,
        now: Timestamp,
    )
        requires
            in_calendar(now),
        ensures
            final(self)@ == ended(old(self)@, shape, now).0,
            chunks(final(output)@) == chunks(old(output)@) + ended(old(self)@, shape, now).1,
    {
        let ghost sent = chunks(output@);
        assert(sent + Seq::<Seq<u8>>::empty() =~= sent);
        let total: usize = self.buffer.len();
        if self.has_terminal_event() || !self.sse_mode || total == 0 || self.buffer[total - 1]
            != 10 {
            return;
        }
        let event_bytes: Vec<u8> = copy_bytes(self.buffer.as_slice(), 0, total);
        assert(event_bytes@ =~= self.buffer@);
        self.buffer = Vec::new();
        assert(self@ == SseView { buffer: Seq::empty(), ..old(self)@ });
        let chunk: Vec<u8> = self.consume_event_at(event_bytes.as_slice(), shape, now);
        let ghost bytes = chunk@;
        output.push_back(chunk);
        assert(chunks(output@) =~= sent + seq![bytes]);
    }

    /// Takes the bytes that wait for more, where they are to be passed on as they are.
    pub fn take_terminal_passthrough_bytes(&mut self) -> (bytes: Option<Vec<u8>>)
        ensures
            (match bytes {
                Some(bytes) => Some(bytes@),
                None => None,
            }) == leftover(old(self)@),
            final(self)@ == (SseView { buffer: Seq::empty(), ..old(self)@ }),
    {
        let total: usize = self.buffer.len();
        assert(self.buffer@.skip(0) =~= self.buffer@);
        if total == 0 {
            assert(self.buffer@ =~= Seq::<u8>::empty());
            return None;
        }
        let keep: bool = !self.sse_mode && match_line_start(self.buffer.as_slice(), 0)
            != SseLineStartMatch::Partial;
        let bytes: Vec<u8> = copy_bytes(self.buffer.as_slice(), 0, total);
        assert(bytes@ =~= self.buffer@);
        self.buffer = Vec::new();
        assert(self.buffer@ =~= Seq::<u8>::empty());
        if keep {
            Some(bytes)
        } else {
            None
        }
    }

    /// The event that tells a client of a failure which the upstream did not tell of.
    pub fn synthetic_error_event_with_payload_at(
        &self,
        shape: ResponseShape,
        payload: &SyntheticResponseFailedPayload,
        now: Timestamp,
    ) -> (bytes: Vec<u8>)
        requires
            in_calendar(now),
        ensures
            bytes@ == synthetic(self@, shape, payload@, now),
    {
        let number: i64 = next_sequence_number(self.last_sequence_number);
        match shape {
            ResponseShape::Codex => {
                let event: Json = synthetic_response_failed_json_at(
                    borrowed(&self.last_response_id),
                    number,
                    payload,
                    now,
                );
                render_sse_event_bytes("response.failed", &event)
            },
            ResponseShape::OpenAi => render_openai_stream_error_event_with_sequence(
                number,
                payload,
            ),
        }
    }

    /// The event that tells a client that the stream broke off. `text` is what is shown of an error
    /// without an answer, and `delay` when to try again.
    pub fn synthetic_transport_error_event_at(
        &self,
        shape: ResponseShape,
        error: &TransportError,
        text: &str,
        delay: Option<Delay>,
        now: Timestamp,
    ) -> (bytes: Vec<u8>)
        requires
            in_calendar(now),
            tellable(delay),
        ensures
            bytes@ == synthetic(self@, shape, told_error(*error, text@, delay), now),
    {
        let http: bool = match error {
            TransportError::Http { .. } => true,
            _ => false,
        };
        let payload: SyntheticResponseFailedPayload = if http && downstream_failure_kind(
            classify_request_error(error),
        ) == DownstreamFailureKind::GatewayUnavailable {
            gateway_unavailable_payload()
        } else {
            synthetic_response_failed_payload_from_transport(error, text, delay)
        };
        self.synthetic_error_event_with_payload_at(shape, &payload, now)
    }

    /// The event that tells a client of a failed request. `text` is what is shown of an error
    /// without an answer, and `hinted` the delay that an answer names in words.
    pub fn synthetic_failed_event(
        &self,
        error: &TransportError,
        text: &str,
        hinted: Option<Delay>,
    ) -> (bytes: Vec<u8>)
        requires
            tellable(hinted),
        ensures
            exists|now: Timestamp| #[trigger]
                in_calendar(now) && bytes@ == synthetic(
                    self@,
                    ResponseShape::Codex,
                    transport_payload(*error, text@, delay_of(error_retry(*error, now), hinted)),
                    now,
                ),
    {
        let now: Timestamp = utc_now();
        let delay: Option<Delay> = error_delay_at(error, hinted, now);
        let payload: SyntheticResponseFailedPayload =
            synthetic_response_failed_payload_from_transport(error, text, delay);
        self.synthetic_error_event_with_payload_at(ResponseShape::Codex, &payload, now)
    }
}

/// What is known at the end of a stream, and the chunks that are passed on.
pub open spec fn ended(state: SseView, shape: ResponseShape, now: Timestamp) -> (
    SseView,
    Seq<Seq<u8>>,
) {
    if state.terminal is Some || !state.sse_mode || state.buffer.len() == 0 || state.buffer.last()
        != 10 {
        (state, Seq::empty())
    } else {
        let (after, chunk) = consumed(
            SseView { buffer: Seq::empty(), ..state },
            state.buffer,
            shape,
            now,
        );
        (after, seq![chunk])
    }
}

/// The bytes that wait for more and are passed on as they are where the stream breaks off: those of
/// no event.
pub open spec fn leftover(state: SseView) -> Option<Seq<u8>> {
    if state.buffer.len() == 0 || state.sse_mode || line_match(state.buffer)
        == SseLineStartMatch::Partial {
        None
    } else {
        Some(state.buffer)
    }
}

/// The event that tells a client of a failure which the upstream did not tell of.
pub open spec fn synthetic(
    state: SseView,
    shape: ResponseShape,
    payload: PayloadView,
    now: Timestamp,
) -> Seq<u8> {
    match shape {
        ResponseShape::Codex => sse_bytes(
            "response.failed"@,
            failed_event(
                state.last_response_id,
                next_sequence(state.last_sequence_number),
                payload,
                now,
            ),
        ),
        ResponseShape::OpenAi => sse_bytes(
            "error"@,
            error_event(next_sequence(state.last_sequence_number), payload),
        ),
    }
}

/// What a client is told where a stream breaks off.
pub open spec fn told_error(error: TransportError, text: Seq<char>, delay: Option<Delay>) -> PayloadView {
    if error is Http && failure_kind(transport_class(error))
        == DownstreamFailureKind::GatewayUnavailable {
        unavailable()
    } else {
        transport_payload(error, text, delay)
    }
}

}
