//! A response that is streamed to a client, and what it does to the account that serves it.
use crate::classifier::{classify_request_error, transport_class, FailureClass, TransportError};
use crate::error_semantics::{delay_of, PayloadView, RetryAfter, RetryView};
use crate::failover::{
    extract_failure_reason, failure_reason, optional_settlement, AccountSettlement, SettlementView,
};
use crate::models::ResponseShape;
use crate::responses::failure::{
    error_delay_at, error_retry, extract_retry_after_at, tellable, SyntheticResponseFailedPayload,
};
use crate::responses::stream::{
    chunks, ended, fresh, leftover, observed, synthetic, told_error, ResponsesSseState, SseView,
};
use crate::time::{in_calendar, utc_now, Delay, Timestamp};
use std::collections::VecDeque;
use vstd::prelude::*;

verus! {

/// A response that is streamed to a client.
pub struct ManagedResponseStream {
    pub settled: bool,
    pub response_shape: ResponseShape,
    pub sse_state: ResponsesSseState,
    pub pending_output: VecDeque<Vec<u8>>,
    pub close_after_pending_output: bool,
}

/// The model of such a response.
pub struct ManagedView {
    /// Was the account told how the response ended?
    pub settled: bool,
    pub shape: ResponseShape,
    pub sse: SseView,
    /// The chunks that wait to be passed on.
    pub pending: Seq<Seq<u8>>,
    /// Does the stream end once they are passed on?
    pub closing: bool,
}

impl View for ManagedResponseStream {
    type V = ManagedView;

    open spec fn view(&self) -> ManagedView {
        ManagedView {
            settled: self.settled,
            shape: self.response_shape,
            sse: self.sse_state@,
            pending: chunks(self.pending_output@),
            closing: self.close_after_pending_output,
        }
    }
}

/// What a client gets next: a chunk, the end, or nothing before the upstream sends more.
#[derive(Debug, Clone, PartialEq, Eq)]
pub enum StreamStep {
    Chunk(Vec<u8>),
    End,
    Wait,
}

/// The model of such a step.
pub enum StepView {
    Chunk(Seq<u8>),
    End,
    Wait,
}

impl View for StreamStep {
    type V = StepView;

    open spec fn view(&self) -> StepView {
        match *self {
            StreamStep::Chunk(bytes) => StepView::Chunk(bytes@),
            StreamStep::End => StepView::End,
            StreamStep::Wait => StepView::Wait,
        }
    }
}

/// What follows from something that happened: what the account is told, and what the client gets.
#[derive(Debug, Clone, PartialEq, Eq)]
pub struct StreamReaction {
    pub settlement: Option<AccountSettlement>,
    pub step: StreamStep,
}

/// The model of a reaction, with the response after it.
pub struct ReactionView {
    pub stream: ManagedView,
    pub settlement: Option<SettlementView>,
    pub step: StepView,
}

/// The first chunk that waits; where none does, another step.
pub open spec fn next_or(stream: ManagedView, other: StepView) -> (ManagedView, StepView) {
    if stream.pending.len() > 0 {
        (
            ManagedView { pending: stream.pending.skip(1), ..stream },
            StepView::Chunk(stream.pending[0]),
        )
    } else {
        (stream, other)
    }
}

/// What the client gets before the upstream is asked for more.
pub open spec fn polled(stream: ManagedView) -> ReactionView {
    let (after, step) = next_or(
        stream,
        if stream.closing {
            StepView::End
        } else {
            StepView::Wait
        },
    );
    ReactionView { stream: after, settlement: None, step }
}

/// The account is told once, and not again.
pub open spec fn told(stream: ManagedView, settlement: SettlementView) -> Option<SettlementView> {
    if stream.settled {
        None
    } else {
        Some(settlement)
    }
}

/// The gateway shuts down.
pub open spec fn shut_down(stream: ManagedView) -> ReactionView {
    ReactionView {
        stream: ManagedView { settled: true, ..stream },
        settlement: told(stream, SettlementView::Release),
        step: StepView::End,
    }
}

/// The upstream sends bytes.
pub open spec fn received(stream: ManagedView, bytes: Seq<u8>, now: Timestamp) -> ReactionView {
    let (sse, more) = observed(stream.sse, bytes, stream.shape, now);
    let over = sse.terminal is Some;
    let (after, step) = next_or(
        ManagedView {
            sse,
            pending: stream.pending + more,
            settled: stream.settled || over,
            closing: stream.closing || over,
            ..stream
        },
        if over {
            StepView::End
        } else {
            StepView::Wait
        },
    );
    ReactionView {
        stream: after,
        settlement: if over {
            told(stream, sse.terminal->0)
        } else {
            None
        },
        step,
    }
}

/// The chunks that wait where a stream breaks off: bytes of no event, and an event that tells of
/// the failure.
pub open spec fn broken_off(stream: ManagedView, payload: PayloadView, now: Timestamp) -> Seq<
    Seq<u8>,
> {
    let kept = match leftover(stream.sse) {
        Some(bytes) => stream.pending.push(bytes),
        None => stream.pending,
    };
    kept.push(
        synthetic(
            SseView { buffer: Seq::empty(), ..stream.sse },
            stream.shape,
            payload,
            now,
        ),
    )
}

/// The upstream fails. After the end of the response that counts for nothing.
pub open spec fn failed(
    stream: ManagedView,
    error: TransportError,
    text: Seq<char>,
    retry_after: Option<RetryView>,
    delay: Option<Delay>,
    now: Timestamp,
) -> ReactionView {
    if stream.sse.terminal is Some {
        ReactionView { stream, settlement: None, step: StepView::End }
    } else {
        let (after, step) = next_or(
            ManagedView {
                settled: true,
                closing: true,
                sse: SseView { buffer: Seq::empty(), ..stream.sse },
                pending: broken_off(stream, told_error(error, text, delay), now),
                ..stream
            },
            StepView::End,
        );
        ReactionView {
            stream: after,
            settlement: told(
                stream,
                SettlementView::Failure {
                    failure: transport_class(error),
                    retry_after,
                    details: failure_reason(error, transport_class(error), text),
                },
            ),
            step,
        }
    }
}

/// What is said of a stream that ends before its response does.
pub open spec fn early_end() -> Seq<char> {
    "stream closed before response.completed"@
}

/// The failure that a stream which ends early means for a client.
pub open spec fn early_end_payload() -> PayloadView {
    PayloadView {
        code: Some("internal_server_error"@),
        message: Some(early_end()),
        error_type: None,
        plan_type: None,
        resets_at: None,
        resets_in_seconds: None,
    }
}

/// The upstream ends the stream.
pub open spec fn finished(stream: ManagedView, now: Timestamp) -> ReactionView {
    let (sse, more) = ended(stream.sse, stream.shape, now);
    let seen = ManagedView { sse, pending: stream.pending + more, ..stream };
    if sse.terminal is Some {
        let (after, step) = next_or(
            ManagedView { settled: true, closing: true, ..seen },
            StepView::End,
        );
        ReactionView { stream: after, settlement: told(stream, sse.terminal->0), step }
    } else {
        let (after, step) = next_or(
            ManagedView {
                settled: true,
                closing: true,
                sse: SseView { buffer: Seq::empty(), ..sse },
                pending: broken_off(seen, early_end_payload(), now),
                ..seen
            },
            StepView::End,
        );
        ReactionView {
            stream: after,
            settlement: told(
                stream,
                SettlementView::Failure {
                    failure: FailureClass::TemporaryFailure,
                    retry_after: None,
                    details: early_end(),
                },
            ),
            step,
        }
    }
}

/// The client goes away.
pub open spec fn dropped(stream: ManagedView) -> ReactionView {
    ReactionView {
        stream: ManagedView { settled: true, ..stream },
        settlement: told(
            stream,
            match stream.sse.terminal {
                Some(settlement) => settlement,
                None => SettlementView::Release,
            },
        ),
        step: StepView::End,
    }
}

impl ManagedResponseStream {
    /// A response of which nothing was sent yet.
    pub fn new(response_shape: ResponseShape) -> (stream: Self)
        ensures
            stream@ == (ManagedView {
                settled: false,
                shape: response_shape,
                sse: fresh(None, None),
                pending: Seq::empty(),
                closing: false,
            }),
    {
        let stream: ManagedResponseStream = ManagedResponseStream {
            settled: false,
            response_shape,
            sse_state: ResponsesSseState::default(),
            pending_output: VecDeque::new(),
            close_after_pending_output: false,
        };
        assert(stream@.pending =~= Seq::<Seq<u8>>::empty());
        stream
    }

    fn settle(&mut self, settlement: AccountSettlement) -> (told_now: Option<AccountSettlement>)
        ensures
            optional_settlement(told_now) == told(old(self)@, settlement@),
            final(self)@ == (ManagedView { settled: true, ..old(self)@ }),
    {
        if self.settled {
            None
        } else {
            self.settled = true;
            Some(settlement)
        }
    }

    fn push_chunk(&mut self, chunk: Vec<u8>)
        ensures
            final(self)@ == (ManagedView {
                pending: old(self)@.pending.push(chunk@),
                ..old(self)@
            }),
    {
        let ghost before = self@.pending;
        let ghost bytes = chunk@;
        self.pending_output.push_back(chunk);
        assert(self@.pending =~= before.push(bytes));
    }

    fn next_chunk_or(&mut self, other: StreamStep) -> (step: StreamStep)
        ensures
            (final(self)@, step@) == next_or(old(self)@, other@),
    {
        let ghost before = self@;
        match self.pending_output.pop_front() {
            Some(chunk) => {
                assert(self@.pending =~= before.pending.skip(1));
                StreamStep::Chunk(chunk)
            },
            None => other,
        }
    }

    /// What the client gets before the upstream is asked for more.
    pub fn poll_pending(&mut self) -> (step: StreamStep)
        ensures
            final(self)@ == polled(old(self)@).stream,
            step@ == polled(old(self)@).step,
    {
        if self.close_after_pending_output {
            self.next_chunk_or(StreamStep::End)
        } else {
            self.next_chunk_or(StreamStep::Wait)
        }
    }

    /// The gateway shuts down.
    pub fn on_shutdown(&mut self) -> (reaction: StreamReaction)
        ensures
            final(self)@ == shut_down(old(self)@).stream,
            optional_settlement(reaction.settlement) == shut_down(old(self)@).settlement,
            reaction.step@ == StepView::End,
    {
        let settlement: Option<AccountSettlement> = self.settle(AccountSettlement::Release);
        StreamReaction { settlement, step: StreamStep::End }
    }

    /// The upstream sends bytes.
    pub fn on_bytes_at(&mut self, bytes: &[u8], now: Timestamp) -> (reaction: StreamReaction)
        requires
            in_calendar(now),
        ensures
            ({
                let result = received(old(self)@, bytes@, now);
                &&& final(self)@ == result.stream
                &&& optional_settlement(reaction.settlement) == result.settlement
                &&& reaction.step@ == result.step
            }),
    {
        let shape: ResponseShape = self.response_shape;
        self.sse_state.observe_bytes_at(bytes, shape, &mut self.pending_output, now);
        let mut settlement: Option<AccountSettlement> = None;
        let mut other: StreamStep = StreamStep::Wait;
        if let Some(action) = self.sse_state.terminal_action() {
            settlement = self.settle(action);
            self.close_after_pending_output = true;
            other = StreamStep::End;
        }
        let step: StreamStep = self.next_chunk_or(other);
        StreamReaction { settlement, step }
    }

    /// The upstream sends bytes.
    pub fn on_bytes(&mut self, bytes: &[u8]) -> (reaction: StreamReaction)
        ensures
            exists|now: Timestamp|
                {
                    let result = received(old(self)@, bytes@, now);
                    &&& #[trigger] in_calendar(now)
                    &&& final(self)@ == result.stream
                    &&& optional_settlement(reaction.settlement) == result.settlement
                    &&& reaction.step@ == result.step
                },
    {
        let now: Timestamp = utc_now();
        self.on_bytes_at(bytes, now)
    }

    fn push_leftover(&mut self)
        ensures
            final(self)@ == (ManagedView {
                sse: SseView { buffer: Seq::empty(), ..old(self)@.sse },
                pending: match leftover(old(self)@.sse) {
                    Some(bytes) => old(self)@.pending.push(bytes),
                    None => old(self)@.pending,
                },
                ..old(self)@
            }),
    {
        if let Some(bytes) = self.sse_state.take_terminal_passthrough_bytes() {
            self.push_chunk(bytes);
        }
    }

    /// The upstream fails. `text` is what is shown of an error without an answer, and `hinted` the
    /// delay that an answer names in words.
    pub fn on_error_at(
        &mut self,
        error: &TransportError,
        text: &str,
        hinted: Option<Delay>,
        now: Timestamp,
    ) -> (reaction: StreamReaction)
        requires
            in_calendar(now),
            tellable(hinted),
        ensures
            ({
                let retry_after = error_retry(*error, now);
                let result = failed(
                    old(self)@,
                    *error,
                    text@,
                    retry_after,
                    delay_of(retry_after, hinted),
                    now,
                );
                &&& final(self)@ == result.stream
                &&& optional_settlement(reaction.settlement) == result.settlement
                &&& reaction.step@ == result.step
            }),
    {
        if self.sse_state.has_terminal_event() {
            return StreamReaction { settlement: None, step: StreamStep::End };
        }
        self.push_leftover();
        let failure: FailureClass = classify_request_error(error);
        let details: String = extract_failure_reason(error, failure, text);
        let retry_after: Option<RetryAfter> = extract_retry_after_at(error, now);
        let delay: Option<Delay> = error_delay_at(error, hinted, now);
        let chunk: Vec<u8> = self.sse_state.synthetic_transport_error_event_at(
            self.response_shape,
            error,
            text,
            delay,
            now,
        );
        let settlement: Option<AccountSettlement> = self.settle(
            AccountSettlement::Failure { failure, retry_after, details },
        );
        self.push_chunk(chunk);
        self.close_after_pending_output = true;
        let step: StreamStep = self.next_chunk_or(StreamStep::End);
        StreamReaction { settlement, step }
    }

    /// The upstream fails.
    pub fn on_error(
        &mut self,
        error: &TransportError,
        text: &str,
        hinted: Option<Delay>,
    ) -> (reaction: StreamReaction)
        requires
            tellable(hinted),
        ensures
            exists|now: Timestamp|
                {
                    let retry_after = error_retry(*error, now);
                    let result = failed(
                        old(self)@,
                        *error,
                        text@,
                        retry_after,
                        delay_of(retry_after, hinted),
                        now,
                    );
                    &&& #[trigger] in_calendar(now)
                    &&& final(self)@ == result.stream
                    &&& optional_settlement(reaction.settlement) == result.settlement
                    &&& reaction.step@ == result.step
                },
    {
        let now: Timestamp = utc_now();
        self.on_error_at(error, text, hinted, now)
    }

    /// The upstream ends the stream.
    pub fn on_end_at(&mut self, now: Timestamp) -> (reaction: StreamReaction)
        requires
            in_calendar(now),
        ensures
            ({
                let result = finished(old(self)@, now);
                &&& final(self)@ == result.stream
                &&& optional_settlement(reaction.settlement) == result.settlement
                &&& reaction.step@ == result.step
            }),
    {
        let shape: ResponseShape = self.response_shape;
        self.sse_state.observe_eof_at(shape, &mut self.pending_output, now);
        let settlement: Option<AccountSettlement> = match self.sse_state.terminal_action() {
            Some(action) => self.settle(action),
            None => {
                let settlement: Option<AccountSettlement> = self.settle(
                    AccountSettlement::Failure {
                        failure: FailureClass::TemporaryFailure,
                        retry_after: None,
                        details: "stream closed before response.completed".to_owned(),
                    },
                );
                self.push_leftover();
                let payload: SyntheticResponseFailedPayload = SyntheticResponseFailedPayload {
                    code: Some("internal_server_error".to_owned()),
                    message: Some("stream closed before response.completed".to_owned()),
                    error_type: None,
                    plan_type: None,
                    resets_at: None,
                    resets_in_seconds: None,
                };
                let chunk: Vec<u8> = self.sse_state.synthetic_error_event_with_payload_at(
                    shape,
                    &payload,
                    now,
                );
                self.push_chunk(chunk);
                settlement
            },
        };
        self.close_after_pending_output = true;
        let step: StreamStep = self.next_chunk_or(StreamStep::End);
        StreamReaction { settlement, step }
    }

    /// The upstream ends the stream.
    pub fn on_end(&mut self) -> (reaction: StreamReaction)
        ensures
            exists|now: Timestamp|
                {
                    let result = finished(old(self)@, now);
                    &&& #[trigger] in_calendar(now)
                    &&& final(self)@ == result.stream
                    &&& optional_settlement(reaction.settlement) == result.settlement
                    &&& reaction.step@ == result.step
                },
    {
        let now: Timestamp = utc_now();
        self.on_end_at(now)
    }

    /// The client goes away.
    pub fn on_drop(&mut self) -> (settlement: Option<AccountSettlement>)
        ensures
            final(self)@ == dropped(old(self)@).stream,
            optional_settlement(settlement) == dropped(old(self)@).settlement,
    {
        match self.sse_state.terminal_action() {
            Some(action) => self.settle(action),
            None => self.settle(AccountSettlement::Release),
        }
    }
}

/// Something that happens to a response.
pub enum StreamInput {
    Polled,
    Shutdown,
    Bytes(Seq<u8>),
    Error {
        error: TransportError,
        text: Seq<char>,
        retry_after: Option<RetryView>,
        delay: Option<Delay>,
    },
    Finished,
    Dropped,
}

/// What follows from something that happens.
pub open spec fn reaction_to(stream: ManagedView, input: StreamInput, now: Timestamp) -> ReactionView {
    match input {
        StreamInput::Polled => polled(stream),
        StreamInput::Shutdown => shut_down(stream),
        StreamInput::Bytes(bytes) => received(stream, bytes, now),
        StreamInput::Error { error, text, retry_after, delay } => failed(
            stream,
            error,
            text,
            retry_after,
            delay,
            now,
        ),
        StreamInput::Finished => finished(stream, now),
        StreamInput::Dropped => dropped(stream),
    }
}

/// How often the account is told while these things happen one after the other.
pub open spec fn times_told(stream: ManagedView, inputs: Seq<(StreamInput, Timestamp)>) -> nat
    decreases inputs.len(),
{
    if inputs.len() == 0 {
        0
    } else {
        let reaction = reaction_to(stream, inputs[0].0, inputs[0].1);
        let rest = times_told(reaction.stream, inputs.skip(1));
        if reaction.settlement is Some {
            rest + 1
        } else {
            rest
        }
    }
}

/// Whatever happens, an account is told at most once how its response ended.
pub proof fn settled_at_most_once(stream: ManagedView, inputs: Seq<(StreamInput, Timestamp)>)
    ensures
        times_told(stream, inputs) <= 1,
        stream.settled ==> times_told(stream, inputs) == 0,
    decreases inputs.len(),
{
    if inputs.len() > 0 {
        let reaction = reaction_to(stream, inputs[0].0, inputs[0].1);
        settled_at_most_once(reaction.stream, inputs.skip(1));
    }
}

/// Whatever happened before, an account was told once how its response ended when the client has
/// gone away.
pub proof fn settled_in_the_end(
    stream: ManagedView,
    inputs: Seq<(StreamInput, Timestamp)>,
    now: Timestamp,
)
    requires
        !stream.settled,
    ensures
        times_told(stream, inputs.push((StreamInput::Dropped, now))) == 1,
    decreases inputs.len(),
{
    let all = inputs.push((StreamInput::Dropped, now));
    if inputs.len() == 0 {
        assert(times_told(dropped(stream).stream, all.skip(1)) == 0);
    } else {
        let reaction = reaction_to(stream, inputs[0].0, inputs[0].1);
        assert(all.skip(1) =~= inputs.skip(1).push((StreamInput::Dropped, now)));
        if reaction.stream.settled {
            settled_at_most_once(reaction.stream, all.skip(1));
        } else {
            settled_in_the_end(reaction.stream, inputs.skip(1), now);
        }
    }
}

/// Once a response has ended, more bytes change nothing of what is known of it and add nothing to
/// what is passed on.
pub proof fn nothing_follows_the_end(stream: ManagedView, bytes: Seq<u8>, now: Timestamp)
    requires
        stream.sse.terminal is Some,
    ensures
        received(stream, bytes, now).stream.sse == stream.sse,
        received(stream, bytes, now).step == next_or(stream, StepView::End).1,
{
    assert(stream.pending + Seq::<Seq<u8>>::empty() =~= stream.pending);
}

}
