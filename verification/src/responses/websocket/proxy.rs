//! What the gateway does while it passes messages between a client and an upstream websocket.
use crate::classifier::FailureClass;
use crate::config::FingerprintMode;
use crate::failover::{
    insert_account, should_failover_failure_class, texts, with_account, worth_another,
    AccountSettlement, SettlementView,
};
use crate::json::optional_text;
use crate::models::ModelsSnapshot;
use crate::responses::websocket::errors::{classify_websocket_upstream_message_at, message_outcome};
use crate::responses::websocket::protocol::{
    asks_to_reconnect, begins_request, carries_content, commits, is_last,
    is_responses_websocket_request_start, known_settlement_from_upstream_message,
    map_client_message_to_upstream, message_kind, normalize_response_create_message,
    normalize_websocket_rate_limit_message, outgoing, reconnecting,
    rewrite_previous_response_not_found_message, sendable,
    should_buffer_upstream_message_before_commit, should_passthrough_retryable_websocket_reset,
    should_replay_client_message, upstream_message_commits_request, upstream_message_is_terminal,
    without_limits,
};
use crate::responses::websocket::{
    copy_message, copy_outcome, optional_outcome, outcome_after_client_delivery_failure,
    terminal_outcome_after_successful_delivery, MessageView, OutcomeView, WebsocketMessage,
    WebsocketProxyOutcome,
};
use crate::time::{in_calendar, utc_now, Timestamp};
use vstd::prelude::*;

verus! {

/// A request whose response has not ended.
#[derive(Debug)]
pub struct PendingWebsocketRequest {
    /// What the client sent of it.
    pub request_messages: Vec<WebsocketMessage>,
    /// What the upstream sent before the response began.
    pub buffered_upstream_messages: Vec<WebsocketMessage>,
    /// The accounts that failed.
    pub tried_accounts: Vec<String>,
    /// Has the response begun?
    pub committed: bool,
}

/// The model of such a request.
pub struct PendingView {
    pub requests: Seq<MessageView>,
    pub buffered: Seq<MessageView>,
    pub tried: Seq<Seq<char>>,
    pub committed: bool,
}

/// The models of some messages.
pub open spec fn messages_view(messages: Seq<WebsocketMessage>) -> Seq<MessageView> {
    Seq::new(messages.len(), |i: int| messages[i]@)
}

impl View for PendingWebsocketRequest {
    type V = PendingView;

    open spec fn view(&self) -> PendingView {
        PendingView {
            requests: messages_view(self.request_messages@),
            buffered: messages_view(self.buffered_upstream_messages@),
            tried: texts(self.tried_accounts@),
            committed: self.committed,
        }
    }
}

/// A request of which nothing was sent yet.
pub open spec fn no_request() -> PendingView {
    PendingView {
        requests: Seq::empty(),
        buffered: Seq::empty(),
        tried: Seq::empty(),
        committed: false,
    }
}

impl Default for PendingWebsocketRequest {
    /// A request of which nothing was sent yet.
    fn default() -> (request: Self)
        ensures
            request@ == no_request(),
    {
        let request: PendingWebsocketRequest = PendingWebsocketRequest {
            request_messages: Vec::new(),
            buffered_upstream_messages: Vec::new(),
            tried_accounts: Vec::new(),
            committed: false,
        };
        assert(request@.requests =~= Seq::<MessageView>::empty());
        assert(request@.buffered =~= Seq::<MessageView>::empty());
        assert(request@.tried =~= Seq::<Seq<char>>::empty());
        request
    }
}

/// The model of a request, where there is one.
pub open spec fn pending_view(pending: Option<PendingWebsocketRequest>) -> Option<PendingView> {
    match pending {
        Some(pending) => Some(pending@),
        None => None,
    }
}

/// Could another account take the request over?
pub open spec fn open_to_retry(pending: Option<PendingView>) -> bool {
    pending is Some && !pending->0.committed
}

fn is_open_to_retry(pending: &Option<PendingWebsocketRequest>) -> (open: bool)
    ensures
        open == open_to_retry(pending_view(*pending)),
{
    match pending {
        Some(pending) => !pending.committed,
        None => false,
    }
}

/// The request after a message of the client: a new one where the message begins one, with the
/// message noted as long as another account could take the request over.
pub open spec fn after_client_message(pending: Option<PendingView>, message: MessageView) -> Option<
    PendingView,
> {
    let begun = if begins_request(message) {
        Some(no_request())
    } else {
        pending
    };
    match begun {
        Some(request) => if !request.committed && carries_content(message) {
            Some(PendingView { requests: request.requests.push(message), ..request })
        } else {
            Some(request)
        },
        None => None,
    }
}

/// What is to be done with a message of a client.
#[derive(Debug)]
pub struct ClientPlan {
    /// The message as it goes to the upstream.
    pub message: WebsocketMessage,
    /// Is it the last one?
    pub closes: bool,
}

fn note_client_message(pending: &mut Option<PendingWebsocketRequest>, message: &WebsocketMessage)
    ensures
        pending_view(*final(pending)) == after_client_message(pending_view(*old(pending)), message@),
{
    let mut request: PendingWebsocketRequest = if is_responses_websocket_request_start(message) {
        PendingWebsocketRequest::default()
    } else {
        match pending.take() {
            Some(request) => request,
            None => {
                return;
            },
        }
    };
    if !request.committed && should_replay_client_message(message) {
        let ghost before = request@.requests;
        request.request_messages.push(copy_message(message));
        assert(request@.requests =~= before.push(message@));
    }
    *pending = Some(request);
}

/// Takes note of a message of the client, and says what goes to the upstream.
pub fn on_client_message(
    pending: &mut Option<PendingWebsocketRequest>,
    message: WebsocketMessage,
    mode: FingerprintMode,
    codex_originator: bool,
    snapshot: Option<&ModelsSnapshot>,
    installation_id: Option<&str>,
) -> (plan: ClientPlan)
    ensures
        pending_view(*final(pending)) == after_client_message(
            pending_view(*old(pending)),
            sendable(message@),
        ),
        plan.message@ == outgoing(
            sendable(message@),
            mode,
            codex_originator,
            snapshot,
            optional_text(installation_id),
        ),
        plan.closes == message@ is Close,
{
    let closes: bool = match &message {
        WebsocketMessage::Close(_) => true,
        _ => false,
    };
    let mapped: WebsocketMessage = map_client_message_to_upstream(message);
    note_client_message(pending, &mapped);
    let sent: WebsocketMessage = normalize_response_create_message(
        mapped,
        mode,
        codex_originator,
        snapshot,
        installation_id,
    );
    ClientPlan { message: sent, closes }
}

/// What comes next.
#[derive(Debug)]
pub enum ProxyStep {
    /// The gateway waits for the next message.
    Continue,
    /// Another account takes the request over, after this failure.
    Retry(WebsocketProxyOutcome),
    /// The websocket is given up with this outcome.
    End(WebsocketProxyOutcome),
}

/// The model of what comes next.
pub enum ProxyStepView {
    Continue,
    Retry(OutcomeView),
    End(OutcomeView),
}

impl View for ProxyStep {
    type V = ProxyStepView;

    open spec fn view(&self) -> ProxyStepView {
        match *self {
            ProxyStep::Continue => ProxyStepView::Continue,
            ProxyStep::Retry(outcome) => ProxyStepView::Retry(outcome@),
            ProxyStep::End(outcome) => ProxyStepView::End(outcome@),
        }
    }
}

/// What is to be done: messages that go to the client in order, and what comes next once they are
/// there. Where one cannot be delivered, the websocket is given up with another outcome.
#[derive(Debug)]
pub struct ProxyPlan {
    pub deliver: Vec<WebsocketMessage>,
    pub on_delivery_failure: WebsocketProxyOutcome,
    pub next: ProxyStep,
}

/// The model of what is to be done, with the request after it.
pub struct PlanView {
    pub pending: Option<PendingView>,
    pub deliver: Seq<MessageView>,
    pub on_delivery_failure: OutcomeView,
    pub next: ProxyStepView,
}

/// Is this what is to be done?
pub open spec fn plans(
    pending: Option<PendingWebsocketRequest>,
    plan: ProxyPlan,
    view: PlanView,
) -> bool {
    &&& pending_view(pending) == view.pending
    &&& messages_view(plan.deliver@) == view.deliver
    &&& plan.on_delivery_failure@ == view.on_delivery_failure
    &&& plan.next@ == view.next
}

/// A failure of the upstream stream.
pub open spec fn stream_failure(text: Seq<char>) -> OutcomeView {
    OutcomeView::Failed {
        failure: FailureClass::TemporaryFailure,
        retry_after: None,
        details: "responses websocket upstream stream failed: "@ + text,
    }
}

/// A failure of the upstream stream, in words.
pub fn stream_failure_outcome(text: &str) -> (outcome: WebsocketProxyOutcome)
    ensures
        outcome@ == stream_failure(text@),
{
    let mut details: String = "responses websocket upstream stream failed: ".to_owned();
    details.append(text);
    WebsocketProxyOutcome::Failed {
        failure: FailureClass::TemporaryFailure,
        retry_after: None,
        details,
    }
}

/// The upstream stream fails: another account takes the request over if it can.
pub open spec fn after_stream_failure(pending: Option<PendingView>, text: Seq<char>) -> PlanView {
    PlanView {
        pending,
        deliver: Seq::empty(),
        on_delivery_failure: stream_failure(text),
        next: if open_to_retry(pending) {
            ProxyStepView::Retry(stream_failure(text))
        } else {
            ProxyStepView::End(stream_failure(text))
        },
    }
}

fn no_messages() -> (messages: Vec<WebsocketMessage>)
    ensures
        messages_view(messages@) == Seq::<MessageView>::empty(),
{
    let messages: Vec<WebsocketMessage> = Vec::new();
    assert(messages_view(messages@) =~= Seq::<MessageView>::empty());
    messages
}

/// The upstream stream fails, or ends (`text` is then `closed`).
pub fn on_upstream_stream_failure(pending: &Option<PendingWebsocketRequest>, text: &str) -> (plan:
    ProxyPlan)
    ensures
        plans(*pending, plan, after_stream_failure(pending_view(*pending), text@)),
{
    let failure: WebsocketProxyOutcome = stream_failure_outcome(text);
    let next: ProxyStep = if is_open_to_retry(pending) {
        ProxyStep::Retry(copy_outcome(&failure))
    } else {
        ProxyStep::End(copy_outcome(&failure))
    };
    ProxyPlan { deliver: no_messages(), on_delivery_failure: failure, next }
}

/// A message of a client went to the upstream, or could not be sent. After a close the account is
/// released either way.
pub open spec fn after_client_sent(
    pending: Option<PendingView>,
    closes: bool,
    error: Option<Seq<char>>,
) -> PlanView {
    if closes {
        PlanView {
            pending,
            deliver: Seq::empty(),
            on_delivery_failure: OutcomeView::Released,
            next: ProxyStepView::End(OutcomeView::Released),
        }
    } else {
        match error {
            Some(text) => after_stream_failure(pending, text),
            None => PlanView {
                pending,
                deliver: Seq::empty(),
                on_delivery_failure: OutcomeView::Released,
                next: ProxyStepView::Continue,
            },
        }
    }
}

/// A message of a client went to the upstream, or could not be sent.
pub fn on_client_sent(
    pending: &Option<PendingWebsocketRequest>,
    closes: bool,
    error: Option<&str>,
) -> (plan: ProxyPlan)
    ensures
        plans(
            *pending,
            plan,
            after_client_sent(pending_view(*pending), closes, optional_text(error)),
        ),
{
    if closes {
        return ProxyPlan {
            deliver: no_messages(),
            on_delivery_failure: WebsocketProxyOutcome::Released,
            next: ProxyStep::End(WebsocketProxyOutcome::Released),
        };
    }
    match error {
        Some(text) => on_upstream_stream_failure(pending, text),
        None => ProxyPlan {
            deliver: no_messages(),
            on_delivery_failure: WebsocketProxyOutcome::Released,
            next: ProxyStep::Continue,
        },
    }
}

/// The outcome that is known once a message of the upstream has come.
pub open spec fn known_outcome(message: MessageView, now: Timestamp) -> Option<OutcomeView> {
    match message_outcome(message, now) {
        Some(outcome) => Some(outcome),
        None => if message_kind(message) == Some("response.completed"@) {
            Some(OutcomeView::Success)
        } else {
            None
        },
    }
}

/// The outcome where a client cannot be reached.
pub open spec fn undelivered(known: Option<OutcomeView>) -> OutcomeView {
    match known {
        Some(outcome) => outcome,
        None => OutcomeView::Released,
    }
}

/// What comes next once a message that says this has reached the client.
pub open spec fn delivered(known: Option<OutcomeView>) -> ProxyStepView {
    match known {
        Some(OutcomeView::Released) | None => ProxyStepView::Continue,
        Some(outcome) => ProxyStepView::End(outcome),
    }
}

/// What is to be done with a message of the upstream that asks for a new websocket: what was held
/// back and the message go to the client, and the account is released.
pub open spec fn reconnect_plan(request: PendingView, message: MessageView) -> PlanView {
    PlanView {
        pending: Some(PendingView { buffered: Seq::empty(), ..request }),
        deliver: request.buffered.push(message),
        on_delivery_failure: OutcomeView::Released,
        next: ProxyStepView::End(OutcomeView::Released),
    }
}

/// What is to be done with a message of the upstream that fails a request whose response has not
/// begun: another account takes it over if it is worth a try; else what was held back and the
/// message go to the client.
pub open spec fn early_failure_plan(
    request: PendingView,
    message: MessageView,
    failure: OutcomeView,
) -> PlanView {
    if worth_another(failure->failure) {
        PlanView {
            pending: Some(request),
            deliver: Seq::empty(),
            on_delivery_failure: failure,
            next: ProxyStepView::Retry(failure),
        }
    } else {
        PlanView {
            pending: Some(PendingView { buffered: Seq::empty(), ..request }),
            deliver: request.buffered.push(message),
            on_delivery_failure: failure,
            next: ProxyStepView::End(failure),
        }
    }
}

/// What is to be done with a message of the upstream before the response has begun: content is held
/// back until it begins.
pub open spec fn early_plan(
    request: PendingView,
    message: MessageView,
    known: Option<OutcomeView>,
) -> PlanView {
    let held = if carries_content(message) {
        request.buffered.push(message)
    } else {
        request.buffered
    };
    let passed = if carries_content(message) {
        Seq::empty()
    } else {
        seq![message]
    };
    let over = is_last(message);
    PlanView {
        pending: if over {
            None
        } else if commits(message) {
            Some(PendingView { committed: true, buffered: Seq::empty(), ..request })
        } else {
            Some(PendingView { buffered: held, ..request })
        },
        deliver: if commits(message) {
            passed + held
        } else {
            passed
        },
        on_delivery_failure: undelivered(known),
        next: if over {
            delivered(known)
        } else {
            ProxyStepView::Continue
        },
    }
}

/// What is to be done with a message of the upstream otherwise: it goes to the client.
pub open spec fn passing_plan(
    pending: Option<PendingView>,
    message: MessageView,
    known: Option<OutcomeView>,
) -> PlanView {
    PlanView {
        pending: if delivered(known) is Continue && is_last(message) {
            None
        } else {
            pending
        },
        deliver: seq![message],
        on_delivery_failure: undelivered(known),
        next: delivered(known),
    }
}

/// What is to be done with a message of the upstream, once it says nothing of limits and of
/// responses that are not known.
pub open spec fn shown_plan(
    pending: Option<PendingView>,
    message: MessageView,
    now: Timestamp,
) -> PlanView {
    if open_to_retry(pending) {
        if asks_to_reconnect(message) {
            reconnect_plan(pending->0, message)
        } else {
            match message_outcome(message, now) {
                Some(OutcomeView::Failed { failure, retry_after, details }) => early_failure_plan(
                    pending->0,
                    message,
                    OutcomeView::Failed { failure, retry_after, details },
                ),
                _ => early_plan(pending->0, message, known_outcome(message, now)),
            }
        }
    } else {
        passing_plan(pending, message, known_outcome(message, now))
    }
}

/// What is to be done with a message of the upstream. What tells of limits does not reach a client
/// of another make.
pub open spec fn upstream_plan(
    pending: Option<PendingView>,
    message: MessageView,
    codex_originator: bool,
    now: Timestamp,
) -> PlanView {
    match without_limits(message, codex_originator) {
        Some(message) => shown_plan(pending, reconnecting(message), now),
        None => PlanView {
            pending,
            deliver: Seq::empty(),
            on_delivery_failure: OutcomeView::Released,
            next: ProxyStepView::Continue,
        },
    }
}

fn take_pending_buffered_upstream_messages(request: &mut PendingWebsocketRequest) -> (messages: Vec<
    WebsocketMessage,
>)
    ensures
        messages_view(messages@) == old(request)@.buffered,
        final(request)@ == (PendingView { buffered: Seq::empty(), ..old(request)@ }),
{
    let mut messages: Vec<WebsocketMessage> = Vec::new();
    messages.append(&mut request.buffered_upstream_messages);
    assert(messages_view(messages@) =~= old(request)@.buffered);
    assert(request@.buffered =~= Seq::<MessageView>::empty());
    messages
}

fn push_message(messages: &mut Vec<WebsocketMessage>, message: WebsocketMessage)
    ensures
        messages_view(final(messages)@) == messages_view(old(messages)@).push(message@),
{
    let ghost before = messages_view(messages@);
    let ghost added = message@;
    messages.push(message);
    assert(messages_view(messages@) =~= before.push(added));
}

fn step_after_delivery(known: Option<WebsocketProxyOutcome>) -> (next: ProxyStep)
    ensures
        next@ == delivered(optional_outcome(known)),
{
    match terminal_outcome_after_successful_delivery(known) {
        Some(outcome) => ProxyStep::End(outcome),
        None => ProxyStep::Continue,
    }
}

fn copy_known(known: &Option<WebsocketProxyOutcome>) -> (copy: Option<WebsocketProxyOutcome>)
    ensures
        copy == *known,
{
    match known {
        Some(outcome) => Some(copy_outcome(outcome)),
        None => None,
    }
}

/// What is to be done with a message of the upstream before the response has begun.
fn plan_early(
    request: PendingWebsocketRequest,
    message: WebsocketMessage,
    known: Option<WebsocketProxyOutcome>,
) -> (result: (Option<PendingWebsocketRequest>, ProxyPlan))
    ensures
        plans(
            result.0,
            result.1,
            early_plan(request@, message@, optional_outcome(known)),
        ),
{
    let ghost start = request@;
    let ghost shown = message@;
    let mut request: PendingWebsocketRequest = request;
    let commits_now: bool = upstream_message_commits_request(&message);
    let over: bool = upstream_message_is_terminal(&message);
    let mut deliver: Vec<WebsocketMessage> = no_messages();
    if should_buffer_upstream_message_before_commit(&message) {
        push_message(&mut request.buffered_upstream_messages, message);
    } else {
        push_message(&mut deliver, message);
        assert(messages_view(deliver@) =~= seq![shown]);
    }
    if commits_now {
        request.committed = true;
        let mut held: Vec<WebsocketMessage> = take_pending_buffered_upstream_messages(
            &mut request,
        );
        let ghost passed = messages_view(deliver@);
        let ghost more = messages_view(held@);
        deliver.append(&mut held);
        assert(messages_view(deliver@) =~= passed + more);
    }
    let on_delivery_failure: WebsocketProxyOutcome = outcome_after_client_delivery_failure(
        copy_known(&known),
    );
    if over {
        (None, ProxyPlan { deliver, on_delivery_failure, next: step_after_delivery(known) })
    } else {
        (Some(request), ProxyPlan { deliver, on_delivery_failure, next: ProxyStep::Continue })
    }
}

/// What is to be done with a message of the upstream, once it says nothing of limits and of
/// responses that are not known.
fn plan_shown_at(
    pending: &mut Option<PendingWebsocketRequest>,
    message: WebsocketMessage,
    now: Timestamp,
) -> (plan: ProxyPlan)
    requires
        in_calendar(now),
    ensures
        plans(*final(pending), plan, shown_plan(pending_view(*old(pending)), message@, now)),
{
    let ghost before = pending_view(*pending);
    let ghost shown = message@;
    let classified: Option<WebsocketProxyOutcome> = classify_websocket_upstream_message_at(
        &message,
        now,
    );
    let known: Option<WebsocketProxyOutcome> = known_settlement_from_upstream_message(
        &message,
        copy_known(&classified),
    );
    assert(optional_outcome(known) == known_outcome(shown, now));
    let uncommitted: bool = is_open_to_retry(pending);
    if !uncommitted {
        let last: bool = upstream_message_is_terminal(&message);
        let mut deliver: Vec<WebsocketMessage> = no_messages();
        push_message(&mut deliver, message);
        assert(messages_view(deliver@) =~= seq![shown]);
        let on_delivery_failure: WebsocketProxyOutcome = outcome_after_client_delivery_failure(
            copy_known(&known),
        );
        let next: ProxyStep = step_after_delivery(known);
        if let ProxyStep::Continue = next {
            if last {
                *pending = None;
            }
        }
        return ProxyPlan { deliver, on_delivery_failure, next };
    }
    let mut request: PendingWebsocketRequest = match pending.take() {
        Some(request) => request,
        None => PendingWebsocketRequest::default(),
    };
    if should_passthrough_retryable_websocket_reset(true, &message) {
        let mut deliver: Vec<WebsocketMessage> = take_pending_buffered_upstream_messages(
            &mut request,
        );
        push_message(&mut deliver, message);
        *pending = Some(request);
        return ProxyPlan {
            deliver,
            on_delivery_failure: WebsocketProxyOutcome::Released,
            next: ProxyStep::End(WebsocketProxyOutcome::Released),
        };
    }
    if let Some(WebsocketProxyOutcome::Failed { failure, retry_after, details }) = classified {
        let class: FailureClass = failure;
        let outcome: WebsocketProxyOutcome = WebsocketProxyOutcome::Failed {
            failure,
            retry_after,
            details,
        };
        if should_failover_failure_class(class) {
            *pending = Some(request);
            return ProxyPlan {
                deliver: no_messages(),
                on_delivery_failure: copy_outcome(&outcome),
                next: ProxyStep::Retry(outcome),
            };
        }
        let mut deliver: Vec<WebsocketMessage> = take_pending_buffered_upstream_messages(
            &mut request,
        );
        push_message(&mut deliver, message);
        *pending = Some(request);
        return ProxyPlan {
            deliver,
            on_delivery_failure: copy_outcome(&outcome),
            next: ProxyStep::End(outcome),
        };
    }
    let (after, plan) = plan_early(request, message, known);
    *pending = after;
    plan
}

/// Takes note of a message of the upstream, and says what is to be done, at `now`.
pub fn on_upstream_message_at(
    pending: &mut Option<PendingWebsocketRequest>,
    message: WebsocketMessage,
    codex_originator: bool,
    now: Timestamp,
) -> (plan: ProxyPlan)
    requires
        in_calendar(now),
    ensures
        plans(
            *final(pending),
            plan,
            upstream_plan(pending_view(*old(pending)), message@, codex_originator, now),
        ),
{
    match normalize_websocket_rate_limit_message(message, codex_originator) {
        Some(message) => {
            let shown: WebsocketMessage = rewrite_previous_response_not_found_message(message);
            plan_shown_at(pending, shown, now)
        },
        None => ProxyPlan {
            deliver: no_messages(),
            on_delivery_failure: WebsocketProxyOutcome::Released,
            next: ProxyStep::Continue,
        },
    }
}

/// Takes note of a message of the upstream, and says what is to be done.
pub fn on_upstream_message(
    pending: &mut Option<PendingWebsocketRequest>,
    message: WebsocketMessage,
    codex_originator: bool,
) -> (plan: ProxyPlan)
    ensures
        exists|now: Timestamp| #[trigger]
            in_calendar(now) && plans(
                *final(pending),
                plan,
                upstream_plan(pending_view(*old(pending)), message@, codex_originator, now),
            ),
{
    let now: Timestamp = utc_now();
    on_upstream_message_at(pending, message, codex_originator, now)
}

/// A request that an account failed to serve.
pub open spec fn after_failed_account(pending: Option<PendingView>, account_id: Seq<char>) -> Option<
    PendingView,
> {
    match pending {
        Some(request) => Some(
            PendingView { tried: with_account(request.tried, account_id), ..request },
        ),
        None => None,
    }
}

/// Takes note that an account failed, so that another takes the request over.
pub fn note_failed_account(pending: &mut Option<PendingWebsocketRequest>, account_id: &str)
    ensures
        pending_view(*final(pending)) == after_failed_account(
            pending_view(*old(pending)),
            account_id@,
        ),
{
    if let Some(request) = pending.take() {
        let mut request: PendingWebsocketRequest = request;
        insert_account(&mut request.tried_accounts, account_id);
        *pending = Some(request);
    }
}

/// What the client sent of a request, as it goes to an upstream websocket.
pub open spec fn replayed(
    requests: Seq<MessageView>,
    mode: FingerprintMode,
    codex_originator: bool,
    snapshot: Option<&ModelsSnapshot>,
    installation_id: Option<Seq<char>>,
) -> Seq<MessageView> {
    Seq::new(
        requests.len(),
        |i: int| outgoing(requests[i], mode, codex_originator, snapshot, installation_id),
    )
}

/// What the client sent of a request, as it goes to the websocket of another account.
pub fn replay_messages(
    request: &PendingWebsocketRequest,
    mode: FingerprintMode,
    codex_originator: bool,
    snapshot: Option<&ModelsSnapshot>,
    installation_id: Option<&str>,
) -> (messages: Vec<WebsocketMessage>)
    ensures
        messages_view(messages@) == replayed(
            request@.requests,
            mode,
            codex_originator,
            snapshot,
            optional_text(installation_id),
        ),
{
    let mut messages: Vec<WebsocketMessage> = Vec::new();
    let ghost all = replayed(
        request@.requests,
        mode,
        codex_originator,
        snapshot,
        optional_text(installation_id),
    );
    let mut i: usize = 0;
    while i < request.request_messages.len()
        invariant
            i <= request.request_messages.len(),
            all == replayed(
                request@.requests,
                mode,
                codex_originator,
                snapshot,
                optional_text(installation_id),
            ),
            messages_view(messages@) =~= all.take(i as int),
        decreases request.request_messages.len() - i,
    {
        let message: WebsocketMessage = normalize_response_create_message(
            copy_message(&request.request_messages[i]),
            mode,
            codex_originator,
            snapshot,
            installation_id,
        );
        push_message(&mut messages, message);
        assert(all.take(i + 1) =~= all.take(i as int).push(all[i as int]));
        i = i + 1;
    }
    assert(all.take(i as int) =~= all);
    messages
}

/// What an outcome does to the account of the websocket.
pub open spec fn settlement_of_outcome(outcome: OutcomeView) -> SettlementView {
    match outcome {
        OutcomeView::Success => SettlementView::Success,
        OutcomeView::Released => SettlementView::Release,
        OutcomeView::Failed { failure, retry_after, details } => SettlementView::Failure {
            failure,
            retry_after,
            details,
        },
    }
}

/// What an outcome does to the account of the websocket.
pub fn settlement_for_outcome(outcome: WebsocketProxyOutcome) -> (settlement: AccountSettlement)
    ensures
        settlement@ == settlement_of_outcome(outcome@),
{
    match outcome {
        WebsocketProxyOutcome::Success => AccountSettlement::Success,
        WebsocketProxyOutcome::Released => AccountSettlement::Release,
        WebsocketProxyOutcome::Failed { failure, retry_after, details } =>
            AccountSettlement::Failure { failure, retry_after, details },
    }
}

/// Another account could not be sent what the client sent: it failed as well.
pub fn on_replay_failure(
    pending: &mut Option<PendingWebsocketRequest>,
    account_id: &str,
    text: &str,
) -> (settlement: AccountSettlement)
    ensures
        pending_view(*final(pending)) == after_failed_account(
            pending_view(*old(pending)),
            account_id@,
        ),
        settlement@ == settlement_of_outcome(stream_failure(text@)),
{
    note_failed_account(pending, account_id);
    settlement_for_outcome(stream_failure_outcome(text))
}

/// A request that another account has taken over: what was held back of the first is dropped.
pub open spec fn taken_over(pending: Option<PendingView>) -> Option<PendingView> {
    match pending {
        Some(request) => Some(PendingView { buffered: Seq::empty(), ..request }),
        None => None,
    }
}

/// Another account has taken the request over. Says what the failure did to the first.
pub fn on_switched(pending: &mut Option<PendingWebsocketRequest>, failure: WebsocketProxyOutcome) -> (
    settlement: AccountSettlement)
    ensures
        pending_view(*final(pending)) == taken_over(pending_view(*old(pending))),
        settlement@ == settlement_of_outcome(failure@),
{
    if let Some(request) = pending.take() {
        let mut request: PendingWebsocketRequest = request;
        request.buffered_upstream_messages = Vec::new();
        assert(request@.buffered =~= Seq::<MessageView>::empty());
        *pending = Some(request);
    }
    settlement_for_outcome(failure)
}

/// What is to be done where no other account can take the request over: what was held back goes to
/// the client, and a message that says why.
pub open spec fn no_replacement_plan(
    pending: Option<PendingView>,
    message: Option<MessageView>,
    failure: OutcomeView,
) -> PlanView {
    let held = match pending {
        Some(request) => request.buffered,
        None => Seq::empty(),
    };
    PlanView {
        pending: taken_over(pending),
        deliver: match message {
            Some(message) => held.push(message),
            None => held,
        },
        on_delivery_failure: failure,
        next: ProxyStepView::End(failure),
    }
}

/// No other account can take the request over.
pub fn on_no_replacement(
    pending: &mut Option<PendingWebsocketRequest>,
    message: Option<WebsocketMessage>,
    failure: WebsocketProxyOutcome,
) -> (plan: ProxyPlan)
    ensures
        plans(
            *final(pending),
            plan,
            no_replacement_plan(
                pending_view(*old(pending)),
                crate::responses::websocket::protocol::optional_message(message),
                failure@,
            ),
        ),
{
    let mut deliver: Vec<WebsocketMessage> = no_messages();
    if let Some(request) = pending.take() {
        let mut request: PendingWebsocketRequest = request;
        deliver = take_pending_buffered_upstream_messages(&mut request);
        *pending = Some(request);
    }
    if let Some(message) = message {
        push_message(&mut deliver, message);
    }
    ProxyPlan {
        deliver,
        on_delivery_failure: copy_outcome(&failure),
        next: ProxyStep::End(failure),
    }
}

/// Once the response has begun, no message makes another account take the request over.
pub proof fn begun_responses_stay(
    pending: Option<PendingView>,
    message: MessageView,
    codex_originator: bool,
    now: Timestamp,
    text: Seq<char>,
)
    requires
        !open_to_retry(pending),
    ensures
        !(upstream_plan(pending, message, codex_originator, now).next is Retry),
        !(after_stream_failure(pending, text).next is Retry),
{
}

/// Another account takes a request over only after a failure that is worth a try.
pub proof fn retries_are_worth_a_try(
    pending: Option<PendingView>,
    message: MessageView,
    codex_originator: bool,
    now: Timestamp,
)
    ensures
        upstream_plan(pending, message, codex_originator, now).next matches ProxyStepView::Retry(
            failure,
        ) ==> failure is Failed && worth_another(failure->failure),
{
}

/// What is held back before a response begins is either still held back, in order, or goes to the
/// client in order as soon as the response begins or the websocket is given up.
pub proof fn held_back_is_not_lost(
    request: PendingView,
    message: MessageView,
    codex_originator: bool,
    now: Timestamp,
)
    requires
        !request.committed,
        !(upstream_plan(Some(request), message, codex_originator, now).pending is None),
    ensures
        ({
            let plan = upstream_plan(Some(request), message, codex_originator, now);
            let after = plan.pending->0.buffered;
            ||| request.buffered.is_prefix_of(after)
            ||| request.buffered.is_prefix_of(plan.deliver)
        }),
{
    let plan = upstream_plan(Some(request), message, codex_originator, now);
    if let Some(shown) = without_limits(message, codex_originator) {
        let shown = reconnecting(shown);
        assert(request.buffered.is_prefix_of(request.buffered.push(shown)));
        assert(Seq::<MessageView>::empty() + request.buffered.push(shown)
            =~= request.buffered.push(shown));
    }
}

}
