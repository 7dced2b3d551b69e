//! What holds while a request goes from one account to the next.
use crate::accounts::laws::{expired_blocks_are_lifted_once, picked_accounts_are_eligible};
use crate::accounts::lifecycle::after_expiry;
use crate::accounts::selection::{selects, summarizes};
use crate::accounts::{
    after_failure, block_active, AccountRecord, AccountSelection, AccountStore, BlockedReason,
    PoolBlockSummary,
};
use crate::classifier::{transport_class, FailureClass, TransportError};
use crate::config::RoutingPolicy;
use crate::error_laws::{
    says_nothing, server_errors_blame_no_request, too_many_requests_are_limited,
};
use crate::error_semantics::{delay_of, owned_text, text_payload, RetryAfter};
use crate::failover::{
    acts_on_offer, advances, after_request_error, class_name, decode_failure, failure_event_of,
    failure_reason, offers, refresh_details, resolves, settled, texts,
    tried_accounts_are_not_picked, unary_failure, with_account, AccountSettlement, FailoverAction,
    FailoverEvent, FailoverFailure, FailoverRun, RefreshFailure, SettlementView, SuccessDisposition,
};
use crate::responses::failure::error_retry;
use crate::router::RouteCandidate;
use crate::status::{reason_or, status_text};
use crate::text::{begins_with, decimal, has_text};
use crate::text_laws::found_texts_stand_somewhere;
use crate::time::{in_calendar, Delay, Timestamp};
use vstd::prelude::*;

verus! {

/// One step of a run: what happened, what was to be done then, and everything before and after.
pub struct FailoverStep {
    pub before: AccountStore,
    pub after: AccountStore,
    pub tried_before: Seq<String>,
    pub tried_after: Seq<String>,
    pub run: FailoverRun,
    pub run_then: FailoverRun,
    pub event: FailoverEvent,
    pub now: Timestamp,
    pub action: FailoverAction,
}

/// Does a step follow from what happened?
pub open spec fn is_step(
    step: FailoverStep,
    policy: RoutingPolicy,
    refresh_skew_seconds: i64,
    disposition: SuccessDisposition,
) -> bool {
    advances(
        step.before,
        step.after,
        step.tried_before,
        step.tried_after,
        step.run,
        step.run_then,
        step.event,
        policy,
        refresh_skew_seconds,
        disposition,
        step.now,
        step.action,
    )
}

/// Can this happen once that was done? Nothing happens any more once the request is answered or
/// served.
pub open spec fn answers(action: FailoverAction, event: FailoverEvent) -> bool {
    match action {
        FailoverAction::Select => event is Select,
        FailoverAction::Refresh(_) => event is Prepare || event is RefreshLost
            || event is RefreshFailed,
        FailoverAction::Prepare => event is Prepare,
        FailoverAction::Send(_) => event is Succeeded || event is Failed,
        FailoverAction::Answer(_) | FailoverAction::Done => false,
    }
}

/// Does a step go on where another left off? The pool may have changed in between: other requests
/// use it as well.
pub open spec fn goes_on(step: FailoverStep, next: FailoverStep) -> bool {
    &&& next.run == step.run_then
    &&& next.tried_before == step.tried_after
    &&& answers(step.action, next.event)
}

/// Are these the steps of one run, or the first of them? It begins with the pick of an account.
pub open spec fn is_run(
    steps: Seq<FailoverStep>,
    policy: RoutingPolicy,
    refresh_skew_seconds: i64,
    disposition: SuccessDisposition,
) -> bool {
    &&& steps.len() > 0 ==> steps[0].event is Select
    &&& forall|i: int|
        0 <= i < steps.len() ==> is_step(
            #[trigger] steps[i],
            policy,
            refresh_skew_seconds,
            disposition,
        )
    &&& forall|i: int, j: int|
        0 <= i && j == i + 1 && j < steps.len() ==> goes_on(#[trigger] steps[i], #[trigger] steps[j])
}

/// Is the request sent with this account?
pub open spec fn sends_to(step: FailoverStep, id: Seq<char>) -> bool {
    step.action is Send && step.run_then.account_id@ == id
}

/// How often the request is sent with an account.
pub open spec fn times_sent(steps: Seq<FailoverStep>, id: Seq<char>) -> nat
    decreases steps.len(),
{
    if steps.len() == 0 {
        0
    } else {
        times_sent(steps.drop_last(), id) + (if sends_to(steps.last(), id) {
            1nat
        } else {
            0nat
        })
    }
}

/// Was the access token refused?
pub open spec fn is_rejection(event: FailoverEvent) -> bool {
    event matches FailoverEvent::Failed { error, text: _, delay: _ } && transport_class(error)
        == FailureClass::AccessTokenRejected
}

/// Accounts stay among others that one more is put to.
proof fn lemma_with_account(tried: Seq<Seq<char>>, account_id: Seq<char>)
    ensures
        with_account(tried, account_id).contains(account_id),
        forall|id: Seq<char>| tried.contains(id) ==> with_account(tried, account_id).contains(id),
{
    lemma_pushed(tried, account_id);
}

/// What is in a sequence stays there, beside what is put to its end.
proof fn lemma_pushed(ids: Seq<Seq<char>>, last: Seq<char>)
    ensures
        ids.push(last).contains(last),
        forall|id: Seq<char>| ids.contains(id) ==> ids.push(last).contains(id),
{
    assert(ids.push(last)[ids.len() as int] == last);
    assert forall|id: Seq<char>| ids.contains(id) implies ids.push(last).contains(id) by {
        let j = choose|j: int| 0 <= j < ids.len() && ids[j] == id;
        assert(ids.push(last)[j] == id);
    }
}

/// A step takes no account out of those that were tried, or whose token was dropped.
proof fn lemma_step_keeps(
    step: FailoverStep,
    policy: RoutingPolicy,
    refresh_skew_seconds: i64,
    disposition: SuccessDisposition,
    id: Seq<char>,
)
    requires
        is_step(step, policy, refresh_skew_seconds, disposition),
    ensures
        texts(step.tried_before).contains(id) ==> texts(step.tried_after).contains(id),
        texts(step.run.forced_refresh_attempted@).contains(id) ==> texts(
            step.run_then.forced_refresh_attempted@,
        ).contains(id),
{
    lemma_with_account(texts(step.tried_before), step.run.account_id@);
    lemma_pushed(texts(step.run.forced_refresh_attempted@), step.run.account_id@);
}

/// What was tried, or whose token was dropped, stays so to the end of a run.
proof fn lemma_run_keeps(
    steps: Seq<FailoverStep>,
    policy: RoutingPolicy,
    refresh_skew_seconds: i64,
    disposition: SuccessDisposition,
    id: Seq<char>,
    i: int,
    j: int,
)
    requires
        is_run(steps, policy, refresh_skew_seconds, disposition),
        0 <= i <= j < steps.len(),
    ensures
        texts(steps[i].tried_before).contains(id) ==> texts(steps[j].tried_before).contains(id),
        texts(steps[i].run.forced_refresh_attempted@).contains(id) ==> texts(
            steps[j].run.forced_refresh_attempted@,
        ).contains(id),
    decreases j - i,
{
    if i < j {
        lemma_run_keeps(steps, policy, refresh_skew_seconds, disposition, id, i, j - 1);
        lemma_step_keeps(steps[j - 1], policy, refresh_skew_seconds, disposition, id);
        assert(goes_on(steps[j - 1], steps[j]));
    }
}

/// A request is sent only with an account that was not tried in vain.
proof fn lemma_sent_is_untried(
    steps: Seq<FailoverStep>,
    policy: RoutingPolicy,
    refresh_skew_seconds: i64,
    disposition: SuccessDisposition,
    id: Seq<char>,
    j: int,
)
    requires
        is_run(steps, policy, refresh_skew_seconds, disposition),
        0 <= j < steps.len(),
        sends_to(steps[j], id),
    ensures
        j > 0,
        !texts(steps[j].tried_before).contains(id),
{
    assert(is_step(steps[j], policy, refresh_skew_seconds, disposition));
    assert(steps[j].event is Prepare);
    let pick = steps[j - 1];
    assert(goes_on(pick, steps[j]));
    assert(is_step(pick, policy, refresh_skew_seconds, disposition));
    assert(pick.event is Select);
    let result = choose|result: Result<AccountSelection, FailoverFailure>|
        #![trigger acts_on_offer(result, pick.run_then.account_id, pick.action)]
        acts_on_offer(result, pick.run_then.account_id, pick.action) && offers(
            pick.before,
            pick.after,
            policy,
            refresh_skew_seconds,
            pick.tried_before,
            pick.run.last_pool_summary_candidate,
            pick.now,
            result,
        );
    tried_accounts_are_not_picked(
        pick.before,
        pick.after,
        policy,
        refresh_skew_seconds,
        pick.tried_before,
        pick.run.last_pool_summary_candidate,
        pick.now,
        result->Ok_0,
    );
}

/// A request is sent once more with an account only where the answer to the first try refused its
/// access token, and no token of the account was refused before.
proof fn lemma_sent_again(
    steps: Seq<FailoverStep>,
    policy: RoutingPolicy,
    refresh_skew_seconds: i64,
    disposition: SuccessDisposition,
    id: Seq<char>,
    i: int,
    j: int,
)
    requires
        is_run(steps, policy, refresh_skew_seconds, disposition),
        0 <= i < j < steps.len(),
        sends_to(steps[i], id),
        sends_to(steps[j], id),
    ensures
        i + 1 < j,
        is_rejection(steps[i + 1].event),
        !texts(steps[i + 1].run.forced_refresh_attempted@).contains(id),
        texts(steps[i + 1].run_then.forced_refresh_attempted@).contains(id),
{
    let reply = steps[i + 1];
    assert(goes_on(steps[i], reply));
    assert(is_step(reply, policy, refresh_skew_seconds, disposition));
    assert(i + 1 < j);
    let next = steps[i + 2];
    assert(goes_on(reply, next));
    lemma_sent_is_untried(steps, policy, refresh_skew_seconds, disposition, id, j);
    lemma_run_keeps(steps, policy, refresh_skew_seconds, disposition, id, i + 2, j);
    lemma_with_account(texts(reply.tried_before), id);
    lemma_pushed(texts(reply.run.forced_refresh_attempted@), id);
}

/// A request that was sent is sent in some step.
proof fn lemma_sent_somewhere(steps: Seq<FailoverStep>, id: Seq<char>) -> (at: int)
    requires
        times_sent(steps, id) > 0,
    ensures
        0 <= at < steps.len(),
        sends_to(steps[at], id),
        times_sent(steps.take(at), id) == times_sent(steps, id) - 1,
    decreases steps.len(),
{
    let last = steps.len() - 1;
    assert(steps.take(last) =~= steps.drop_last());
    if sends_to(steps[last], id) {
        last
    } else {
        let at = lemma_sent_somewhere(steps.drop_last(), id);
        assert(steps.drop_last().take(at) =~= steps.take(at));
        at
    }
}

/// In one run a request is sent at most twice with the same account, and the second time only once
/// its access token was refused the first time. It is not sent at all with an account that was
/// tried in vain before the run.
pub proof fn requests_are_sent_twice_at_most(
    steps: Seq<FailoverStep>,
    policy: RoutingPolicy,
    refresh_skew_seconds: i64,
    disposition: SuccessDisposition,
    id: Seq<char>,
)
    requires
        is_run(steps, policy, refresh_skew_seconds, disposition),
    ensures
        times_sent(steps, id) <= 2,
        forall|i: int, j: int|
            0 <= i < j < steps.len() && #[trigger] sends_to(steps[i], id) && #[trigger] sends_to(
                steps[j],
                id,
            ) ==> i + 1 < j && is_rejection(steps[i + 1].event),
        steps.len() > 0 && texts(steps[0].tried_before).contains(id) ==> times_sent(steps, id) == 0,
{
    assert forall|i: int, j: int|
        0 <= i < j < steps.len() && #[trigger] sends_to(steps[i], id) && #[trigger] sends_to(
            steps[j],
            id,
        ) implies i + 1 < j && is_rejection(steps[i + 1].event) by {
        lemma_sent_again(steps, policy, refresh_skew_seconds, disposition, id, i, j);
    }
    if times_sent(steps, id) > 0 {
        let k = lemma_sent_somewhere(steps, id);
        lemma_sent_is_untried(steps, policy, refresh_skew_seconds, disposition, id, k);
        lemma_run_keeps(steps, policy, refresh_skew_seconds, disposition, id, 0, k);
        if times_sent(steps, id) > 2 {
            let j = lemma_sent_somewhere(steps.take(k), id);
            assert(steps.take(k).take(j) =~= steps.take(j));
            let i = lemma_sent_somewhere(steps.take(j), id);
            lemma_sent_again(steps, policy, refresh_skew_seconds, disposition, id, i, j);
            lemma_sent_again(steps, policy, refresh_skew_seconds, disposition, id, j, k);
            assert(goes_on(steps[i + 1], steps[i + 2]));
            lemma_run_keeps(steps, policy, refresh_skew_seconds, disposition, id, i + 2, j + 1);
        }
    }
}

/// A failure of the account leads to another one: whatever its class is, but that the request itself
/// is refused or could not be built. Only those two are answered to the client, with the failure as
/// it came.
pub proof fn failed_accounts_lead_to_others(
    step: FailoverStep,
    policy: RoutingPolicy,
    refresh_skew_seconds: i64,
    disposition: SuccessDisposition,
)
    requires
        is_step(step, policy, refresh_skew_seconds, disposition),
        step.event is Failed,
    ensures
        ({
            let error = step.event->Failed_error;
            let class = transport_class(error);
            &&& class == FailureClass::AccessTokenRejected || class == FailureClass::AuthInvalid
                || class == FailureClass::RateLimited || class == FailureClass::QuotaExhausted
                || class == FailureClass::RiskControlled || class == FailureClass::TemporaryFailure
                ==> step.action == FailoverAction::Select
            &&& class == FailureClass::RequestRejected || class == FailureClass::InternalFailure
                ==> step.action == FailoverAction::Answer(FailoverFailure::Transport(error))
        }),
{
}

/// An account whose request failed is not tried again for this request, but for one whose access
/// token was refused for the first time; a refused request puts no account aside.
pub proof fn failed_accounts_are_put_aside(
    step: FailoverStep,
    policy: RoutingPolicy,
    refresh_skew_seconds: i64,
    disposition: SuccessDisposition,
)
    requires
        is_step(step, policy, refresh_skew_seconds, disposition),
        step.event is Failed,
    ensures
        ({
            let class = transport_class(step.event->Failed_error);
            let id = step.run.account_id@;
            let forced = texts(step.run.forced_refresh_attempted@);
            &&& class == FailureClass::RateLimited || class == FailureClass::QuotaExhausted || class
                == FailureClass::RiskControlled || class == FailureClass::TemporaryFailure ==> texts(
                step.tried_after,
            ).contains(id)
            &&& class == FailureClass::AccessTokenRejected && forced.contains(id) ==> texts(
                step.tried_after,
            ).contains(id)
            &&& class == FailureClass::AccessTokenRejected && !forced.contains(id) ==> texts(
                step.tried_after,
            ) == texts(step.tried_before) && texts(
                step.run_then.forced_refresh_attempted@,
            ).contains(id)
            &&& class == FailureClass::RequestRejected || class == FailureClass::InternalFailure
                ==> texts(step.tried_after) == texts(step.tried_before)
        }),
{
    lemma_with_account(texts(step.tried_before), step.run.account_id@);
    lemma_pushed(texts(step.run.forced_refresh_attempted@), step.run.account_id@);
}

/// An answer with 429 that names no code or type of its own, an error of the upstream itself, and no
/// answer at all lead to another account.
pub proof fn limits_and_faults_lead_to_another_account(
    step: FailoverStep,
    policy: RoutingPolicy,
    refresh_skew_seconds: i64,
    disposition: SuccessDisposition,
)
    requires
        is_step(step, policy, refresh_skew_seconds, disposition),
        step.event is Failed,
        step.event->Failed_error matches TransportError::Http { status, headers: _, body } ==> (
        status == 429 || status == 401 || 500 <= status <= 599) && says_nothing(
            text_payload(owned_text(body)),
        ),
        !(step.event->Failed_error is Build),
    ensures
        step.action == FailoverAction::Select,
{
    if let TransportError::Http { status, headers: _, body } = step.event->Failed_error {
        if 500 <= status <= 599 {
            server_errors_blame_no_request(
                status,
                owned_text(body),
                FailureClass::AccessTokenRejected,
            );
        } else if status == 429 {
            too_many_requests_are_limited(owned_text(body), FailureClass::AccessTokenRejected);
        }
    }
}

/// A refresh that failed leads to another account, unless it was refused or failed within the
/// gateway; then it is the answer.
pub proof fn failed_refreshes_lead_to_others(
    step: FailoverStep,
    policy: RoutingPolicy,
    refresh_skew_seconds: i64,
    disposition: SuccessDisposition,
)
    requires
        is_step(step, policy, refresh_skew_seconds, disposition),
        step.event is RefreshFailed,
    ensures
        ({
            let error = step.event->RefreshFailed_0;
            let refused = error.class == FailureClass::RequestRejected || error.class
                == FailureClass::InternalFailure;
            &&& refused ==> step.action == FailoverAction::Answer(FailoverFailure::Refresh(error))
            &&& !refused ==> step.action == FailoverAction::Select && texts(
                step.tried_after,
            ).contains(step.run.account_id@)
            &&& error.class == FailureClass::AuthInvalid ==> step.run_then.last_pool_summary_candidate
                == Some(
                PoolBlockSummary {
                    blocked_reason: BlockedReason::AuthInvalid,
                    blocked_until: None,
                    retry_after: None,
                },
            )
            &&& error.class != FailureClass::AuthInvalid ==> step.run_then.last_pool_summary_candidate
                == step.run.last_pool_summary_candidate
            &&& step.after.map() == step.before.map()
        }),
{
    lemma_with_account(texts(step.tried_before), step.run.account_id@);
}

/// A request is sent with the access token of the account that was picked, and only where it has
/// one; else another account is picked, and this one is not tried again.
pub proof fn requests_are_sent_with_the_token_of_the_account(
    step: FailoverStep,
    policy: RoutingPolicy,
    refresh_skew_seconds: i64,
    disposition: SuccessDisposition,
)
    requires
        is_step(step, policy, refresh_skew_seconds, disposition),
        step.event is Prepare,
    ensures
        ({
            let id = step.run.account_id@;
            let records = step.before.map();
            if records.contains_key(id) && records[id].access_token is Some {
                &&& step.action matches FailoverAction::Send(account) && account.access_token
                    == records[id].access_token->0 && account.chatgpt_account_id
                    == records[id].account_id
                &&& step.after.map() == records
            } else {
                step.action == FailoverAction::Select && texts(step.tried_after).contains(id)
            }
        }),
{
    lemma_with_account(texts(step.tried_before), step.run.account_id@);
}

/// A request that succeeded is done, and its account is told so at once only where it is released
/// at once.
pub proof fn served_requests_are_done(
    step: FailoverStep,
    policy: RoutingPolicy,
    refresh_skew_seconds: i64,
    disposition: SuccessDisposition,
)
    requires
        is_step(step, policy, refresh_skew_seconds, disposition),
        step.event is Succeeded,
    ensures
        step.action == FailoverAction::Done,
        disposition == SuccessDisposition::HoldUntilCaller ==> step.after.map() == step.before.map(),
        ({
            let id = step.run.account_id@;
            let record = step.before.map()[id];
            disposition == SuccessDisposition::ReleaseImmediately
                && step.before.map().contains_key(id) && !record.detached
                ==> step.after.map().contains_key(id) && step.after.map()[id].last_success_at
                == Some(step.now) && step.after.map()[id].in_flight_requests == (
            if record.in_flight_requests > 0 {
                record.in_flight_requests - 1
            } else {
                0
            })
        }),
{
}

/// An access token that is fetched anew but cannot be kept is a failure of the gateway.
pub proof fn lost_tokens_are_told(
    step: FailoverStep,
    policy: RoutingPolicy,
    refresh_skew_seconds: i64,
    disposition: SuccessDisposition,
)
    requires
        is_step(step, policy, refresh_skew_seconds, disposition),
        step.event is RefreshLost,
    ensures
        step.action == FailoverAction::Answer(
            FailoverFailure::Internal { status: 500, detail: step.event->RefreshLost_0 },
        ),
{
}

/// Where an account is picked it is refreshed where it needs that, else used at once; where none
/// is, the request is answered that the pool is blocked.
pub proof fn picks_are_used(
    step: FailoverStep,
    policy: RoutingPolicy,
    refresh_skew_seconds: i64,
    disposition: SuccessDisposition,
)
    requires
        is_step(step, policy, refresh_skew_seconds, disposition),
        step.event is Select,
    ensures
        ({
            let id = step.run_then.account_id@;
            match step.action {
                FailoverAction::Refresh(token) => step.after.map().contains_key(id)
                    && step.after.map()[id].refresh_in_flight && step.after.map()[id].refresh_token
                    == token,
                FailoverAction::Prepare => step.after.map().contains_key(id)
                    && step.after.map()[id].access_token is Some,
                FailoverAction::Answer(failure) => failure is PoolBlocked,
                _ => false,
            }
        }),
{
    let result = choose|result: Result<AccountSelection, FailoverFailure>|
        #![trigger acts_on_offer(result, step.run_then.account_id, step.action)]
        acts_on_offer(result, step.run_then.account_id, step.action) && offers(
            step.before,
            step.after,
            policy,
            refresh_skew_seconds,
            step.tried_before,
            step.run.last_pool_summary_candidate,
            step.now,
            result,
        );
    if let Ok(selection) = result {
        let candidates = choose|candidates: Seq<RouteCandidate>| #[trigger]
            selects(
                step.before,
                step.after,
                policy,
                refresh_skew_seconds,
                step.tried_before,
                step.now,
                candidates,
                Ok(selection),
            );
        picked_accounts_are_eligible(
            step.before,
            step.after,
            policy,
            refresh_skew_seconds,
            step.tried_before,
            step.now,
            candidates,
            selection,
        );
    }
}

/// Where no account is left the pool says why; where it does not, an account that lost its
/// authorization does, and else nothing more is known.
pub proof fn blocked_pools_say_why(
    records: Map<Seq<char>, AccountRecord>,
    excluded: Seq<String>,
    candidate: Option<PoolBlockSummary>,
    now: Timestamp,
    failure: FailoverFailure,
)
    requires
        resolves(records, excluded, candidate, now, failure),
    ensures
        failure is PoolBlocked,
        summarizes(records, excluded, now, Some(failure->PoolBlocked_0)) || (summarizes(
            records,
            excluded,
            now,
            None,
        ) && (candidate == Some(failure->PoolBlocked_0) || (candidate is None
            && failure->PoolBlocked_0 == (PoolBlockSummary {
            blocked_reason: BlockedReason::TemporarilyUnavailable,
            blocked_until: None,
            retry_after: None,
        })))),
{
}

/// An answer that cannot be read makes its account rest and puts it aside; where every account that
/// was tried gave one, the client is told of a bad gateway, and else of what came of the others.
pub proof fn unreadable_answers_are_told(
    failure: FailoverFailure,
    tried: Seq<Seq<char>>,
    unread: Seq<Seq<char>>,
    details: String,
    text: Seq<char>,
)
    ensures
        decode_failure(text) == (SettlementView::Failure {
            failure: FailureClass::TemporaryFailure,
            retry_after: None,
            details: text,
        }),
        unread.len() > 0 && failure is PoolBlocked && (forall|id: Seq<char>| #[trigger]
            tried.contains(id) <==> unread.contains(id)) ==> unary_failure(
            failure,
            tried,
            unread,
            Some(details),
        ) == (FailoverFailure::Internal { status: 502, detail: details }),
        !(failure is PoolBlocked) || unread.len() == 0 ==> unary_failure(
            failure,
            tried,
            unread,
            Some(details),
        ) == failure,
        unary_failure(failure, tried, unread, None) == failure,
{
}

/// What a failed request does to the account it went through. A token that is refused for the first
/// time is dropped, and nothing else; for the second time it blocks the account for a minute. Any
/// other failure does to the account what its class stands for.
pub proof fn failed_requests_are_noted(
    records: Map<Seq<char>, AccountRecord>,
    id: Seq<char>,
    error: TransportError,
    forced: Seq<Seq<char>>,
    delay: Option<Delay>,
    details: String,
    now: Timestamp,
)
    requires
        records.contains_key(id),
        !records[id].detached,
        in_calendar(now),
    ensures
        ({
            let after = after_request_error(records, id, error, forced, delay, details, now);
            let before = records[id];
            let class = transport_class(error);
            let refused = class == FailureClass::AccessTokenRejected;
            &&& after.contains_key(id)
            &&& refused ==> after[id].access_token is None
            &&& refused && !forced.contains(id) ==> after[id].blocked_reason
                == before.blocked_reason && after[id].blocked_until == before.blocked_until
                && after[id].last_error == before.last_error
            &&& refused && forced.contains(id) && !block_active(before, now)
                ==> after[id].blocked_until is Some && after[id].blocked_until->0.nanos == now.nanos
                + 60_000_000_000 && after[id].last_error == Some(details)
            &&& !refused ==> after[id] == after_failure(before, now, class, delay, details)
            &&& before.in_flight_requests > 0 ==> after[id].in_flight_requests
                == before.in_flight_requests - 1
        }),
{
}

/// A failed request changes no other account.
pub proof fn failed_requests_touch_one_account(
    records: Map<Seq<char>, AccountRecord>,
    id: Seq<char>,
    other: Seq<char>,
    error: TransportError,
    forced: Seq<Seq<char>>,
    delay: Option<Delay>,
    details: String,
    now: Timestamp,
)
    requires
        other != id,
    ensures
        ({
            let after = after_request_error(records, id, error, forced, delay, details, now);
            &&& after.contains_key(other) <==> records.contains_key(other)
            &&& records.contains_key(other) ==> after[other] == records[other]
        }),
{
}

/// What became of a request reaches the account that it went through, and no other: a success as a
/// success, a failure under its class with the delay that is known of it, and a release as nothing at
/// all.
pub proof fn settlements_reach_their_account(
    records: Map<Seq<char>, AccountRecord>,
    id: Seq<char>,
    other: Seq<char>,
    failure: FailureClass,
    retry_after: Option<RetryAfter>,
    details: String,
    hinted: Option<Delay>,
    delay: Delay,
    now: Timestamp,
)
    requires
        records.contains_key(id),
        !records[id].detached,
    ensures
        settled(records, id, AccountSettlement::Success, hinted, now)[id].last_success_at == Some(now),
        ({
            let after = settled(records, id, AccountSettlement::Release, hinted, now);
            &&& after[id].blocked_until == records[id].blocked_until
            &&& after[id].last_error == records[id].last_error
            &&& after[id].last_success_at == records[id].last_success_at
        }),
        ({
            let after = settled(
                records,
                id,
                AccountSettlement::Failure { failure, retry_after, details },
                hinted,
                now,
            );
            &&& retry_after is None ==> after[id] == after_failure(
                records[id],
                now,
                failure,
                None,
                details,
            )
            &&& retry_after == Some(RetryAfter::Exact(delay)) ==> after[id] == after_failure(
                records[id],
                now,
                failure,
                Some(delay),
                details,
            )
            &&& retry_after is Some && retry_after->0 is Hint ==> after[id] == after_failure(
                records[id],
                now,
                failure,
                hinted,
                details,
            )
            &&& other != id && records.contains_key(other) ==> after.contains_key(other)
                && after[other] == records[other]
        }),
{
}

/// The note on a failure says what it stands for, and, where there was an answer, its text.
pub proof fn notes_tell_what_happened(error: TransportError, failure: FailureClass, text: Seq<char>)
    ensures
        begins_with(failure_reason(error, failure, text), class_name(failure)),
        error is Http && owned_text(error->Http_body) is Some ==> has_text(
            failure_reason(error, failure, text),
            owned_text(error->Http_body)->0,
        ),
        !(error is Http) ==> failure_reason(error, failure, text) == class_name(failure) + ": "@ + text,
        error matches TransportError::Http { status, headers: _, body } ==> has_text(
            failure_reason(error, failure, text),
            ": status="@ + decimal(status as nat),
        ) && has_text(
            failure_reason(error, failure, text),
            " body="@ + (if body is Some {
                body->0@
            } else {
                ""@
            }),
        ),
        class_name(FailureClass::RateLimited) == "RateLimited"@,
        class_name(FailureClass::QuotaExhausted) == "QuotaExhausted"@,
        class_name(FailureClass::AccessTokenRejected) == "AccessTokenRejected"@,
        class_name(FailureClass::AuthInvalid) == "AuthInvalid"@,
        class_name(FailureClass::RiskControlled) == "RiskControlled"@,
        class_name(FailureClass::TemporaryFailure) == "TemporaryFailure"@,
        class_name(FailureClass::RequestRejected) == "RequestRejected"@,
        class_name(FailureClass::InternalFailure) == "InternalFailure"@,
{
    let note = failure_reason(error, failure, text);
    let name = class_name(failure);
    assert(note.subrange(0, name.len() as int) =~= name);
    if let TransportError::Http { status, headers: _, body } = error {
        let told = if body is Some {
            body->0@
        } else {
            ""@
        };
        let number = decimal(status as nat);
        let reason = " "@ + reason_or(status, "<unknown status code>"@);
        let tail = " body="@ + told;
        assert(note =~= name + (": status="@ + number) + (reason + tail));
        found_texts_stand_somewhere(name, ": status="@ + number, reason + tail, note);
        let front = name + (": status="@ + number) + reason;
        assert(note =~= front + tail + Seq::empty());
        found_texts_stand_somewhere(front, tail, Seq::empty(), note);
        let front = front + " body="@;
        assert(note =~= front + told + Seq::empty());
        found_texts_stand_somewhere(front, told, Seq::empty(), note);
    }
}

/// The note on a refresh that failed has the answer to it.
pub proof fn failed_refreshes_are_noted(error: RefreshFailure)
    ensures
        begins_with(refresh_details(error), "refresh failed: status="@ + decimal(error.status as nat)),
        has_text(refresh_details(error), error.body@),
{
    let note = refresh_details(error);
    let head = "refresh failed: status="@ + decimal(error.status as nat);
    let front = "refresh failed: status="@ + status_text(error.status) + " body="@;
    found_texts_stand_somewhere(front, error.body@, Seq::empty(), note);
    assert(front + error.body@ + Seq::<char>::empty() =~= note);
    assert(note.subrange(0, head.len() as int) =~= head);
}

/// A failed request is an event with its error and the delay that is known of it, unless that delay
/// goes beyond what can be added to an instant. Without an answer there is no delay.
pub proof fn failures_become_events(
    error: TransportError,
    text: String,
    hinted: Option<Delay>,
    now: Timestamp,
)
    ensures
        ({
            let event = failure_event_of(error, text, hinted, now);
            let delay = delay_of(error_retry(error, now), hinted);
            &&& event is None <==> delay is Some && delay->0.nanos > 9_223_372_036_854_775_807_000_000
            &&& event is Some ==> event->0 is Failed && event->0->Failed_error == error
                && event->0->Failed_text == text && event->0->Failed_delay == delay
            &&& !(error is Http) ==> event is Some && event->0->Failed_delay is None
        }),
{
}

/// A failed request leaves its failure noted on its account, in the words that tell what it stands
/// for; only a token that is refused for the first time leaves no note.
pub proof fn failed_steps_are_noted(
    step: FailoverStep,
    policy: RoutingPolicy,
    refresh_skew_seconds: i64,
    disposition: SuccessDisposition,
)
    requires
        is_step(step, policy, refresh_skew_seconds, disposition),
        step.event is Failed,
        step.before.map().contains_key(step.run.account_id@),
        !step.before.map()[step.run.account_id@].detached,
    ensures
        ({
            let error = step.event->Failed_error;
            let id = step.run.account_id@;
            let before = step.before.map()[id];
            let after = step.after.map();
            let class = transport_class(error);
            let again = texts(step.run.forced_refresh_attempted@).contains(id);
            &&& after.contains_key(id)
            &&& class == FailureClass::AccessTokenRejected && !again ==> after[id].access_token is None
                && after[id].last_error == before.last_error && after[id].blocked_until
                == before.blocked_until
            &&& class != FailureClass::AccessTokenRejected || again ==> owned_text(
                after[id].last_error,
            ) == Some(failure_reason(error, class, step.event->Failed_text@))
                && after[id].last_error_at == Some(step.now)
            &&& forall|other: Seq<char>|
                other != id && #[trigger] step.before.map().contains_key(other)
                    ==> after.contains_key(other) && after[other] == step.before.map()[other]
        }),
{
    let error = step.event->Failed_error;
    let id = step.run.account_id@;
    let forced = texts(step.run.forced_refresh_attempted@);
    let delay = step.event->Failed_delay;
    let details = choose|details: String|
        #![trigger after_request_error(step.before.map(), id, error, forced, delay, details, step.now)]
        details@ == failure_reason(error, transport_class(error), step.event->Failed_text@)
            && step.after.map() == after_request_error(
            step.before.map(),
            id,
            error,
            forced,
            delay,
            details,
            step.now,
        );
    assert(step.after.map() == after_request_error(
        step.before.map(),
        id,
        error,
        forced,
        delay,
        details,
        step.now,
    ));
}

/// Where no account can be picked, nothing happens to the accounts, but that blocks that are over are
/// lifted.
pub proof fn vain_picks_change_nothing(
    before: AccountStore,
    after: AccountStore,
    policy: RoutingPolicy,
    skew_seconds: i64,
    tried: Seq<String>,
    candidate: Option<PoolBlockSummary>,
    now: Timestamp,
    failure: FailoverFailure,
    id: Seq<char>,
)
    requires
        offers(before, after, policy, skew_seconds, tried, candidate, now, Err(failure)),
    ensures
        after.map().contains_key(id) <==> before.map().contains_key(id),
        before.map().contains_key(id) ==> after.map()[id] == after_expiry(before.map()[id], now),
        after.round_robin_cursor == before.round_robin_cursor,
        failure is PoolBlocked,
{
    if before.map().contains_key(id) {
        expired_blocks_are_lifted_once(before.map()[id], now);
    }
}

}
