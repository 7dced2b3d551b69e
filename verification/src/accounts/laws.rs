//! What holds of every account.
use crate::accounts::lifecycle::{
    after_auth_invalid, after_expiry, after_invalidation, after_refresh, after_release,
    after_success, after_trash, changed,
};
use crate::accounts::selection::{after_selection, eligible, selects, unexpired};
use crate::accounts::{
    after_failure, backoff_seconds, block_active, block_before, fits, lost, AccountRecord,
    AccountSelection, AccountStore, BlockedReason, RefreshedAccount, RoutingState,
    SelectionFailure, LOCAL_BACKOFF_MAX_SECONDS,
};
use crate::accounts::woken;
use crate::classifier::FailureClass;
use crate::config::RoutingPolicy;
use crate::router::RouteCandidate;
use crate::time::{in_calendar, Delay, Timestamp};
use vstd::prelude::*;

verus! {

/// Does the second block hold at least as long as the first?
pub open spec fn holds_longer(first: AccountRecord, second: AccountRecord) -> bool {
    match (first.blocked_until, second.blocked_until) {
        (Some(a), Some(b)) => a.nanos <= b.nanos,
        (Some(_), None) => second.blocked_reason is Some,
        (None, Some(_)) => false,
        (None, None) => first.blocked_reason is Some ==> second.blocked_reason is Some,
    }
}

/// No failure shortens a block that is active.
pub proof fn failures_never_shorten_a_block(
    record: AccountRecord,
    now: Timestamp,
    failure: FailureClass,
    retry_after: Option<Delay>,
    details: String,
)
    requires
        block_active(record, now),
    ensures
        holds_longer(record, after_failure(record, now, failure, retry_after, details)),
        block_active(after_failure(record, now, failure, retry_after, details), now),
{
}

/// A request that is refused for its content, or fails within the gateway, blocks nothing and
/// lifts nothing.
pub proof fn refused_requests_block_nothing(
    record: AccountRecord,
    now: Timestamp,
    failure: FailureClass,
    retry_after: Option<Delay>,
    details: String,
)
    requires
        failure == FailureClass::RequestRejected || failure == FailureClass::InternalFailure,
    ensures
        ({
            let after = after_failure(record, now, failure, retry_after, details);
            &&& after.blocked_reason == record.blocked_reason
            &&& after.blocked_source == record.blocked_source
            &&& after.blocked_until == record.blocked_until
            &&& after.local_backoff_level == record.local_backoff_level
            &&& after.access_token == record.access_token
        }),
{
}

/// Any other failure leaves the account blocked.
pub proof fn other_failures_block(
    record: AccountRecord,
    now: Timestamp,
    failure: FailureClass,
    retry_after: Option<Delay>,
    details: String,
)
    requires
        in_calendar(now),
        fits(retry_after),
        retry_after is Some ==> retry_after->0.nanos > 0,
        failure != FailureClass::RequestRejected,
        failure != FailureClass::InternalFailure,
    ensures
        block_active(after_failure(record, now, failure, retry_after, details), now),
{
    if !block_active(record, now) {
        lemma_backoff_bounds(record.local_backoff_level as nat);
        match retry_after {
            Some(delay) => {
                assert(now.nanos + delay.nanos > now.nanos);
            },
            None => {},
        }
    }
}

/// A success lifts no block that is active.
pub proof fn success_lifts_no_active_block(record: AccountRecord, now: Timestamp)
    ensures
        ({
            let after = after_success(record, now);
            &&& after.blocked_reason == record.blocked_reason
            &&& after.blocked_source == record.blocked_source
            &&& after.blocked_until == record.blocked_until
            &&& block_active(record, now) ==> after.routing_state == record.routing_state
                && after.last_error == record.last_error && after.local_backoff_level
                == record.local_backoff_level
        }),
{
}

/// A fresh access token lifts no block that is active.
pub proof fn refresh_lifts_no_active_block(
    record: AccountRecord,
    now: Timestamp,
    refreshed: RefreshedAccount,
)
    requires
        block_active(record, now),
    ensures
        ({
            let after = after_refresh(record, now, refreshed);
            &&& after.blocked_reason == record.blocked_reason
            &&& after.blocked_source == record.blocked_source
            &&& after.blocked_until == record.blocked_until
            &&& after.routing_state == record.routing_state
        }),
{
}

/// An account that lost its authorization stays lost whatever its requests do.
pub proof fn lost_accounts_stay_lost(
    record: AccountRecord,
    now: Timestamp,
    failure: FailureClass,
    retry_after: Option<Delay>,
    details: String,
)
    requires
        record.routing_state == RoutingState::AuthInvalid,
        record.blocked_reason == Some(BlockedReason::AuthInvalid),
        record.blocked_until is None,
    ensures
        lost(after_success(record, now)),
        lost(after_release(record, now)),
        lost(after_invalidation(record, now)),
        lost(after_expiry(record, now)),
        lost(after_failure(record, now, failure, retry_after, details)),
        lost(after_auth_invalid(record, now, details)),
        lost(after_trash(record)),
{
}

/// An account that was woken is as it is when it is woken once more.
pub proof fn waking_twice_is_waking_once(record: AccountRecord)
    requires
        !lost(record),
    ensures
        !lost(woken(record)),
        woken(woken(record)) == woken(record),
{
}

/// An account that was woken can take a request, unless its token is being fetched.
pub proof fn woken_accounts_are_eligible(record: AccountRecord, now: Timestamp)
    requires
        !lost(record),
        !record.detached,
        !record.refresh_in_flight,
    ensures
        eligible(woken(record), now),
        !block_active(woken(record), now),
{
}

/// A block that is over is lifted, and lifting blocks once more changes nothing.
pub proof fn expired_blocks_are_lifted_once(record: AccountRecord, now: Timestamp)
    ensures
        after_expiry(after_expiry(record, now), now) == after_expiry(record, now),
        after_expiry(record, now).blocked_until matches Some(until) ==> until.nanos > now.nanos,
{
}

proof fn lemma_backoff_bounds(level: nat)
    ensures
        1 <= backoff_seconds(level) <= LOCAL_BACKOFF_MAX_SECONDS,
    decreases level,
{
    if level > 0 {
        lemma_backoff_bounds((level - 1) as nat);
    }
}

/// The rest after failures in a row is a second at first, never shrinks, and has a limit.
pub proof fn rests_grow_to_a_limit(level: nat, more: nat)
    requires
        level <= more,
    ensures
        backoff_seconds(0) == 1,
        1 <= backoff_seconds(level) <= backoff_seconds(more) <= LOCAL_BACKOFF_MAX_SECONDS,
    decreases more,
{
    lemma_backoff_bounds(level);
    lemma_backoff_bounds(more);
    if level < more {
        rests_grow_to_a_limit(level, (more - 1) as nat);
        lemma_backoff_bounds((more - 1) as nat);
    }
}

/// Below the limit each rest is twice as long as the one before.
pub proof fn rests_double_below_the_limit(level: nat)
    requires
        backoff_seconds(level + 1) < LOCAL_BACKOFF_MAX_SECONDS,
    ensures
        backoff_seconds(level + 1) == 2 * backoff_seconds(level),
{
}

/// An account that is picked and whose request then ends has as many requests under way as before.
pub proof fn requests_under_way_are_counted(
    record: AccountRecord,
    now: Timestamp,
    then: Timestamp,
    skew_seconds: i64,
    failure: FailureClass,
    retry_after: Option<Delay>,
    details: String,
)
    requires
        record.in_flight_requests < u32::MAX,
    ensures
        ({
            let taken = after_selection(record, now, skew_seconds);
            &&& taken.in_flight_requests == record.in_flight_requests + 1
            &&& after_success(taken, then).in_flight_requests == record.in_flight_requests
            &&& after_release(taken, then).in_flight_requests == record.in_flight_requests
            &&& after_failure(taken, then, failure, retry_after, details).in_flight_requests
                == record.in_flight_requests
            &&& after_auth_invalid(taken, then, details).in_flight_requests
                == record.in_flight_requests
        }),
{
}

/// The account that is picked can take a request: it is no other's, not blocked for now, not lost,
/// and not one that was ruled out.
pub proof fn picked_accounts_are_eligible(
    before: AccountStore,
    after: AccountStore,
    policy: RoutingPolicy,
    skew_seconds: i64,
    excluded: Seq<String>,
    now: Timestamp,
    candidates: Seq<RouteCandidate>,
    selection: AccountSelection,
)
    requires
        selects(before, after, policy, skew_seconds, excluded, now, candidates, Ok(selection)),
    ensures
        ({
            let records = unexpired(before.map(), now);
            let id = selection.account_id@;
            &&& records.contains_key(id)
            &&& eligible(records[id], now)
            &&& !crate::accounts::selection::listed(excluded, id)
        }),
{
    let id = selection.account_id@;
    let i = choose|i: int| 0 <= i < candidates.len() && #[trigger] candidates[i].account_id@ == id;
    if policy == RoutingPolicy::RoundRobin {
        let k = before.round_robin_cursor as int % candidates.len() as int;
        assert(0 <= k < candidates.len());
        assert(candidates[k].account_id@ == id);
    }
    assert(candidates[i].account_id@ == id);
}

/// Where an account can take a request, one is picked.
pub proof fn eligible_accounts_are_found(
    before: AccountStore,
    after: AccountStore,
    policy: RoutingPolicy,
    skew_seconds: i64,
    excluded: Seq<String>,
    now: Timestamp,
    candidates: Seq<RouteCandidate>,
    result: Result<AccountSelection, SelectionFailure>,
    id: Seq<char>,
)
    requires
        selects(before, after, policy, skew_seconds, excluded, now, candidates, result),
        unexpired(before.map(), now).contains_key(id),
        eligible(unexpired(before.map(), now)[id], now),
        !crate::accounts::selection::listed(excluded, id),
    ensures
        result is Ok,
{
}

/// An account that is no longer of use stays until its last request has ended, and then is gone.
pub proof fn detached_accounts_leave_when_idle(
    records: Map<Seq<char>, AccountRecord>,
    id: Seq<char>,
    now: Timestamp,
)
    requires
        records.contains_key(id),
        records[id].detached,
    ensures
        ({
            let after = changed(records, id, |record: AccountRecord| after_release(record, now));
            after.contains_key(id) <==> records[id].in_flight_requests > 1
        }),
{
}

/// The order of blocks is one that puts any two of them in a line, but for those that are alike.
pub proof fn blocks_are_in_order(
    a: (BlockedReason, Option<Timestamp>),
    b: (BlockedReason, Option<Timestamp>),
    c: (BlockedReason, Option<Timestamp>),
)
    ensures
        !block_before(a, a),
        block_before(a, b) ==> !block_before(b, a),
        block_before(a, b) && block_before(b, c) ==> block_before(a, c),
        !block_before(a, b) && !block_before(b, a) ==> a == b,
{
}

}
