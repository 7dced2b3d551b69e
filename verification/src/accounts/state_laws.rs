//! What every event does to the account it is about.
use crate::accounts::lifecycle::{
    after_auth_invalid, after_expiry, after_invalidation, after_refresh, after_release,
    after_success, after_trash, changed, notes_failed_refresh, persist_op, trash_op, wake_outcome,
    wake_report, with_trash_failure, woken_in,
};
use crate::accounts::selection::{
    after_selection, are_candidates, eligible, free, listed, lists, routeable, selects, summarizes,
    time_left,
};
use crate::accounts::{
    after_failure, backoff_seconds, block_active, block_before, fits, metadata, needs_refresh,
    shown, transitioned, AccountDiskOp, AccountRecord, AccountSelection, AccountStore, AccountView,
    AuthInvalidPlan, BlockTransition, BlockedReason, BlockedSource, PoolBlockSummary,
    RefreshedAccount, RetryableBlock, RoutingState, UnknownAccount, WakeAccountResult,
    WakeAllResult, WakeDisposition,
};
use crate::classifier::FailureClass;
use crate::config::RoutingPolicy;
use crate::router::{goes_before, next_cursor, picked, RouteCandidate};
use crate::text::{begins_with, has_text, is_space, text_before, trimmed};
use crate::text_laws::{found_texts_stand_somewhere, trimming_takes_spaces_off};
use crate::time::{in_calendar, Delay, Timestamp};
use vstd::prelude::*;

verus! {

/// Is an account blocked for this reason and by this rule, so many nanoseconds from now?
pub open spec fn blocked_for(
    record: AccountRecord,
    now: Timestamp,
    reason: BlockedReason,
    source: BlockedSource,
    nanos: int,
) -> bool {
    &&& record.blocked_reason == Some(reason)
    &&& record.blocked_source == Some(source)
    &&& record.blocked_until is Some
    &&& record.blocked_until->0.nanos == now.nanos + nanos
}

/// The rest after failures in a row, which nobody set a time for, doubles from a second on and ends
/// at half an hour.
pub proof fn rests_are_powers_of_two(level: nat)
    ensures
        level == 0 ==> backoff_seconds(level) == 1,
        0 < level <= 10 ==> backoff_seconds(level) == 2 * backoff_seconds((level - 1) as nat),
        level == 10 ==> backoff_seconds(level) == 1024,
        level >= 11 ==> backoff_seconds(level) == 1800,
    decreases level,
{
    reveal_with_fuel(backoff_seconds, 12);
    if level > 11 {
        rests_are_powers_of_two((level - 1) as nat);
    }
}

/// For how long a failure blocks an account that is free. A limit holds as long as the upstream says,
/// else for a rest of its own; suspicion half an hour; a refused token, and a failure that passes and
/// names no time, a minute.
pub proof fn failures_block_for_their_time(
    record: AccountRecord,
    now: Timestamp,
    delay: Delay,
    details: String,
)
    requires
        in_calendar(now),
        fits(Some(delay)),
        !block_active(record, now),
    ensures
        blocked_for(
            after_failure(record, now, FailureClass::RateLimited, Some(delay), details),
            now,
            BlockedReason::RateLimited,
            BlockedSource::UpstreamRetryAfter,
            delay.nanos as int,
        ),
        blocked_for(
            after_failure(record, now, FailureClass::QuotaExhausted, Some(delay), details),
            now,
            BlockedReason::QuotaExhausted,
            BlockedSource::UpstreamRetryAfter,
            delay.nanos as int,
        ),
        blocked_for(
            after_failure(record, now, FailureClass::TemporaryFailure, Some(delay), details),
            now,
            BlockedReason::TemporarilyUnavailable,
            BlockedSource::UpstreamRetryAfter,
            delay.nanos as int,
        ),
        blocked_for(
            after_failure(record, now, FailureClass::RateLimited, None, details),
            now,
            BlockedReason::RateLimited,
            BlockedSource::LocalBackoff,
            backoff_seconds(record.local_backoff_level as nat) as int * 1_000_000_000,
        ),
        blocked_for(
            after_failure(record, now, FailureClass::QuotaExhausted, None, details),
            now,
            BlockedReason::QuotaExhausted,
            BlockedSource::LocalBackoff,
            backoff_seconds(record.local_backoff_level as nat) as int * 1_000_000_000,
        ),
        blocked_for(
            after_failure(record, now, FailureClass::TemporaryFailure, None, details),
            now,
            BlockedReason::TemporarilyUnavailable,
            BlockedSource::FixedPolicy,
            60_000_000_000,
        ),
        forall|given: Option<Delay>| #[trigger]
            blocked_for(
                after_failure(record, now, FailureClass::RiskControlled, given, details),
                now,
                BlockedReason::RiskControlled,
                BlockedSource::FixedPolicy,
                1_800_000_000_000,
            ),
        forall|given: Option<Delay>| #[trigger]
            blocked_for(
                after_failure(record, now, FailureClass::AccessTokenRejected, given, details),
                now,
                BlockedReason::TemporarilyUnavailable,
                BlockedSource::FixedPolicy,
                60_000_000_000,
            ),
{
    rests_are_powers_of_two(record.local_backoff_level as nat);
    lemma_rests_are_short(record.local_backoff_level as nat);
}

proof fn lemma_rests_are_short(level: nat)
    ensures
        1 <= backoff_seconds(level) <= 1800,
    decreases level,
{
    if level > 0 {
        lemma_rests_are_short((level - 1) as nat);
    }
}

/// The state that a failure leaves an account in. Only a refused token and a lost authorization cost
/// it its access token. Rests count up only where nobody set a time for them.
pub proof fn failures_leave_their_state(
    record: AccountRecord,
    now: Timestamp,
    failure: FailureClass,
    retry_after: Option<Delay>,
    details: String,
)
    ensures
        ({
            let after = after_failure(record, now, failure, retry_after, details);
            let limited = failure == FailureClass::RateLimited || failure
                == FailureClass::QuotaExhausted;
            let dropped = failure == FailureClass::AccessTokenRejected || failure
                == FailureClass::AuthInvalid;
            &&& limited ==> after.routing_state == RoutingState::Cooldown
            &&& failure == FailureClass::AuthInvalid ==> after.routing_state
                == RoutingState::AuthInvalid && after.blocked_reason == Some(
                BlockedReason::AuthInvalid,
            ) && after.blocked_until is None
            &&& failure == FailureClass::RiskControlled ==> after.routing_state
                == RoutingState::RiskControlled
            &&& failure == FailureClass::TemporaryFailure || failure
                == FailureClass::AccessTokenRejected ==> after.routing_state
                == RoutingState::TemporarilyUnavailable
            &&& dropped ==> after.access_token is None && after.access_token_expires_at is None
            &&& !dropped ==> after.access_token == record.access_token
                && after.access_token_expires_at == record.access_token_expires_at
            &&& limited && retry_after is None && record.local_backoff_level < u32::MAX && (
            !block_active(record, now)) ==> after.local_backoff_level
                == record.local_backoff_level + 1
            &&& !limited || retry_after is Some ==> after.local_backoff_level
                == record.local_backoff_level
            &&& after.last_error == Some(details)
            &&& after.last_error_at == Some(now)
            &&& !after.refresh_in_flight
            &&& after.last_success_at == record.last_success_at
            &&& after.last_selected_at == record.last_selected_at
        }),
{
}

/// A request at fault leaves a free account as free as its token allows, and a blocked one as it is.
pub proof fn faulty_requests_leave_accounts_free(
    record: AccountRecord,
    now: Timestamp,
    failure: FailureClass,
    retry_after: Option<Delay>,
    details: String,
)
    requires
        failure == FailureClass::RequestRejected || failure == FailureClass::InternalFailure,
    ensures
        ({
            let after = after_failure(record, now, failure, retry_after, details);
            let free = !block_active(record, now) && record.routing_state
                != RoutingState::AuthInvalid;
            &&& !free ==> after.routing_state == record.routing_state
            &&& free && record.access_token is Some ==> after.routing_state == RoutingState::Ready
            &&& free && record.access_token is None ==> after.routing_state == RoutingState::Cold
        }),
{
}

/// Does an account have the same name, file and credentials as another?
pub open spec fn same_account(record: AccountRecord, other: AccountRecord) -> bool {
    &&& record.id == other.id
    &&& record.file_path == other.file_path
    &&& record.label == other.label
    &&& record.email == other.email
    &&& record.refresh_token == other.refresh_token
    &&& record.account_id == other.account_id
    &&& record.plan_type == other.plan_type
}

/// Whatever happens to its requests, an account stays the one that it is.
pub proof fn accounts_stay_who_they_are(
    record: AccountRecord,
    now: Timestamp,
    failure: FailureClass,
    retry_after: Option<Delay>,
    details: String,
    skew_seconds: i64,
)
    ensures
        same_account(after_failure(record, now, failure, retry_after, details), record),
        same_account(after_success(record, now), record),
        same_account(after_release(record, now), record),
        same_account(after_invalidation(record, now), record),
        same_account(after_auth_invalid(record, now, details), record),
        same_account(after_trash(record), record),
        same_account(after_expiry(record, now), record),
        same_account(after_selection(record, now, skew_seconds), record),
        same_account(wake_outcome(record), record),
        after_success(record, now).access_token == record.access_token,
        after_release(record, now).access_token == record.access_token,
        after_expiry(record, now).access_token == record.access_token,
        after_selection(record, now, skew_seconds).access_token == record.access_token,
        wake_outcome(record).access_token == record.access_token,
        after_failure(record, now, failure, retry_after, details).detached == record.detached,
        after_success(record, now).detached == record.detached,
        after_release(record, now).detached == record.detached,
        after_selection(record, now, skew_seconds).detached == record.detached,
        wake_outcome(record).detached == record.detached,
{
}

/// A success is noted. It ends a row of failures where the account is free, which then is ready as
/// far as it has a token.
pub proof fn successes_end_a_row_of_failures(record: AccountRecord, now: Timestamp)
    ensures
        ({
            let after = after_success(record, now);
            let free = !block_active(record, now) && record.routing_state
                != RoutingState::AuthInvalid;
            &&& after.last_success_at == Some(now)
            &&& !after.refresh_in_flight
            &&& after.last_error_at == record.last_error_at
            &&& free ==> after.local_backoff_level == 0 && after.last_error is None
            &&& free && record.access_token is Some ==> after.routing_state == RoutingState::Ready
            &&& free && record.access_token is None ==> after.routing_state == RoutingState::Cold
            &&& !free ==> after.routing_state == record.routing_state && after.local_backoff_level
                == record.local_backoff_level && after.last_error == record.last_error
        }),
{
}

/// A release says nothing of an account, but that a token is no longer awaited.
pub proof fn releases_say_nothing(record: AccountRecord, now: Timestamp)
    ensures
        ({
            let after = after_release(record, now);
            &&& !after.refresh_in_flight
            &&& after.blocked_reason == record.blocked_reason
            &&& after.blocked_source == record.blocked_source
            &&& after.blocked_until == record.blocked_until
            &&& after.local_backoff_level == record.local_backoff_level
            &&& after.last_error == record.last_error
            &&& after.last_success_at == record.last_success_at
            &&& record.routing_state != RoutingState::Warming ==> after.routing_state
                == record.routing_state
            &&& record.routing_state == RoutingState::Warming && !block_active(record, now)
                ==> after.routing_state == (if record.access_token is Some {
                RoutingState::Ready
            } else {
                RoutingState::Cold
            })
        }),
{
}

/// A refreshed account has its new token, keeps what the answer leaves out, and is ready unless it is
/// blocked.
pub proof fn refreshes_bring_a_token(
    record: AccountRecord,
    now: Timestamp,
    refreshed: RefreshedAccount,
)
    ensures
        ({
            let after = after_refresh(record, now, refreshed);
            &&& after.access_token == Some(refreshed.access_token)
            &&& after.access_token_expires_at == refreshed.access_token_expires_at
            &&& after.last_refresh_at == Some(now)
            &&& !after.refresh_in_flight
            &&& refreshed.refresh_token is Some ==> after.refresh_token
                == refreshed.refresh_token->0
            &&& refreshed.refresh_token is None ==> after.refresh_token == record.refresh_token
            &&& refreshed.account_id is Some ==> after.account_id == refreshed.account_id
            &&& refreshed.account_id is None ==> after.account_id == record.account_id
            &&& refreshed.plan_type is Some ==> after.plan_type == refreshed.plan_type
            &&& refreshed.plan_type is None ==> after.plan_type == record.plan_type
            &&& refreshed.email is Some ==> after.email == refreshed.email
            &&& refreshed.email is None ==> after.email == record.email
            &&& after.id == record.id && after.label == record.label && after.file_path
                == record.file_path
            &&& after.in_flight_requests == record.in_flight_requests
            &&& !block_active(record, now) ==> after.routing_state == RoutingState::Ready
                && after.blocked_reason is None && after.blocked_source is None
                && after.blocked_until is None && after.local_backoff_level == 0
                && after.last_error is None
        }),
{
}

/// A token that is given up is gone, and a free account has to fetch another.
pub proof fn invalidations_take_the_token(record: AccountRecord, now: Timestamp)
    ensures
        ({
            let after = after_invalidation(record, now);
            &&& after.access_token is None && after.access_token_expires_at is None
            &&& !after.refresh_in_flight
            &&& after.in_flight_requests == record.in_flight_requests
            &&& after.blocked_reason == record.blocked_reason && after.blocked_until
                == record.blocked_until
            &&& !block_active(record, now) && record.routing_state != RoutingState::AuthInvalid
                ==> after.routing_state == RoutingState::Cold
            &&& block_active(record, now) ==> after.routing_state == record.routing_state
        }),
{
}

/// An account that lost its authorization, or whose file was taken away for that, has no token, is
/// blocked for good, and is marked so that its file does not bring it back.
pub proof fn lost_accounts_are_marked(record: AccountRecord, now: Timestamp, details: String)
    ensures
        ({
            let after = after_auth_invalid(record, now, details);
            &&& after.routing_state == RoutingState::AuthInvalid
            &&& after.blocked_reason == Some(BlockedReason::AuthInvalid) && after.blocked_until is None
            &&& after.access_token is None
            &&& after.auth_invalid_tombstone
            &&& after.detached == record.detached
            &&& after.last_error == Some(details) && after.last_error_at == Some(now)
            &&& !eligible(after, now)
        }),
        ({
            let after = after_trash(record);
            &&& after.routing_state == RoutingState::AuthInvalid
            &&& after.blocked_reason == Some(BlockedReason::AuthInvalid) && after.blocked_until is None
            &&& after.access_token is None
            &&& after.auth_invalid_tombstone
            &&& after.detached
            &&& after.last_error == record.last_error
            &&& !eligible(after, now)
        }),
{
}

/// A block that is over leaves no trace, and its account is as ready as its token allows.
pub proof fn blocks_end_in_time(record: AccountRecord, now: Timestamp)
    ensures
        ({
            let after = after_expiry(record, now);
            let over = record.blocked_until is Some && record.blocked_until->0.nanos <= now.nanos;
            &&& over ==> after.blocked_reason is None && after.blocked_source is None
                && after.blocked_until is None
            &&& !over ==> after.blocked_reason == record.blocked_reason && after.blocked_source
                == record.blocked_source && after.blocked_until == record.blocked_until
            &&& over && record.routing_state != RoutingState::AuthInvalid
                && !record.refresh_in_flight ==> after.routing_state == (if record.access_token
                is Some {
                RoutingState::Ready
            } else {
                RoutingState::Cold
            })
            &&& !over && record.routing_state != RoutingState::Cold ==> after.routing_state
                == record.routing_state
            &&& after.local_backoff_level == record.local_backoff_level
            &&& after.last_error == record.last_error
        }),
{
}

/// A token is refreshed a little before it runs out, and one that needs a refresh needs it later on
/// too.
pub proof fn tokens_are_refreshed_in_time(
    record: AccountRecord,
    now: Timestamp,
    later: Timestamp,
    skew_seconds: i64,
)
    requires
        now.nanos <= later.nanos,
    ensures
        record.access_token is None ==> needs_refresh(record, now, skew_seconds),
        record.access_token_expires_at is None ==> needs_refresh(record, now, skew_seconds),
        record.access_token is Some && record.access_token_expires_at is Some ==> (needs_refresh(
            record,
            now,
            skew_seconds,
        ) <==> record.access_token_expires_at->0.nanos - now.nanos <= skew_seconds * 1_000_000_000),
        needs_refresh(record, now, skew_seconds) ==> needs_refresh(record, later, skew_seconds),
{
}

/// An account that is picked is in use from then on. Where it needs a token it fetches one, which
/// nothing else does meanwhile.
pub proof fn picked_accounts_are_in_use(record: AccountRecord, now: Timestamp, skew_seconds: i64)
    ensures
        ({
            let after = after_selection(record, now, skew_seconds);
            &&& after.last_selected_at == Some(now)
            &&& after.in_flight_requests >= record.in_flight_requests
            &&& record.in_flight_requests < u32::MAX ==> after.in_flight_requests
                == record.in_flight_requests + 1
            &&& needs_refresh(record, now, skew_seconds) ==> after.refresh_in_flight
                && after.routing_state == RoutingState::Warming && !eligible(after, now)
            &&& !needs_refresh(record, now, skew_seconds) ==> after.refresh_in_flight
                == record.refresh_in_flight && after.routing_state == record.routing_state
            &&& after.blocked_until == record.blocked_until && after.blocked_reason
                == record.blocked_reason
        }),
{
}

/// Which accounts can take a request: those that have a file, fetch no token, are not lost and are
/// not blocked for now.
pub proof fn free_accounts_are_eligible(record: AccountRecord, now: Timestamp)
    ensures
        record.detached ==> !eligible(record, now),
        record.refresh_in_flight ==> !eligible(record, now),
        record.routing_state == RoutingState::AuthInvalid ==> !eligible(record, now),
        record.blocked_until is Some && record.blocked_until->0.nanos > now.nanos ==> !eligible(
            record,
            now,
        ),
        !record.detached && !record.refresh_in_flight && record.routing_state
            != RoutingState::AuthInvalid && !block_active(record, now) ==> eligible(record, now),
{
}

/// Waking lifts every block but the loss of an authorization, and ends every row of failures.
pub proof fn waking_lifts_blocks(record: AccountRecord)
    ensures
        ({
            let after = wake_outcome(record);
            let lost = record.routing_state == RoutingState::AuthInvalid || record.blocked_reason
                == Some(BlockedReason::AuthInvalid);
            &&& lost ==> after == record
            &&& !lost ==> after.blocked_reason is None && after.blocked_source is None
                && after.blocked_until is None && after.local_backoff_level == 0
            &&& !lost && record.refresh_in_flight ==> after.routing_state == RoutingState::Warming
            &&& !lost && !record.refresh_in_flight ==> after.routing_state == (
            if record.access_token is Some {
                RoutingState::Ready
            } else {
                RoutingState::Cold
            })
            &&& after.refresh_in_flight == record.refresh_in_flight
            &&& after.in_flight_requests == record.in_flight_requests
            &&& after.last_error == record.last_error
        }),
{
}

/// A report on waking every account says of each whether it was woken, and shows it as it then is.
pub proof fn reports_tell_who_was_woken(
    records: Map<Seq<char>, AccountRecord>,
    result: WakeAllResult,
    i: int,
)
    requires
        wake_report(records, result),
        0 <= i < result.accounts@.len(),
    ensures
        ({
            let told = result.accounts@[i];
            let record = records[told.account.id@];
            let lost = record.routing_state == RoutingState::AuthInvalid || record.blocked_reason
                == Some(BlockedReason::AuthInvalid);
            &&& records.contains_key(told.account.id@)
            &&& told.disposition == (if lost {
                WakeDisposition::SkippedAuthInvalid
            } else {
                WakeDisposition::Woken
            })
            &&& told.account == shown(wake_outcome(record))
            &&& result.woken + result.skipped_auth_invalid == result.accounts@.len()
        }),
{
}

proof fn lemma_woken(accounts: Seq<WakeAccountResult>)
    ensures
        woken_in(accounts) == accounts.filter(
            |told: WakeAccountResult| told.disposition == WakeDisposition::Woken,
        ).len(),
    decreases accounts.len(),
{
    reveal(Seq::filter);
    if accounts.len() > 0 {
        lemma_woken(accounts.drop_last());
    }
}

/// As many accounts are counted as woken as the report says of.
pub proof fn reports_count_who_was_woken(
    records: Map<Seq<char>, AccountRecord>,
    result: WakeAllResult,
)
    requires
        wake_report(records, result),
    ensures
        result.woken == result.accounts@.filter(
            |told: WakeAccountResult| told.disposition == WakeDisposition::Woken,
        ).len(),
{
    lemma_woken(result.accounts@);
}

/// What is shown of an account is what it has.
pub proof fn accounts_are_shown_as_they_are(record: AccountRecord)
    ensures
        ({
            let view = shown(record);
            &&& view.id == record.id
            &&& view.label == record.label
            &&& view.email == record.email
            &&& view.account_id == record.account_id
            &&& view.plan_type == record.plan_type
            &&& view.routing_state == record.routing_state
            &&& view.blocked_reason == record.blocked_reason
            &&& view.blocked_source == record.blocked_source
            &&& view.blocked_until == record.blocked_until
            &&& view.in_flight_requests == record.in_flight_requests
            &&& view.refresh_in_flight == record.refresh_in_flight
            &&& view.access_token_expires_at == record.access_token_expires_at
            &&& view.last_refresh_at == record.last_refresh_at
            &&& view.last_selected_at == record.last_selected_at
            &&& view.last_success_at == record.last_success_at
            &&& view.last_error_at == record.last_error_at
            &&& view.last_error == record.last_error
        }),
{
}

/// A file holds the token, the label and the address of its account. An account without a file of
/// its own leaves the disk alone.
pub proof fn files_hold_their_accounts(record: AccountRecord, accounts_dir: String)
    ensures
        record.detached ==> persist_op(record) is None && trash_op(record, accounts_dir) is None,
        !record.detached ==> ({
            let op = persist_op(record);
            &&& op is Some && op->0 is Write
            &&& op->0->Write_path == record.file_path
            &&& op->0->Write_disk.refresh_token == record.refresh_token
            &&& op->0->Write_disk.label == record.label
            &&& op->0->Write_disk.email == record.email
            &&& trash_op(record, accounts_dir) == Some(
                AccountDiskOp::MoveToTrash { source: record.file_path, accounts_dir },
            )
        }),
{
}

/// Of blocks that end at one time that by a quota is told first, then by a rate, by suspicion, by a
/// failure that passes, and by a lost authorization. A block that ends goes before one that does not,
/// and one that ends sooner before a later one.
pub proof fn sooner_blocks_are_told_first(
    until: Option<Timestamp>,
    at: Timestamp,
    later: Timestamp,
    a: BlockedReason,
    b: BlockedReason,
)
    ensures
        block_before((BlockedReason::QuotaExhausted, until), (BlockedReason::RateLimited, until)),
        block_before((BlockedReason::RateLimited, until), (BlockedReason::RiskControlled, until)),
        block_before(
            (BlockedReason::RiskControlled, until),
            (BlockedReason::TemporarilyUnavailable, until),
        ),
        block_before(
            (BlockedReason::TemporarilyUnavailable, until),
            (BlockedReason::AuthInvalid, until),
        ),
        at.nanos < later.nanos ==> block_before((a, Some(at)), (b, Some(later))),
        block_before((a, Some(at)), (b, None)),
{
}

/// Where every account is blocked, clients are told of the one that is free soonest, and how long
/// that takes.
pub proof fn blocked_pools_name_the_soonest(
    records: Map<Seq<char>, AccountRecord>,
    excluded: Seq<String>,
    now: Timestamp,
    summary: PoolBlockSummary,
    id: Seq<char>,
)
    requires
        summarizes(records, excluded, now, Some(summary)),
        in_calendar(now),
        records.contains_key(id),
        !records[id].detached,
        records[id].routing_state != RoutingState::AuthInvalid,
        !listed(excluded, id),
    ensures
        block_active(records[id], now) || records[id].refresh_in_flight,
        records[id].refresh_in_flight ==> summary.blocked_reason
            == BlockedReason::TemporarilyUnavailable && summary.blocked_until is Some
            && summary.blocked_until->0.nanos == now.nanos + 1_000_000_000 && summary.retry_after
            is Some && summary.retry_after->0.nanos == 1_000_000_000,
        records[id].blocked_reason is Some && records[id].blocked_until is Some
            && records[id].blocked_until->0.nanos >= now.nanos + 1_000_000_000
            ==> summary.blocked_until is Some && summary.blocked_until->0.nanos
            <= records[id].blocked_until->0.nanos,
{
    assert(crate::accounts::selection::routeable(records, excluded, id));
}

/// How long a block still holds: until it ends, and not at all where it is over.
pub proof fn waits_end_with_their_block(until: Timestamp, now: Timestamp)
    requires
        in_calendar(now),
    ensures
        until.nanos >= now.nanos && until.nanos <= 10_000_000_000_000_000_000_000 ==> time_left(
            Some(until),
            now,
        ) is Some && now.nanos + time_left(Some(until), now)->0.nanos == until.nanos,
        until.nanos < now.nanos ==> time_left(Some(until), now) is None,
        time_left(None, now) is None,
{
}

/// By the fewest requests under way: no candidate has fewer than the one that is picked, none of
/// those with as few was picked longer ago, and of these none has a smaller id.
pub proof fn idle_accounts_are_picked_first(
    candidates: Seq<RouteCandidate>,
    cursor: usize,
    id: Seq<char>,
)
    requires
        picked(RoutingPolicy::LeastInFlight, candidates, cursor, id),
    ensures
        exists|i: int|
            {
                let found = candidates[i];
                &&& 0 <= i < candidates.len()
                &&& #[trigger] candidates[i].account_id@ == id
                &&& forall|j: int|
                    0 <= j < candidates.len() ==> {
                        let other = #[trigger] candidates[j];
                        let as_idle = other.in_flight_requests == found.in_flight_requests;
                        &&& found.in_flight_requests <= other.in_flight_requests
                        &&& as_idle && other.last_selected_at is None ==> found.last_selected_at
                            is None
                        &&& as_idle && other.last_selected_at is Some && found.last_selected_at
                            is Some ==> found.last_selected_at->0.nanos
                            <= other.last_selected_at->0.nanos
                        &&& as_idle && other.last_selected_at == found.last_selected_at
                            ==> !text_before(other.account_id@, id)
                    }
            },
{
    let i = choose|i: int|
        {
            &&& 0 <= i < candidates.len()
            &&& #[trigger] candidates[i].account_id@ == id
            &&& forall|j: int|
                0 <= j < candidates.len() ==> !crate::router::goes_before(
                    RoutingPolicy::LeastInFlight,
                    #[trigger] candidates[j],
                    candidates[i],
                )
        };
    assert(candidates[i].account_id@ == id);
    assert forall|j: int| 0 <= j < candidates.len() implies {
        let other = #[trigger] candidates[j];
        let found = candidates[i];
        let as_idle = other.in_flight_requests == found.in_flight_requests;
        &&& found.in_flight_requests <= other.in_flight_requests
        &&& as_idle && other.last_selected_at is None ==> found.last_selected_at is None
        &&& as_idle && other.last_selected_at is Some && found.last_selected_at is Some
            ==> found.last_selected_at->0.nanos <= other.last_selected_at->0.nanos
        &&& as_idle && other.last_selected_at == found.last_selected_at ==> !text_before(
            other.account_id@,
            id,
        )
    } by {
        assert(!crate::router::goes_before(
            RoutingPolicy::LeastInFlight,
            candidates[j],
            candidates[i],
        ));
    }
}

/// By filling up: the candidate with the smallest id is picked, however busy it is.
pub proof fn first_accounts_are_filled(
    candidates: Seq<RouteCandidate>,
    cursor: usize,
    id: Seq<char>,
    j: int,
)
    requires
        picked(RoutingPolicy::FillFirst, candidates, cursor, id),
        0 <= j < candidates.len(),
    ensures
        !text_before(candidates[j].account_id@, id),
{
}

/// In turn: as many picks in a row as there are candidates pick each of them.
pub proof fn turns_come_to_everyone(candidates: Seq<RouteCandidate>, cursor: usize, i: int)
    requires
        0 <= i < candidates.len(),
        cursor + candidates.len() <= usize::MAX,
    ensures
        next_cursor(RoutingPolicy::RoundRobin, cursor) == cursor + 1,
        next_cursor(RoutingPolicy::LeastInFlight, cursor) == cursor,
        next_cursor(RoutingPolicy::FillFirst, cursor) == cursor,
        exists|turn: usize|
            cursor <= turn < cursor + candidates.len() && #[trigger] picked(
                RoutingPolicy::RoundRobin,
                candidates,
                turn,
                candidates[i].account_id@,
            ),
{
    let n = candidates.len() as int;
    let at = cursor as int % n;
    let step = if i >= at {
        i - at
    } else {
        i - at + n
    };
    let turn: usize = (cursor + step) as usize;
    assert((cursor + step) % n == i) by {
        vstd::arithmetic::div_mod::lemma_fundamental_div_mod(cursor as int, n);
        let q = cursor as int / n;
        assert(cursor == n * q + at);
        if i >= at {
            assert(cursor + step == q * n + i) by (nonlinear_arith)
                requires
                    cursor == n * q + at,
                    step == i - at,
            ;
            vstd::arithmetic::div_mod::lemma_fundamental_div_mod_converse(
                cursor + step,
                n,
                q,
                i,
            );
        } else {
            assert(cursor + step == (q + 1) * n + i) by (nonlinear_arith)
                requires
                    cursor == n * q + at,
                    step == i - at + n,
            ;
            vstd::arithmetic::div_mod::lemma_fundamental_div_mod_converse(
                cursor + step,
                n,
                q + 1,
                i,
            );
        }
    }
    assert(picked(RoutingPolicy::RoundRobin, candidates, turn, candidates[i].account_id@));
}

/// A label or an address that is nothing but spaces is none, and any other is known without the
/// spaces around it.
pub proof fn bare_metadata_is_none(text: Seq<char>)
    ensures
        metadata(None) is None,
        metadata(Some(text)) is None <==> forall|i: int|
            0 <= i < text.len() ==> is_space(#[trigger] text[i]),
        metadata(Some(text)) matches Some(known) ==> known == trimmed(text) && known.len() > 0
            && !is_space(known[0]) && !is_space(known.last()),
{
    trimming_takes_spaces_off(text);
    let (from, to) = choose|from: int, to: int|
        {
            &&& 0 <= from <= to <= text.len()
            &&& trimmed(text) == #[trigger] text.subrange(from, to)
            &&& forall|i: int| 0 <= i < from || to <= i < text.len() ==> is_space(#[trigger] text[i])
        };
    if trimmed(text).len() > 0 {
        assert(trimmed(text)[0] == text[from]);
    }
}

/// What an account file could not be moved for is added once to what is known of its account.
pub proof fn trash_failures_are_added_once(current: Option<Seq<char>>, error: Seq<char>)
    ensures
        ({
            let noted = with_trash_failure(current, error);
            &&& has_text(noted, "move invalid account file to trash failed: "@ + error)
            &&& current is Some ==> begins_with(noted, current->0)
            &&& with_trash_failure(Some(noted), error) == noted
        }),
{
    let noted = with_trash_failure(current, error);
    let suffix = "move invalid account file to trash failed: "@ + error;
    match current {
        Some(text) => {
            if !has_text(text, suffix) {
                found_texts_stand_somewhere(text + "; "@, suffix, Seq::empty(), noted);
                assert(text + "; "@ + suffix + Seq::<char>::empty() =~= noted);
            }
            assert(noted.subrange(0, text.len() as int) =~= text);
        },
        None => {
            found_texts_stand_somewhere(Seq::empty(), suffix, Seq::empty(), noted);
            assert(Seq::<char>::empty() + suffix + Seq::<char>::empty() =~= noted);
        },
    }
}

/// A change of a block is carried out as it is asked for: none leaves the block, a lift leaves none, a
/// block for good has no end, and a timed one shortens none that holds.
pub proof fn blocks_change_as_asked(
    record: AccountRecord,
    now: Timestamp,
    reason: BlockedReason,
    source: BlockedSource,
    until: Timestamp,
)
    ensures
        transitioned(record, now, BlockTransition::NoChange) == record,
        ({
            let after = transitioned(record, now, BlockTransition::Clear);
            after.blocked_reason is None && after.blocked_source is None && after.blocked_until is None
        }),
        ({
            let after = transitioned(record, now, BlockTransition::Permanent { reason, source });
            &&& after.blocked_reason == Some(reason) && after.blocked_source == Some(source)
            &&& after.blocked_until is None
        }),
        ({
            let after = transitioned(
                record,
                now,
                BlockTransition::Timed(RetryableBlock { reason, source, until }),
            );
            let longer = block_active(record, now) && (record.blocked_until is None
                || record.blocked_until->0.nanos > until.nanos);
            &&& longer ==> after == record
            &&& !longer ==> after.blocked_reason == Some(reason) && after.blocked_source == Some(
                source,
            ) && after.blocked_until == Some(until)
        }),
{
}

/// A report on waking lists every account once, in the order of their ids.
pub proof fn reports_list_everyone_once(
    records: Map<Seq<char>, AccountRecord>,
    result: WakeAllResult,
    id: Seq<char>,
    i: int,
    j: int,
)
    requires
        wake_report(records, result),
    ensures
        records.contains_key(id) ==> exists|k: int|
            0 <= k < result.accounts@.len() && #[trigger] result.accounts@[k].account.id@ == id,
        0 <= i < j < result.accounts@.len() ==> text_before(
            result.accounts@[i].account.id@,
            result.accounts@[j].account.id@,
        ),
{
}

/// A list of accounts shows every account once, as it is, in the order of their ids.
pub proof fn lists_show_everyone_once(
    records: Map<Seq<char>, AccountRecord>,
    views: Seq<AccountView>,
    id: Seq<char>,
    i: int,
    j: int,
)
    requires
        lists(records, views),
    ensures
        records.contains_key(id) ==> exists|k: int|
            0 <= k < views.len() && #[trigger] views[k].id@ == id,
        0 <= i < views.len() ==> records.contains_key(views[i].id@) && views[i] == shown(
            records[views[i].id@],
        ),
        0 <= i < j < views.len() ==> text_before(views[i].id@, views[j].id@),
{
}

/// The accounts among which one is picked stand in the order of their ids, with the requests that are
/// under way and the time of the last pick as they are.
pub proof fn candidates_stand_in_order(
    records: Map<Seq<char>, AccountRecord>,
    excluded: Seq<String>,
    now: Timestamp,
    candidates: Seq<RouteCandidate>,
    i: int,
    j: int,
)
    requires
        are_candidates(records, excluded, now, candidates),
        0 <= i < candidates.len(),
    ensures
        ({
            let id = candidates[i].account_id@;
            &&& records.contains_key(id)
            &&& eligible(records[id], now)
            &&& !listed(excluded, id)
            &&& candidates[i].in_flight_requests == records[id].in_flight_requests
            &&& candidates[i].last_selected_at == records[id].last_selected_at
            &&& i < j < candidates.len() ==> text_before(id, candidates[j].account_id@)
        }),
{
}

/// A refresh that is refused loses the account: it is marked as lost, and its file is to be moved to
/// the trash. Any other failure of a refresh is one like any failure of a request, and asks for
/// nothing on disk.
pub proof fn refused_refreshes_lose_the_account(
    before: AccountStore,
    after: Map<Seq<char>, AccountRecord>,
    id: Seq<char>,
    failure: FailureClass,
    retry_after: Option<Delay>,
    details: String,
    result: Result<Option<AuthInvalidPlan>, UnknownAccount>,
)
    requires
        notes_failed_refresh(before, after, id, failure, retry_after, details, result),
        before.map().contains_key(id),
        !before.map()[id].detached,
    ensures
        result is Ok,
        after.contains_key(id),
        failure == FailureClass::AuthInvalid ==> {
            &&& result->Ok_0 is Some
            &&& result->Ok_0->0.account_id@ == id
            &&& result->Ok_0->0.trash_op == Some(
                AccountDiskOp::MoveToTrash {
                    source: before.map()[id].file_path,
                    accounts_dir: before.accounts_dir,
                },
            )
            &&& after[id].routing_state == RoutingState::AuthInvalid
            &&& after[id].auth_invalid_tombstone
            &&& after[id].access_token is None
        },
        failure != FailureClass::AuthInvalid ==> {
            &&& result->Ok_0 is None
            &&& after[id].auth_invalid_tombstone == before.map()[id].auth_invalid_tombstone
            &&& exists|now: Timestamp|
                in_calendar(now) && after[id] == #[trigger] after_failure(
                    before.map()[id],
                    now,
                    failure,
                    retry_after,
                    details,
                )
        },
        forall|other: Seq<char>|
            other != id && #[trigger] before.map().contains_key(other) ==> after.contains_key(other)
                && after[other] == before.map()[other],
{
    if failure != FailureClass::AuthInvalid {
        let now = choose|now: Timestamp| #[trigger]
            in_calendar(now) && after == changed(
                before.map(),
                id,
                |record: AccountRecord| after_failure(record, now, failure, retry_after, details),
            );
        assert(after[id] == after_failure(before.map()[id], now, failure, retry_after, details));
    }
}

/// A block holds up to its end, and one without an end for good.
pub proof fn blocks_hold_up_to_their_end(record: AccountRecord, now: Timestamp)
    ensures
        record.blocked_until matches Some(until) ==> (block_active(record, now) <==> now.nanos
            < until.nanos),
        record.blocked_until is None ==> (block_active(record, now) <==> record.blocked_reason
            is Some),
{
}

/// Each id of a list is listed, and no other.
pub proof fn ids_of_a_list_are_listed(ids: Seq<String>, id: Seq<char>, i: int)
    ensures
        0 <= i < ids.len() ==> listed(ids, ids[i]@),
        listed(ids, id) ==> exists|k: int| 0 <= k < ids.len() && #[trigger] ids[k]@ == id,
{
    if 0 <= i < ids.len() {
        assert(ids[i]@ == ids[i]@);
    }
}

/// A pool with an account that could take a request is not blocked, nor one in which nothing is
/// waited for. Any other is.
pub proof fn free_pools_are_not_blocked(
    records: Map<Seq<char>, AccountRecord>,
    excluded: Seq<String>,
    now: Timestamp,
    summary: Option<PoolBlockSummary>,
    id: Seq<char>,
)
    requires
        summarizes(records, excluded, now, summary),
        records.contains_key(id),
        !records[id].detached,
        records[id].routing_state != RoutingState::AuthInvalid,
        !listed(excluded, id),
    ensures
        !records[id].refresh_in_flight && !block_active(records[id], now) ==> summary is None,
        summary is None && (records[id].refresh_in_flight || records[id].blocked_reason is Some)
            ==> exists|other: Seq<char>|
            {
                &&& #[trigger] records.contains_key(other)
                &&& !records[other].detached
                &&& records[other].routing_state != RoutingState::AuthInvalid
                &&& !listed(excluded, other)
                &&& !records[other].refresh_in_flight
                &&& !block_active(records[other], now)
            },
{
    assert(routeable(records, excluded, id));
    if summary is None && (records[id].refresh_in_flight || records[id].blocked_reason is Some) {
        let other = choose|other: Seq<char>| #[trigger]
            routeable(records, excluded, other) && free(records[other], now);
        assert(records.contains_key(other));
    }
}

/// The account that is picked comes with its own token, and only that account changes by the pick,
/// but that blocks that are over are lifted.
pub proof fn picks_change_one_account(
    before: AccountStore,
    after: AccountStore,
    policy: RoutingPolicy,
    skew_seconds: i64,
    excluded: Seq<String>,
    now: Timestamp,
    candidates: Seq<RouteCandidate>,
    selection: AccountSelection,
    other: Seq<char>,
)
    requires
        selects(before, after, policy, skew_seconds, excluded, now, candidates, Ok(selection)),
    ensures
        ({
            let id = selection.account_id@;
            let record = after_expiry(before.map()[id], now);
            &&& after.map().contains_key(id)
            &&& before.map().contains_key(id) ==> selection.refresh_token == record.refresh_token
                && (selection.needs_refresh <==> needs_refresh(record, now, skew_seconds))
                && after.map()[id] == after_selection(record, now, skew_seconds)
            &&& other != id ==> (after.map().contains_key(other) <==> before.map().contains_key(
                other,
            ))
            &&& other != id && before.map().contains_key(other) ==> after.map()[other]
                == after_expiry(before.map()[other], now)
            &&& after.accounts_dir == before.accounts_dir
        }),
{
}

proof fn lemma_order_goes_on(
    policy: RoutingPolicy,
    a: RouteCandidate,
    b: RouteCandidate,
    c: RouteCandidate,
)
    requires
        !goes_before(policy, b, a),
        !goes_before(policy, c, b),
    ensures
        !goes_before(policy, c, a),
{
    crate::text::text_order_is_total(a.account_id@, b.account_id@);
    crate::text::text_order_is_total(b.account_id@, c.account_id@);
    if text_before(c.account_id@, a.account_id@) && text_before(a.account_id@, b.account_id@) {
        crate::text::text_order_is_transitive(c.account_id@, a.account_id@, b.account_id@);
    }
}

proof fn lemma_some_first(policy: RoutingPolicy, candidates: Seq<RouteCandidate>, n: int) -> (at: int)
    requires
        0 < n <= candidates.len(),
    ensures
        0 <= at < n,
        forall|j: int|
            0 <= j < n ==> !goes_before(policy, #[trigger] candidates[j], candidates[at]),
    decreases n,
{
    let last = n - 1;
    crate::text::text_order_is_irreflexive(candidates[last].account_id@);
    if n == 1 {
        last
    } else {
        let at = lemma_some_first(policy, candidates, last);
        if goes_before(policy, candidates[last], candidates[at]) {
            assert(!goes_before(policy, candidates[at], candidates[last])) by {
                crate::text::text_order_is_irreflexive(candidates[at].account_id@);
                if text_before(candidates[at].account_id@, candidates[last].account_id@)
                    && text_before(candidates[last].account_id@, candidates[at].account_id@) {
                    crate::text::text_order_is_transitive(
                        candidates[at].account_id@,
                        candidates[last].account_id@,
                        candidates[at].account_id@,
                    );
                }
            }
            assert forall|j: int| 0 <= j < n implies !goes_before(
                policy,
                #[trigger] candidates[j],
                candidates[last],
            ) by {
                if j < last {
                    lemma_order_goes_on(policy, candidates[last], candidates[at], candidates[j]);
                }
            }
            last
        } else {
            at
        }
    }
}

/// Whatever the policy is, one of the candidates is picked where there are any.
pub proof fn some_candidate_is_picked(
    policy: RoutingPolicy,
    candidates: Seq<RouteCandidate>,
    cursor: usize,
)
    requires
        candidates.len() > 0,
    ensures
        exists|i: int|
            0 <= i < candidates.len() && picked(
                policy,
                candidates,
                cursor,
                #[trigger] candidates[i].account_id@,
            ),
{
    if policy == RoutingPolicy::RoundRobin {
        let i = cursor as int % candidates.len() as int;
        assert(picked(policy, candidates, cursor, candidates[i].account_id@));
    } else {
        let i = lemma_some_first(policy, candidates, candidates.len() as int);
        assert(candidates[i].account_id@ == candidates[i].account_id@);
        assert(picked(policy, candidates, cursor, candidates[i].account_id@));
    }
}

}
