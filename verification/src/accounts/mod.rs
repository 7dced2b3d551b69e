//! The pool of accounts: its records, what blocks them and how a failure changes them.
use crate::classifier::FailureClass;
use crate::text::trim;
use crate::text::trimmed;
use crate::time::{in_calendar, utc_now, Delay, Timestamp};
use vstd::prelude::*;

pub mod disk;
pub mod disk_laws;
pub mod laws;
pub mod lifecycle;
pub mod selection;
pub mod state_laws;
pub mod store;
pub mod sync;
pub mod sync_laws;


verus! {

/// How long a failed account rests, in seconds.
pub const TEMPORARY_FAILURE_COOLDOWN_SECONDS: u64 = 60;

/// How long an account under risk control rests, in seconds.
pub const RISK_COOLDOWN_SECONDS: u64 = 1800;

/// The longest rest that the gateway imposes by itself, in seconds.
pub const LOCAL_BACKOFF_MAX_SECONDS: u64 = 1800;

/// What an import without a token is refused with.
pub const INVALID_REFRESH_TOKEN_MESSAGE: &'static str = "refresh_token must not be empty";

#[derive(Debug, Clone, Copy, PartialEq, Eq, Structural)]
pub enum RoutingState {
    Cold,
    Ready,
    Warming,
    Cooldown,
    RiskControlled,
    TemporarilyUnavailable,
    AuthInvalid,
}

#[derive(Debug, Clone, Copy, PartialEq, Eq, Structural)]
pub enum BlockedReason {
    RateLimited,
    QuotaExhausted,
    RiskControlled,
    TemporarilyUnavailable,
    AuthInvalid,
}

#[derive(Debug, Clone, Copy, PartialEq, Eq, Structural)]
pub enum BlockedSource {
    UpstreamRetryAfter,
    LocalBackoff,
    FixedPolicy,
}

/// The file of an account: a directory and a file name in it.
#[derive(Debug, Clone, PartialEq, Eq)]
pub struct AccountPath {
    pub dir: String,
    pub name: String,
}

/// An account in memory.
#[derive(Debug, Clone)]
pub struct AccountRecord {
    pub id: String,
    pub file_path: AccountPath,
    pub label: Option<String>,
    pub email: Option<String>,
    pub refresh_token: String,
    pub access_token: Option<String>,
    pub account_id: Option<String>,
    pub plan_type: Option<String>,
    pub access_token_expires_at: Option<Timestamp>,
    pub last_refresh_at: Option<Timestamp>,
    pub routing_state: RoutingState,
    pub blocked_reason: Option<BlockedReason>,
    pub blocked_source: Option<BlockedSource>,
    pub blocked_until: Option<Timestamp>,
    pub local_backoff_level: u32,
    pub refresh_in_flight: bool,
    pub in_flight_requests: u32,
    pub last_selected_at: Option<Timestamp>,
    pub last_success_at: Option<Timestamp>,
    pub last_error_at: Option<Timestamp>,
    pub last_error: Option<String>,
    pub auth_invalid_tombstone: bool,
    pub detached: bool,
}

/// An account that was picked for a request.
#[derive(Debug, Clone)]
pub struct AccountSelection {
    pub account_id: String,
    pub refresh_token: String,
    pub needs_refresh: bool,
}

/// Why no account was picked.
#[derive(Debug, Clone, Copy, PartialEq, Eq, Structural)]
pub enum SelectionFailure {
    NoEligibleAccount,
}

/// What an account file holds.
#[derive(Debug, Clone, PartialEq, Eq)]
pub struct AccountFile {
    pub refresh_token: String,
    pub label: Option<String>,
    pub email: Option<String>,
}

/// What is to be done on disk for a change in memory.
#[derive(Debug, Clone, PartialEq, Eq)]
pub enum AccountDiskOp {
    Write { path: AccountPath, disk: AccountFile },
    Remove { path: AccountPath },
    MoveToTrash { source: AccountPath, accounts_dir: String },
}

/// The outcome of a token refresh.
#[derive(Debug, Clone)]
pub struct RefreshedAccount {
    pub access_token: String,
    pub refresh_token: Option<String>,
    pub account_id: Option<String>,
    pub plan_type: Option<String>,
    pub email: Option<String>,
    pub access_token_expires_at: Option<Timestamp>,
}

#[derive(Debug, Clone, PartialEq, Eq)]
pub struct RefreshSuccessResult {
    pub persist_warning: Option<String>,
}

/// The first half of an account's loss of authorization: what is still to be done on disk.
#[derive(Debug, Clone)]
pub struct AuthInvalidPlan {
    pub account_id: String,
    pub trash_op: Option<AccountDiskOp>,
}

/// What the gateway shows of an account.
#[derive(Debug, Clone, PartialEq, Eq)]
pub struct AccountView {
    pub id: String,
    pub label: Option<String>,
    pub email: Option<String>,
    pub routing_state: RoutingState,
    pub blocked_reason: Option<BlockedReason>,
    pub blocked_source: Option<BlockedSource>,
    pub blocked_until: Option<Timestamp>,
    pub account_id: Option<String>,
    pub plan_type: Option<String>,
    pub refresh_in_flight: bool,
    pub in_flight_requests: u32,
    pub access_token_expires_at: Option<Timestamp>,
    pub last_refresh_at: Option<Timestamp>,
    pub last_selected_at: Option<Timestamp>,
    pub last_success_at: Option<Timestamp>,
    pub last_error_at: Option<Timestamp>,
    pub last_error: Option<String>,
}

#[derive(Debug, Clone, Copy, PartialEq, Eq, Structural)]
pub enum WakeDisposition {
    Woken,
    SkippedAuthInvalid,
}

#[derive(Debug, Clone)]
pub struct WakeAccountResult {
    pub disposition: WakeDisposition,
    pub account: AccountView,
}

#[derive(Debug, Clone)]
pub struct WakeAllResult {
    pub woken: usize,
    pub skipped_auth_invalid: usize,
    pub accounts: Vec<WakeAccountResult>,
}

/// What a request upstream needs of an account.
#[derive(Debug, Clone)]
pub struct UpstreamAccount {
    pub access_token: String,
    pub chatgpt_account_id: Option<String>,
}

#[derive(Debug, Clone, Copy, PartialEq, Eq, Structural)]
pub enum UpstreamAccountError {
    MissingRecord,
    MissingAccessToken,
}

/// Why no account of the pool can take a request now.
#[derive(Debug, Clone, Copy, PartialEq, Eq, Structural)]
pub struct PoolBlockSummary {
    pub blocked_reason: BlockedReason,
    pub blocked_until: Option<Timestamp>,
    pub retry_after: Option<Delay>,
}

/// The pool of accounts. Its records stand in the order of their ids.
#[derive(Debug)]
pub struct AccountStore {
    pub accounts_dir: String,
    pub records: Vec<AccountRecord>,
    pub round_robin_cursor: usize,
}

/// No account has the id that was asked for.
#[derive(Debug, Clone, PartialEq, Eq)]
pub struct UnknownAccount {
    pub account_id: String,
}

impl UnknownAccount {
    /// What is shown of this error.
    pub fn message(&self) -> (text: String)
        ensures
            text@ == "unknown account "@ + self.account_id@,
    {
        let mut text: String = "unknown account ".to_owned();
        text.append(self.account_id.as_str());
        text
    }
}

/// Is the record blocked at `now`? A block without an end holds until it is lifted.
pub open spec fn block_active(record: AccountRecord, now: Timestamp) -> bool {
    match record.blocked_until {
        Some(until) => until.nanos > now.nanos,
        None => record.blocked_reason is Some,
    }
}

/// The state of a record that nothing keeps from being used.
pub open spec fn resting_state(record: AccountRecord) -> RoutingState {
    if record.access_token is Some {
        RoutingState::Ready
    } else {
        RoutingState::Cold
    }
}

/// The record with these block fields and no other change.
pub open spec fn with_block(
    record: AccountRecord,
    reason: Option<BlockedReason>,
    source: Option<BlockedSource>,
    until: Option<Timestamp>,
) -> AccountRecord {
    AccountRecord {
        blocked_reason: reason,
        blocked_source: source,
        blocked_until: until,
        ..record
    }
}

/// Does a block up to `until` take the place of the record's own? An active block gives way only
/// to one that lasts at least as long; one without an end never does.
pub open spec fn yields_to(record: AccountRecord, now: Timestamp, until: Timestamp) -> bool {
    !block_active(record, now) || match record.blocked_until {
        Some(existing) => until.nanos >= existing.nanos,
        None => false,
    }
}

/// The record after a block with an end was asked for.
pub open spec fn timed_block(
    record: AccountRecord,
    now: Timestamp,
    reason: BlockedReason,
    source: BlockedSource,
    until: Timestamp,
) -> AccountRecord {
    if yields_to(record, now, until) {
        with_block(record, Some(reason), Some(source), Some(until))
    } else {
        record
    }
}

/// The instant `delay` after `now`.
pub open spec fn after(now: Timestamp, delay: Delay) -> Timestamp {
    Timestamp { nanos: (now.nanos + delay.nanos) as i128 }
}

/// The instant `seconds` after `now`.
pub open spec fn seconds_after(now: Timestamp, seconds: int) -> Timestamp {
    Timestamp { nanos: (now.nanos + seconds * 1_000_000_000) as i128 }
}

/// The rest after `level` failures in a row, in seconds: it doubles with each, up to a limit.
pub open spec fn backoff_seconds(level: nat) -> nat
    decreases level,
{
    if level == 0 {
        1
    } else {
        let doubled = 2 * backoff_seconds((level - 1) as nat);
        if doubled < LOCAL_BACKOFF_MAX_SECONDS as nat {
            doubled
        } else {
            LOCAL_BACKOFF_MAX_SECONDS as nat
        }
    }
}

/// The record after a failure that may be tried again: the upstream's own delay counts, and
/// without one the gateway's, which grows from failure to failure.
pub open spec fn retryable_block(
    record: AccountRecord,
    now: Timestamp,
    reason: BlockedReason,
    retry_after: Option<Delay>,
) -> AccountRecord {
    match retry_after {
        Some(delay) => timed_block(
            record,
            now,
            reason,
            BlockedSource::UpstreamRetryAfter,
            after(now, delay),
        ),
        None => timed_block(
            AccountRecord {
                local_backoff_level: if record.local_backoff_level == u32::MAX {
                    u32::MAX
                } else {
                    (record.local_backoff_level + 1) as u32
                },
                ..record
            },
            now,
            reason,
            BlockedSource::LocalBackoff,
            seconds_after(now, backoff_seconds(record.local_backoff_level as nat) as int),
        ),
    }
}

/// The record after a block of a fixed length was asked for.
pub open spec fn fixed_block(
    record: AccountRecord,
    now: Timestamp,
    reason: BlockedReason,
    seconds: u64,
) -> AccountRecord {
    timed_block(
        record,
        now,
        reason,
        BlockedSource::FixedPolicy,
        seconds_after(now, seconds as int),
    )
}

/// The record after it lost its authorization.
pub open spec fn auth_invalid_block(record: AccountRecord) -> AccountRecord {
    with_block(
        record,
        Some(BlockedReason::AuthInvalid),
        Some(BlockedSource::FixedPolicy),
        None,
    )
}

/// The record with one request less under way.
pub open spec fn one_less_in_flight(record: AccountRecord) -> AccountRecord {
    AccountRecord {
        in_flight_requests: if record.in_flight_requests == 0 {
            0
        } else {
            (record.in_flight_requests - 1) as u32
        },
        ..record
    }
}

/// The record without an access token.
pub open spec fn without_token(record: AccountRecord) -> AccountRecord {
    AccountRecord { access_token: None, access_token_expires_at: None, ..record }
}

/// The record with this state and no other change.
pub open spec fn in_state(record: AccountRecord, state: RoutingState) -> AccountRecord {
    AccountRecord { routing_state: state, ..record }
}

/// A delay that the calendar can take.
pub open spec fn fits(retry_after: Option<Delay>) -> bool {
    match retry_after {
        Some(delay) => delay.nanos <= 9_223_372_036_854_775_807_000_000,
        None => true,
    }
}

/// The record after a failure.
pub open spec fn after_failure(
    record: AccountRecord,
    now: Timestamp,
    failure: FailureClass,
    retry_after: Option<Delay>,
    details: String,
) -> AccountRecord {
    let noted = AccountRecord {
        refresh_in_flight: false,
        last_error_at: Some(now),
        last_error: Some(details),
        ..one_less_in_flight(record)
    };
    match failure {
        FailureClass::AccessTokenRejected => fixed_block(
            in_state(without_token(noted), RoutingState::TemporarilyUnavailable),
            now,
            BlockedReason::TemporarilyUnavailable,
            TEMPORARY_FAILURE_COOLDOWN_SECONDS,
        ),
        FailureClass::AuthInvalid => auth_invalid_block(
            in_state(without_token(noted), RoutingState::AuthInvalid),
        ),
        FailureClass::RateLimited => in_state(
            retryable_block(noted, now, BlockedReason::RateLimited, retry_after),
            RoutingState::Cooldown,
        ),
        FailureClass::QuotaExhausted => in_state(
            retryable_block(noted, now, BlockedReason::QuotaExhausted, retry_after),
            RoutingState::Cooldown,
        ),
        FailureClass::RiskControlled => fixed_block(
            in_state(noted, RoutingState::RiskControlled),
            now,
            BlockedReason::RiskControlled,
            RISK_COOLDOWN_SECONDS,
        ),
        FailureClass::TemporaryFailure => {
            let unavailable = in_state(noted, RoutingState::TemporarilyUnavailable);
            if retry_after is Some {
                retryable_block(
                    unavailable,
                    now,
                    BlockedReason::TemporarilyUnavailable,
                    retry_after,
                )
            } else {
                fixed_block(
                    unavailable,
                    now,
                    BlockedReason::TemporarilyUnavailable,
                    TEMPORARY_FAILURE_COOLDOWN_SECONDS,
                )
            }
        },
        FailureClass::RequestRejected | FailureClass::InternalFailure => {
            if !block_active(noted, now) && noted.routing_state != RoutingState::AuthInvalid {
                in_state(noted, resting_state(noted))
            } else {
                noted
            }
        },
    }
}

/// A block that is asked for, with its end.
#[derive(Debug, Clone, Copy, PartialEq, Eq, Structural)]
pub struct RetryableBlock {
    pub reason: BlockedReason,
    pub source: BlockedSource,
    pub until: Timestamp,
}

/// A change of the block fields.
#[derive(Debug, Clone, Copy, PartialEq, Eq, Structural)]
pub enum BlockTransition {
    NoChange,
    Clear,
    Permanent { reason: BlockedReason, source: BlockedSource },
    Timed(RetryableBlock),
}

/// The record after a change of its block fields.
pub open spec fn transitioned(
    record: AccountRecord,
    now: Timestamp,
    transition: BlockTransition,
) -> AccountRecord {
    match transition {
        BlockTransition::NoChange => record,
        BlockTransition::Clear => with_block(record, None, None, None),
        BlockTransition::Permanent { reason, source } => with_block(
            record,
            Some(reason),
            Some(source),
            None,
        ),
        BlockTransition::Timed(block) => timed_block(
            record,
            now,
            block.reason,
            block.source,
            block.until,
        ),
    }
}

/// Is the record blocked at `now`?
pub fn has_active_block_at(record: &AccountRecord, now: Timestamp) -> (active: bool)
    ensures
        active == block_active(*record, now),
{
    match record.blocked_until {
        Some(until) => until.nanos > now.nanos,
        None => record.blocked_reason.is_some(),
    }
}

/// Changes the block fields of a record. No other function writes them, so an active block gives
/// way under one rule on every path.
pub fn apply_block_transition(
    record: &mut AccountRecord,
    now: Timestamp,
    transition: BlockTransition,
)
    ensures
        *final(record) == transitioned(*old(record), now, transition),
{
    match transition {
        BlockTransition::NoChange => {},
        BlockTransition::Clear => {
            record.blocked_reason = None;
            record.blocked_source = None;
            record.blocked_until = None;
        },
        BlockTransition::Permanent { reason, source } => {
            record.blocked_reason = Some(reason);
            record.blocked_source = Some(source);
            record.blocked_until = None;
        },
        BlockTransition::Timed(candidate) => {
            let replace: bool = match record.blocked_until {
                Some(existing) => if existing.nanos > now.nanos {
                    candidate.until.nanos >= existing.nanos
                } else {
                    true
                },
                None => !has_active_block_at(record, now),
            };
            if replace {
                record.blocked_reason = Some(candidate.reason);
                record.blocked_source = Some(candidate.source);
                record.blocked_until = Some(candidate.until);
            }
        },
    }
}

/// Lifts the block of a record.
pub fn clear_block(record: &mut AccountRecord)
    ensures
        *final(record) == with_block(*old(record), None, None, None),
{
    apply_block_transition(record, utc_now(), BlockTransition::Clear);
}

/// Blocks a record for good.
pub fn apply_auth_invalid_block(record: &mut AccountRecord)
    ensures
        *final(record) == auth_invalid_block(*old(record)),
{
    apply_block_transition(
        record,
        utc_now(),
        BlockTransition::Permanent {
            reason: BlockedReason::AuthInvalid,
            source: BlockedSource::FixedPolicy,
        },
    );
}

/// The rest after `level` failures in a row.
pub fn next_local_backoff(level: u32) -> (delay: Delay)
    ensures
        delay.nanos == backoff_seconds(level as nat) * 1_000_000_000,
        backoff_seconds(level as nat) <= LOCAL_BACKOFF_MAX_SECONDS,
{
    let mut seconds: u64 = 1;
    let mut at: u32 = 0;
    while at < level && seconds < LOCAL_BACKOFF_MAX_SECONDS
        invariant
            at <= level,
            seconds == backoff_seconds(at as nat),
            seconds <= LOCAL_BACKOFF_MAX_SECONDS,
        decreases level - at,
    {
        at = at + 1;
        let doubled: u64 = 2 * seconds;
        seconds = if doubled < LOCAL_BACKOFF_MAX_SECONDS {
            doubled
        } else {
            LOCAL_BACKOFF_MAX_SECONDS
        };
    }
    proof {
        lemma_backoff_stays(at as nat, level as nat);
    }
    Delay::from_secs(seconds)
}

/// Once at its limit, the rest stays there.
proof fn lemma_backoff_stays(at: nat, level: nat)
    requires
        at <= level,
        at == level || backoff_seconds(at) == LOCAL_BACKOFF_MAX_SECONDS,
    ensures
        backoff_seconds(at) == backoff_seconds(level),
    decreases level,
{
    if at < level {
        lemma_backoff_stays(at, (level - 1) as nat);
    }
}

/// The block that a failure which may be tried again asks for.
pub fn build_retryable_block(
    record: &mut AccountRecord,
    now: Timestamp,
    reason: BlockedReason,
    retry_after: Option<Delay>,
) -> (block: RetryableBlock)
    requires
        in_calendar(now),
        fits(retry_after),
    ensures
        transitioned(*final(record), now, BlockTransition::Timed(block)) == retryable_block(
            *old(record),
            now,
            reason,
            retry_after,
        ),
        block.reason == reason,
        block.source == if retry_after is Some {
            BlockedSource::UpstreamRetryAfter
        } else {
            BlockedSource::LocalBackoff
        },
{
    if let Some(delay) = retry_after {
        return RetryableBlock {
            reason,
            source: BlockedSource::UpstreamRetryAfter,
            until: Timestamp { nanos: now.nanos + (delay.nanos as i128) },
        };
    }
    let cooldown: Delay = next_local_backoff(record.local_backoff_level);
    record.local_backoff_level = record.local_backoff_level.saturating_add(1);
    RetryableBlock {
        reason,
        source: BlockedSource::LocalBackoff,
        until: Timestamp { nanos: now.nanos + (cooldown.nanos as i128) },
    }
}

/// Blocks a record after a failure that may be tried again.
pub fn apply_retryable_block(
    record: &mut AccountRecord,
    now: Timestamp,
    reason: BlockedReason,
    retry_after: Option<Delay>,
)
    requires
        in_calendar(now),
        fits(retry_after),
    ensures
        *final(record) == retryable_block(*old(record), now, reason, retry_after),
{
    let candidate: RetryableBlock = build_retryable_block(record, now, reason, retry_after);
    apply_block_transition(record, now, BlockTransition::Timed(candidate));
}

/// Blocks a record for a fixed time.
pub fn apply_fixed_block(
    record: &mut AccountRecord,
    now: Timestamp,
    reason: BlockedReason,
    seconds: u64,
)
    requires
        in_calendar(now),
    ensures
        *final(record) == fixed_block(*old(record), now, reason, seconds),
{
    let candidate: RetryableBlock = RetryableBlock {
        reason,
        source: BlockedSource::FixedPolicy,
        until: Timestamp { nanos: now.nanos + (seconds as i128) * 1_000_000_000 },
    };
    apply_block_transition(record, now, BlockTransition::Timed(candidate));
}

/// Notes a failure on a record.
pub fn fail_record(
    record: &mut AccountRecord,
    now: Timestamp,
    failure: FailureClass,
    retry_after: Option<Delay>,
    details: String,
)
    requires
        in_calendar(now),
        fits(retry_after),
    ensures
        *final(record) == after_failure(*old(record), now, failure, retry_after, details),
{
    record.in_flight_requests = record.in_flight_requests.saturating_sub(1);
    record.refresh_in_flight = false;
    record.last_error_at = Some(now);
    record.last_error = Some(details);
    match failure {
        FailureClass::AccessTokenRejected => {
            record.access_token = None;
            record.access_token_expires_at = None;
            record.routing_state = RoutingState::TemporarilyUnavailable;
            apply_fixed_block(
                record,
                now,
                BlockedReason::TemporarilyUnavailable,
                TEMPORARY_FAILURE_COOLDOWN_SECONDS,
            );
        },
        FailureClass::AuthInvalid => {
            record.routing_state = RoutingState::AuthInvalid;
            record.access_token = None;
            record.access_token_expires_at = None;
            apply_auth_invalid_block(record);
        },
        FailureClass::RateLimited => {
            apply_retryable_block(record, now, BlockedReason::RateLimited, retry_after);
            record.routing_state = RoutingState::Cooldown;
        },
        FailureClass::QuotaExhausted => {
            apply_retryable_block(record, now, BlockedReason::QuotaExhausted, retry_after);
            record.routing_state = RoutingState::Cooldown;
        },
        FailureClass::RiskControlled => {
            record.routing_state = RoutingState::RiskControlled;
            apply_fixed_block(record, now, BlockedReason::RiskControlled, RISK_COOLDOWN_SECONDS);
        },
        FailureClass::TemporaryFailure => {
            record.routing_state = RoutingState::TemporarilyUnavailable;
            if retry_after.is_some() {
                apply_retryable_block(
                    record,
                    now,
                    BlockedReason::TemporarilyUnavailable,
                    retry_after,
                );
            } else {
                apply_fixed_block(
                    record,
                    now,
                    BlockedReason::TemporarilyUnavailable,
                    TEMPORARY_FAILURE_COOLDOWN_SECONDS,
                );
            }
        },
        FailureClass::RequestRejected | FailureClass::InternalFailure => {
            apply_block_transition(record, now, BlockTransition::NoChange);
            if !has_active_block_at(record, now) && record.routing_state
                != RoutingState::AuthInvalid {
                record.routing_state = if record.access_token.is_some() {
                    RoutingState::Ready
                } else {
                    RoutingState::Cold
                };
            }
        },
    }
}

/// The record after it was woken.
pub open spec fn woken(record: AccountRecord) -> AccountRecord {
    let cleared = with_block(AccountRecord { local_backoff_level: 0, ..record }, None, None, None);
    in_state(
        cleared,
        if record.refresh_in_flight {
            RoutingState::Warming
        } else {
            resting_state(record)
        },
    )
}

/// Has the record lost its authorization?
pub open spec fn lost(record: AccountRecord) -> bool {
    record.routing_state == RoutingState::AuthInvalid || record.blocked_reason == Some(
        BlockedReason::AuthInvalid,
    )
}

/// Lifts the block of a record that has not lost its authorization.
pub fn apply_wake(record: &mut AccountRecord) -> (disposition: WakeDisposition)
    ensures
        lost(*old(record)) ==> disposition == WakeDisposition::SkippedAuthInvalid && *final(record)
            == *old(record),
        !lost(*old(record)) ==> disposition == WakeDisposition::Woken && *final(record) == woken(
            *old(record),
        ),
{
    let invalid: bool = match record.blocked_reason {
        Some(reason) => reason == BlockedReason::AuthInvalid,
        None => false,
    };
    if record.routing_state == RoutingState::AuthInvalid || invalid {
        return WakeDisposition::SkippedAuthInvalid;
    }
    clear_block(record);
    record.local_backoff_level = 0;
    record.routing_state = if record.refresh_in_flight {
        RoutingState::Warming
    } else if record.access_token.is_some() {
        RoutingState::Ready
    } else {
        RoutingState::Cold
    };
    WakeDisposition::Woken
}

/// The place of a reason among blocks that end together.
pub open spec fn reason_rank(reason: BlockedReason) -> u8 {
    match reason {
        BlockedReason::QuotaExhausted => 0,
        BlockedReason::RateLimited => 1,
        BlockedReason::RiskControlled => 2,
        BlockedReason::TemporarilyUnavailable => 3,
        BlockedReason::AuthInvalid => 4,
    }
}

/// The place of a reason among blocks that end together.
pub fn blocked_reason_rank(reason: BlockedReason) -> (rank: u8)
    ensures
        rank == reason_rank(reason),
{
    match reason {
        BlockedReason::QuotaExhausted => 0,
        BlockedReason::RateLimited => 1,
        BlockedReason::RiskControlled => 2,
        BlockedReason::TemporarilyUnavailable => 3,
        BlockedReason::AuthInvalid => 4,
    }
}

/// Does the first block come before the second? The one that ends sooner does, any end comes
/// before none, and the rank of the reasons decides the rest.
pub open spec fn block_before(
    left: (BlockedReason, Option<Timestamp>),
    right: (BlockedReason, Option<Timestamp>),
) -> bool {
    match (left.1, right.1) {
        (Some(a), Some(b)) => a.nanos < b.nanos || (a.nanos == b.nanos && reason_rank(left.0)
            < reason_rank(right.0)),
        (Some(_), None) => true,
        (None, Some(_)) => false,
        (None, None) => reason_rank(left.0) < reason_rank(right.0),
    }
}

/// Does the first block come before the second?
pub fn compare_block_priority(
    left: (BlockedReason, Option<Timestamp>),
    right: (BlockedReason, Option<Timestamp>),
) -> (before: bool)
    ensures
        before == block_before(left, right),
{
    match (left.1, right.1) {
        (Some(a), Some(b)) => a.nanos < b.nanos || (a.nanos == b.nanos && blocked_reason_rank(
            left.0,
        ) < blocked_reason_rank(right.0)),
        (Some(_), None) => true,
        (None, Some(_)) => false,
        (None, None) => blocked_reason_rank(left.0) < blocked_reason_rank(right.0),
    }
}

/// A copy of an optional text.
pub fn copy_text(text: &Option<String>) -> (copy: Option<String>)
    ensures
        copy == *text,
{
    match text {
        Some(text) => Some(text.clone()),
        None => None,
    }
}

/// What is shown of a record.
pub open spec fn shown(record: AccountRecord) -> AccountView {
    AccountView {
        id: record.id,
        label: record.label,
        email: record.email,
        routing_state: record.routing_state,
        blocked_reason: record.blocked_reason,
        blocked_source: record.blocked_source,
        blocked_until: record.blocked_until,
        account_id: record.account_id,
        plan_type: record.plan_type,
        refresh_in_flight: record.refresh_in_flight,
        in_flight_requests: record.in_flight_requests,
        access_token_expires_at: record.access_token_expires_at,
        last_refresh_at: record.last_refresh_at,
        last_selected_at: record.last_selected_at,
        last_success_at: record.last_success_at,
        last_error_at: record.last_error_at,
        last_error: record.last_error,
    }
}

impl AccountView {
    /// What is shown of a record.
    pub fn from(record: &AccountRecord) -> (view: AccountView)
        ensures
            view == shown(*record),
    {
        AccountView {
            id: record.id.clone(),
            label: copy_text(&record.label),
            email: copy_text(&record.email),
            routing_state: record.routing_state,
            blocked_reason: record.blocked_reason,
            blocked_source: record.blocked_source,
            blocked_until: record.blocked_until,
            account_id: copy_text(&record.account_id),
            plan_type: copy_text(&record.plan_type),
            refresh_in_flight: record.refresh_in_flight,
            in_flight_requests: record.in_flight_requests,
            access_token_expires_at: record.access_token_expires_at,
            last_refresh_at: record.last_refresh_at,
            last_selected_at: record.last_selected_at,
            last_success_at: record.last_success_at,
            last_error_at: record.last_error_at,
            last_error: copy_text(&record.last_error),
        }
    }
}

/// What the file of a record holds.
pub open spec fn file_of(record: AccountRecord) -> AccountFile {
    AccountFile { refresh_token: record.refresh_token, label: record.label, email: record.email }
}

/// What the file of a record holds.
pub fn account_file_from_record(record: &AccountRecord) -> (file: AccountFile)
    ensures
        file == file_of(*record),
{
    AccountFile {
        refresh_token: record.refresh_token.clone(),
        label: copy_text(&record.label),
        email: copy_text(&record.email),
    }
}

/// A copy of a path.
pub fn copy_path(path: &AccountPath) -> (copy: AccountPath)
    ensures
        copy == *path,
{
    AccountPath { dir: path.dir.clone(), name: path.name.clone() }
}

/// A copy of what a file holds.
pub fn copy_file(file: &AccountFile) -> (copy: AccountFile)
    ensures
        copy == *file,
{
    AccountFile {
        refresh_token: file.refresh_token.clone(),
        label: copy_text(&file.label),
        email: copy_text(&file.email),
    }
}

/// A token that holds nothing but spaces.
#[derive(Debug, Clone, Copy, PartialEq, Eq, Structural)]
pub struct EmptyRefreshToken;

/// The token without the spaces around it; a token of spaces alone is refused.
pub fn normalize_refresh_token(refresh_token: &str) -> (token: Result<String, EmptyRefreshToken>)
    ensures
        match token {
            Ok(token) => trimmed(refresh_token@).len() > 0 && token@ == trimmed(refresh_token@),
            Err(_) => trimmed(refresh_token@).len() == 0,
        },
{
    let token: String = trim(refresh_token);
    if token.as_str().is_empty() {
        Err(EmptyRefreshToken)
    } else {
        Ok(token)
    }
}

/// A label or address without the spaces around it; nothing where only spaces stand.
pub open spec fn metadata(value: Option<Seq<char>>) -> Option<Seq<char>> {
    match value {
        Some(text) => if trimmed(text).len() == 0 {
            None
        } else {
            Some(trimmed(text))
        },
        None => None,
    }
}

/// The characters of an optional text.
pub open spec fn letters(text: Option<String>) -> Option<Seq<char>> {
    match text {
        Some(text) => Some(text@),
        None => None,
    }
}

/// A label or address without the spaces around it; nothing where only spaces stand.
pub fn normalize_optional_metadata(value: Option<String>) -> (text: Option<String>)
    ensures
        letters(text) == metadata(letters(value)),
{
    match value {
        Some(value) => {
            let text: String = trim(value.as_str());
            if text.as_str().is_empty() {
                None
            } else {
                Some(text)
            }
        },
        None => None,
    }
}

/// Does the access token need to be renewed before it is used at `now`?
pub open spec fn needs_refresh(record: AccountRecord, now: Timestamp, skew_seconds: i64) -> bool {
    match record.access_token_expires_at {
        Some(expires_at) => record.access_token is None || expires_at.nanos <= now.nanos
            + skew_seconds * 1_000_000_000,
        None => true,
    }
}

/// A skew that the calendar can take.
pub open spec fn skew_fits(skew_seconds: i64) -> bool {
    -9_223_372_036_854_775 <= skew_seconds <= 9_223_372_036_854_775
}

/// Does the access token need to be renewed before it is used at `now`?
pub fn token_needs_refresh(
    record: &AccountRecord,
    now: Timestamp,
    skew_seconds: i64,
) -> (needed: bool)
    requires
        in_calendar(now),
        skew_fits(skew_seconds),
    ensures
        needed == needs_refresh(*record, now, skew_seconds),
{
    match record.access_token_expires_at {
        Some(expires_at) => {
            if record.access_token.is_none() {
                return true;
            }
            expires_at.nanos <= now.nanos + (skew_seconds as i128) * 1_000_000_000
        },
        None => true,
    }
}

}
