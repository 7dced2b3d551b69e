//! Serving a request with one account after another.
use crate::accounts::lifecycle::{after_invalidation, after_release, after_success, changed};
use crate::accounts::selection::{are_candidates, selects, summarizes, unexpired};
use crate::accounts::{
    after_failure, fits, skew_fits, AccountRecord, AccountSelection, AccountStore, BlockedReason,
    PoolBlockSummary, SelectionFailure, UpstreamAccount, UpstreamAccountError,
};
use crate::classifier::{classify_request_error, transport_class, FailureClass, TransportError};
use crate::config::RoutingPolicy;
use crate::error_semantics::{
    delay_of, owned_text, resolve_delay, retry_view, RetryAfter, RetryView,
};
use crate::responses::failure::{error_delay_at, error_retry, or_text};
use crate::router::RouteCandidate;
use crate::status::{render_status, status_text};
use crate::text::same_text;
use crate::time::{in_calendar, utc_now, Delay, Timestamp};
use vstd::prelude::*;

verus! {

/// Is an account released as soon as a request succeeded, or by the caller?
#[derive(Debug, Clone, Copy, PartialEq, Eq, Structural)]
pub enum SuccessDisposition {
    ReleaseImmediately,
    HoldUntilCaller,
}

/// What a request did to the account that served it.
#[derive(Debug, Clone, PartialEq, Eq)]
pub enum AccountSettlement {
    Success,
    Release,
    Failure { failure: FailureClass, retry_after: Option<RetryAfter>, details: String },
}

/// The model of a settlement.
pub enum SettlementView {
    Success,
    Release,
    Failure { failure: FailureClass, retry_after: Option<RetryView>, details: Seq<char> },
}

impl View for AccountSettlement {
    type V = SettlementView;

    open spec fn view(&self) -> SettlementView {
        match *self {
            AccountSettlement::Success => SettlementView::Success,
            AccountSettlement::Release => SettlementView::Release,
            AccountSettlement::Failure { failure, retry_after, details } =>
                SettlementView::Failure {
                failure,
                retry_after: retry_view(retry_after),
                details: details@,
            },
        }
    }
}

/// The model of an optional settlement.
pub open spec fn optional_settlement(settlement: Option<AccountSettlement>) -> Option<
    SettlementView,
> {
    match settlement {
        Some(settlement) => Some(settlement@),
        None => None,
    }
}

/// An access token that could not be refreshed.
#[derive(Debug, Clone, PartialEq, Eq)]
pub struct RefreshFailure {
    pub status: u16,
    pub body: String,
    pub class: FailureClass,
    pub retry_after: Option<RetryAfter>,
}

/// Why a request could not be served.
#[derive(Debug)]
pub enum FailoverFailure {
    Refresh(RefreshFailure),
    Transport(TransportError),
    PoolBlocked(PoolBlockSummary),
    CallerJson { status: u16, message: String },
    Internal { status: u16, detail: String },
}

/// Is another account worth a try after a failure of this class?
pub open spec fn worth_another(failure: FailureClass) -> bool {
    match failure {
        FailureClass::RequestRejected | FailureClass::InternalFailure => false,
        _ => true,
    }
}

/// Is another account worth a try after a failure of this class?
pub fn should_failover_failure_class(failure: FailureClass) -> (retryable: bool)
    ensures
        retryable == worth_another(failure),
{
    match failure {
        FailureClass::AccessTokenRejected
        | FailureClass::AuthInvalid
        | FailureClass::RateLimited
        | FailureClass::QuotaExhausted
        | FailureClass::RiskControlled
        | FailureClass::TemporaryFailure => true,
        _ => false,
    }
}

/// The name of a class of failure.
pub open spec fn class_name(failure: FailureClass) -> Seq<char> {
    match failure {
        FailureClass::AccessTokenRejected => "AccessTokenRejected"@,
        FailureClass::AuthInvalid => "AuthInvalid"@,
        FailureClass::RateLimited => "RateLimited"@,
        FailureClass::QuotaExhausted => "QuotaExhausted"@,
        FailureClass::RiskControlled => "RiskControlled"@,
        FailureClass::TemporaryFailure => "TemporaryFailure"@,
        FailureClass::RequestRejected => "RequestRejected"@,
        FailureClass::InternalFailure => "InternalFailure"@,
    }
}

/// The name of a class of failure.
pub fn failure_class_name(failure: FailureClass) -> (name: &'static str)
    ensures
        name@ == class_name(failure),
{
    match failure {
        FailureClass::AccessTokenRejected => "AccessTokenRejected",
        FailureClass::AuthInvalid => "AuthInvalid",
        FailureClass::RateLimited => "RateLimited",
        FailureClass::QuotaExhausted => "QuotaExhausted",
        FailureClass::RiskControlled => "RiskControlled",
        FailureClass::TemporaryFailure => "TemporaryFailure",
        FailureClass::RequestRejected => "RequestRejected",
        FailureClass::InternalFailure => "InternalFailure",
    }
}

/// Why a request failed, in words. `text` is what is shown of an error without an answer.
pub open spec fn failure_reason(
    error: TransportError,
    failure: FailureClass,
    text: Seq<char>,
) -> Seq<char> {
    match error {
        TransportError::Http { status, headers: _, body } => class_name(failure) + ": status="@
            + status_text(status) + " body="@ + or_text(owned_text(body), ""@),
        _ => class_name(failure) + ": "@ + text,
    }
}

/// Why a request failed, in words. `text` is what is shown of an error without an answer.
pub fn extract_failure_reason(error: &TransportError, failure: FailureClass, text: &str) -> (reason:
    String)
    ensures
        reason@ == failure_reason(*error, failure, text@),
{
    let mut reason: String = failure_class_name(failure).to_owned();
    match error {
        TransportError::Http { status, headers: _, body } => {
            reason.append(": status=");
            reason.append(render_status(*status).as_str());
            reason.append(" body=");
            match body {
                Some(body) => reason.append(body.as_str()),
                None => reason.append(""),
            }
        },
        _ => {
            reason.append(": ");
            reason.append(text);
        },
    }
    reason
}

/// The characters of some texts.
pub open spec fn texts(items: Seq<String>) -> Seq<Seq<char>> {
    Seq::new(items.len(), |i: int| items[i]@)
}

/// Accounts with one more among them.
pub open spec fn with_account(tried: Seq<Seq<char>>, account_id: Seq<char>) -> Seq<Seq<char>> {
    if tried.contains(account_id) {
        tried
    } else {
        tried.push(account_id)
    }
}

/// Puts an account among others, once.
pub fn insert_account(accounts: &mut Vec<String>, account_id: &str)
    ensures
        texts(final(accounts)@) == with_account(texts(old(accounts)@), account_id@),
{
    let ghost before = texts(accounts@);
    let mut i: usize = 0;
    while i < accounts.len()
        invariant
            i <= accounts.len(),
            before == texts(accounts@),
            before == texts(old(accounts)@),
            forall|j: int| 0 <= j < i ==> before[j] != account_id@,
        decreases accounts.len() - i,
    {
        if same_text(accounts[i].as_str(), account_id) {
            assert(before[i as int] == account_id@);
            return;
        }
        i = i + 1;
    }
    accounts.push(account_id.to_owned());
    assert(texts(accounts@) =~= before.push(account_id@));
}

/// The records after a success of an account.
pub open spec fn succeeded(
    records: Map<Seq<char>, AccountRecord>,
    id: Seq<char>,
    now: Timestamp,
) -> Map<Seq<char>, AccountRecord> {
    changed(records, id, |record: AccountRecord| after_success(record, now))
}

/// The records after an account was given back.
pub open spec fn released(
    records: Map<Seq<char>, AccountRecord>,
    id: Seq<char>,
    now: Timestamp,
) -> Map<Seq<char>, AccountRecord> {
    changed(records, id, |record: AccountRecord| after_release(record, now))
}

/// The records after the access token of an account was dropped.
pub open spec fn invalidated(
    records: Map<Seq<char>, AccountRecord>,
    id: Seq<char>,
    now: Timestamp,
) -> Map<Seq<char>, AccountRecord> {
    changed(records, id, |record: AccountRecord| after_invalidation(record, now))
}

/// The records after a failure of an account.
pub open spec fn failed(
    records: Map<Seq<char>, AccountRecord>,
    id: Seq<char>,
    now: Timestamp,
    failure: FailureClass,
    retry_after: Option<Delay>,
    details: String,
) -> Map<Seq<char>, AccountRecord> {
    changed(
        records,
        id,
        |record: AccountRecord| after_failure(record, now, failure, retry_after, details),
    )
}

/// What is known while one account after another is tried.
#[derive(Debug)]
pub struct FailoverRun {
    /// The account that is being tried.
    pub account_id: String,
    /// The accounts whose access token was dropped once, to be fetched anew.
    pub forced_refresh_attempted: Vec<String>,
    /// What to say where no account is left and the pool does not say why.
    pub last_pool_summary_candidate: Option<PoolBlockSummary>,
}

impl FailoverRun {
    /// Nothing was tried yet.
    pub fn new() -> (run: Self)
        ensures
            run.account_id@ == Seq::<char>::empty(),
            texts(run.forced_refresh_attempted@) == Seq::<Seq<char>>::empty(),
            run.last_pool_summary_candidate is None,
    {
        let run: FailoverRun = FailoverRun {
            account_id: String::new(),
            forced_refresh_attempted: Vec::new(),
            last_pool_summary_candidate: None,
        };
        assert(texts(run.forced_refresh_attempted@) =~= Seq::<Seq<char>>::empty());
        run
    }
}

/// What is said where no account can be picked and the pool does not say why.
pub open spec fn unknown_block() -> PoolBlockSummary {
    PoolBlockSummary {
        blocked_reason: BlockedReason::TemporarilyUnavailable,
        blocked_until: None,
        retry_after: None,
    }
}

/// What is said where the last account that was tried lost its authorization.
pub open spec fn lost_authorization() -> PoolBlockSummary {
    PoolBlockSummary {
        blocked_reason: BlockedReason::AuthInvalid,
        blocked_until: None,
        retry_after: None,
    }
}

/// Does this failure say why no account can be picked? The pool knows best, then what was seen
/// before.
pub open spec fn resolves(
    records: Map<Seq<char>, AccountRecord>,
    excluded: Seq<String>,
    candidate: Option<PoolBlockSummary>,
    now: Timestamp,
    failure: FailoverFailure,
) -> bool {
    exists|summary: Option<PoolBlockSummary>| #[trigger]
        summarizes(records, excluded, now, summary) && failure == FailoverFailure::PoolBlocked(
            match summary {
                Some(summary) => summary,
                None => match candidate {
                    Some(candidate) => candidate,
                    None => unknown_block(),
                },
            },
        )
}

/// Why no account can be picked, at `now`.
pub fn resolve_selection_failure_at(
    accounts: &mut AccountStore,
    error: SelectionFailure,
    excluded_accounts: &Vec<String>,
    last_pool_summary_candidate: Option<PoolBlockSummary>,
    now: Timestamp,
) -> (failure: FailoverFailure)
    requires
        old(accounts).wf(),
        in_calendar(now),
    ensures
        final(accounts).wf(),
        final(accounts).same_frame(old(accounts)),
        final(accounts).map() == unexpired(old(accounts).map(), now),
        resolves(
            final(accounts).map(),
            excluded_accounts@,
            last_pool_summary_candidate,
            now,
            failure,
        ),
{
    match error {
        SelectionFailure::NoEligibleAccount => {
            let summary: Option<PoolBlockSummary> = accounts.summarize_selection_failure_at(
                excluded_accounts,
                now,
            );
            match summary {
                Some(summary) => FailoverFailure::PoolBlocked(summary),
                None => match last_pool_summary_candidate {
                    Some(candidate) => FailoverFailure::PoolBlocked(candidate),
                    None => FailoverFailure::PoolBlocked(
                        PoolBlockSummary {
                            blocked_reason: BlockedReason::TemporarilyUnavailable,
                            blocked_until: None,
                            retry_after: None,
                        },
                    ),
                },
            }
        },
    }
}

/// Why no account can be picked.
pub fn resolve_selection_failure(
    accounts: &mut AccountStore,
    error: SelectionFailure,
    excluded_accounts: &Vec<String>,
    last_pool_summary_candidate: Option<PoolBlockSummary>,
) -> (failure: FailoverFailure)
    requires
        old(accounts).wf(),
    ensures
        final(accounts).wf(),
        final(accounts).same_frame(old(accounts)),
        exists|now: Timestamp|
            {
                &&& #[trigger] in_calendar(now)
                &&& final(accounts).map() == unexpired(old(accounts).map(), now)
                &&& resolves(
                    final(accounts).map(),
                    excluded_accounts@,
                    last_pool_summary_candidate,
                    now,
                    failure,
                )
            },
{
    let now: Timestamp = utc_now();
    resolve_selection_failure_at(
        accounts,
        error,
        excluded_accounts,
        last_pool_summary_candidate,
        now,
    )
}

/// Does this follow from the pool: an account to try next, or why there is none?
pub open spec fn offers(
    before: AccountStore,
    after: AccountStore,
    policy: RoutingPolicy,
    skew_seconds: i64,
    tried: Seq<String>,
    candidate: Option<PoolBlockSummary>,
    now: Timestamp,
    result: Result<AccountSelection, FailoverFailure>,
) -> bool {
    match result {
        Ok(selection) => exists|candidates: Seq<RouteCandidate>| #[trigger]
            selects(
                before,
                after,
                policy,
                skew_seconds,
                tried,
                now,
                candidates,
                Ok(selection),
            ),
        Err(failure) => {
            &&& are_candidates(unexpired(before.map(), now), tried, now, Seq::empty())
            &&& after.same_frame(&before)
            &&& after.map() == unexpired(unexpired(before.map(), now), now)
            &&& resolves(after.map(), tried, candidate, now, failure)
        },
    }
}

/// The account to try next, at `now`.
fn next_account_at(
    accounts: &mut AccountStore,
    policy: RoutingPolicy,
    refresh_skew_seconds: i64,
    tried_accounts: &Vec<String>,
    run: &FailoverRun,
    now: Timestamp,
) -> (result: Result<AccountSelection, FailoverFailure>)
    requires
        old(accounts).wf(),
        in_calendar(now),
        skew_fits(refresh_skew_seconds),
    ensures
        final(accounts).wf(),
        offers(
            *old(accounts),
            *final(accounts),
            policy,
            refresh_skew_seconds,
            tried_accounts@,
            run.last_pool_summary_candidate,
            now,
            result,
        ),
{
    let ghost before = *accounts;
    let picked: Result<AccountSelection, SelectionFailure> = accounts.select_account_at(
        policy,
        refresh_skew_seconds,
        tried_accounts,
        now,
    );
    let ghost mid = *accounts;
    let ghost candidates = choose|candidates: Seq<RouteCandidate>| #[trigger]
        selects(
            before,
            mid,
            policy,
            refresh_skew_seconds,
            tried_accounts@,
            now,
            candidates,
            picked,
        );
    let result: Result<AccountSelection, FailoverFailure> = match picked {
        Ok(selection) => Ok(selection),
        Err(error) => {
            assert(candidates =~= Seq::<RouteCandidate>::empty());
            Err(
                resolve_selection_failure_at(
                    accounts,
                    error,
                    tried_accounts,
                    run.last_pool_summary_candidate,
                    now,
                ),
            )
        },
    };
    proof {
        if result is Ok {
            assert(selects(
                before,
                *accounts,
                policy,
                refresh_skew_seconds,
                tried_accounts@,
                now,
                candidates,
                Ok(result->Ok_0),
            ));
            assert(offers(
                before,
                *accounts,
                policy,
                refresh_skew_seconds,
                tried_accounts@,
                run.last_pool_summary_candidate,
                now,
                result,
            ));
        }
    }
    result
}

/// Why a refresh failed, in words.
pub open spec fn refresh_details(error: RefreshFailure) -> Seq<char> {
    "refresh failed: status="@ + status_text(error.status) + " body="@ + error.body@
}

/// Why a refresh failed, in words.
pub fn refresh_failure_details(error: &RefreshFailure) -> (details: String)
    ensures
        details@ == refresh_details(*error),
{
    let mut details: String = "refresh failed: status=".to_owned();
    details.append(render_status(error.status).as_str());
    details.append(" body=");
    details.append(error.body.as_str());
    details
}

/// The failure of the gateway itself.
fn internal_failure(detail: String) -> (failure: FailoverFailure)
    ensures
        failure == (FailoverFailure::Internal { status: 500, detail }),
{
    FailoverFailure::Internal { status: 500, detail }
}

/// An access token could not be refreshed. Gives the failure to answer with; nothing where another
/// account is worth a try.
fn on_refresh_failure(
    tried_accounts: &mut Vec<String>,
    run: &mut FailoverRun,
    account_id: &str,
    error: RefreshFailure,
) -> (failure: Option<FailoverFailure>)
    ensures
        final(run).account_id == old(run).account_id,
        final(run).forced_refresh_attempted == old(run).forced_refresh_attempted,
        if worth_another(error.class) {
            &&& failure is None
            &&& texts(final(tried_accounts)@) == with_account(
                texts(old(tried_accounts)@),
                account_id@,
            )
            &&& final(run).last_pool_summary_candidate == (if error.class
                == FailureClass::AuthInvalid {
                Some(lost_authorization())
            } else {
                old(run).last_pool_summary_candidate
            })
        } else {
            &&& failure == Some(FailoverFailure::Refresh(error))
            &&& *final(tried_accounts) == *old(tried_accounts)
            &&& *final(run) == *old(run)
        },
{
    let class: FailureClass = error.class;
    if !should_failover_failure_class(class) {
        return Some(FailoverFailure::Refresh(error));
    }
    if class == FailureClass::AuthInvalid {
        run.last_pool_summary_candidate = Some(
            PoolBlockSummary {
                blocked_reason: BlockedReason::AuthInvalid,
                blocked_until: None,
                retry_after: None,
            },
        );
    }
    insert_account(tried_accounts, account_id);
    None
}

/// What a request is sent with, at `now`. An account without an access token, or that is gone, is
/// given back and not tried again.
fn upstream_account_or_release_at(
    accounts: &mut AccountStore,
    tried_accounts: &mut Vec<String>,
    account_id: &str,
    now: Timestamp,
) -> (account: Option<UpstreamAccount>)
    requires
        old(accounts).wf(),
    ensures
        final(accounts).wf(),
        final(accounts).same_frame(old(accounts)),
        ({
            let records = old(accounts).map();
            let id = account_id@;
            match account {
                Some(account) => {
                    &&& records.contains_key(id)
                    &&& records[id].access_token == Some(account.access_token)
                    &&& account.chatgpt_account_id == records[id].account_id
                    &&& final(accounts).map() == records
                    &&& *final(tried_accounts) == *old(tried_accounts)
                },
                None => {
                    &&& records.contains_key(id) ==> records[id].access_token is None
                    &&& final(accounts).map() == released(invalidated(records, id, now), id, now)
                    &&& texts(final(tried_accounts)@) == with_account(
                        texts(old(tried_accounts)@),
                        id,
                    )
                },
            }
        }),
{
    match accounts.upstream_account(account_id) {
        Ok(account) => {
            return Some(account);
        },
        Err(UpstreamAccountError::MissingAccessToken) => {
            accounts.invalidate_access_token_at(account_id, now);
        },
        Err(UpstreamAccountError::MissingRecord) => {},
    }
    accounts.release_selection_at(account_id, now);
    insert_account(tried_accounts, account_id);
    None
}

/// A request succeeded: the account is released now, or later by the caller.
fn on_request_success_at(
    accounts: &mut AccountStore,
    disposition: SuccessDisposition,
    account_id: &str,
    now: Timestamp,
)
    requires
        old(accounts).wf(),
    ensures
        final(accounts).wf(),
        final(accounts).same_frame(old(accounts)),
        final(accounts).map() == (if disposition == SuccessDisposition::ReleaseImmediately {
            succeeded(old(accounts).map(), account_id@, now)
        } else {
            old(accounts).map()
        }),
{
    if disposition == SuccessDisposition::ReleaseImmediately {
        accounts.mark_request_success_at(account_id, now);
    }
}

/// Is this the first time that the access token of an account was refused?
pub open spec fn first_rejection(
    error: TransportError,
    forced: Seq<Seq<char>>,
    id: Seq<char>,
) -> bool {
    transport_class(error) == FailureClass::AccessTokenRejected && !forced.contains(id)
}

/// The records after a failed request. An access token that is refused is dropped: the first time
/// the account is given back for another try, then it has failed.
pub open spec fn after_request_error(
    records: Map<Seq<char>, AccountRecord>,
    id: Seq<char>,
    error: TransportError,
    forced: Seq<Seq<char>>,
    retry_after: Option<Delay>,
    details: String,
    now: Timestamp,
) -> Map<Seq<char>, AccountRecord> {
    let class = transport_class(error);
    if first_rejection(error, forced, id) {
        released(invalidated(records, id, now), id, now)
    } else if class == FailureClass::AccessTokenRejected {
        failed(invalidated(records, id, now), id, now, class, retry_after, details)
    } else {
        failed(records, id, now, class, retry_after, details)
    }
}

/// Do the records follow from a failed request?
pub open spec fn notes_request_error(
    before: Map<Seq<char>, AccountRecord>,
    after: Map<Seq<char>, AccountRecord>,
    id: Seq<char>,
    error: TransportError,
    text: Seq<char>,
    forced: Seq<Seq<char>>,
    retry_after: Option<Delay>,
    now: Timestamp,
) -> bool {
    exists|details: String|
        #![trigger after_request_error(before, id, error, forced, retry_after, details, now)]
        details@ == failure_reason(error, transport_class(error), text) && after
            == after_request_error(before, id, error, forced, retry_after, details, now)
}

/// Which accounts are not tried again after a failed request, and which tokens were dropped once.
pub open spec fn after_try(
    error: TransportError,
    tried: Seq<Seq<char>>,
    forced: Seq<Seq<char>>,
    id: Seq<char>,
) -> (Seq<Seq<char>>, Seq<Seq<char>>) {
    if first_rejection(error, forced, id) {
        (tried, forced.push(id))
    } else if worth_another(transport_class(error)) {
        (with_account(tried, id), forced)
    } else {
        (tried, forced)
    }
}

fn holds_account(accounts: &Vec<String>, account_id: &str) -> (held: bool)
    ensures
        held == texts(accounts@).contains(account_id@),
{
    let mut i: usize = 0;
    while i < accounts.len()
        invariant
            i <= accounts.len(),
            forall|j: int| 0 <= j < i ==> texts(accounts@)[j] != account_id@,
        decreases accounts.len() - i,
    {
        if same_text(accounts[i].as_str(), account_id) {
            assert(texts(accounts@)[i as int] == account_id@);
            return true;
        }
        i = i + 1;
    }
    false
}

/// A request failed, at `now`. Gives the failure to answer with; nothing where it is tried again.
/// `text` is what is shown of an error without an answer, and `retry_after` when to try again.
fn on_request_error_at(
    accounts: &mut AccountStore,
    tried_accounts: &mut Vec<String>,
    run: &mut FailoverRun,
    account_id: &str,
    error: TransportError,
    text: &str,
    retry_after: Option<Delay>,
    now: Timestamp,
) -> (failure: Option<FailoverFailure>)
    requires
        old(accounts).wf(),
        in_calendar(now),
        fits(retry_after),
    ensures
        final(accounts).wf(),
        final(accounts).same_frame(old(accounts)),
        notes_request_error(
            old(accounts).map(),
            final(accounts).map(),
            account_id@,
            error,
            text@,
            texts(old(run).forced_refresh_attempted@),
            retry_after,
            now,
        ),
        (
            texts(final(tried_accounts)@),
            texts(final(run).forced_refresh_attempted@),
        ) == after_try(
            error,
            texts(old(tried_accounts)@),
            texts(old(run).forced_refresh_attempted@),
            account_id@,
        ),
        final(run).account_id == old(run).account_id,
        final(run).last_pool_summary_candidate == old(run).last_pool_summary_candidate,
        failure == (if worth_another(transport_class(error)) {
            None
        } else {
            Some(FailoverFailure::Transport(error))
        }),
{
    let failure: FailureClass = classify_request_error(&error);
    let details: String = extract_failure_reason(&error, failure, text);
    let ghost forced = texts(run.forced_refresh_attempted@);
    let ghost reason = details;
    let ghost before = accounts.map();
    proof {
        assert(after_request_error(
            before,
            account_id@,
            error,
            forced,
            retry_after,
            reason,
            now,
        ) == after_request_error(before, account_id@, error, forced, retry_after, reason, now));
    }
    if failure == FailureClass::AccessTokenRejected {
        accounts.invalidate_access_token_at(account_id, now);
        if holds_account(&run.forced_refresh_attempted, account_id) {
            accounts.apply_failure_at(account_id, now, failure, retry_after, details);
            insert_account(tried_accounts, account_id);
        } else {
            insert_account(&mut run.forced_refresh_attempted, account_id);
            accounts.release_selection_at(account_id, now);
        }
        return None;
    }
    accounts.apply_failure_at(account_id, now, failure, retry_after, details);
    if should_failover_failure_class(failure) {
        insert_account(tried_accounts, account_id);
        None
    } else {
        Some(FailoverFailure::Transport(error))
    }
}

/// Something that happens while a request is served.
#[derive(Debug)]
pub enum FailoverEvent {
    /// An account is to be picked.
    Select,
    /// The account that was picked has its access token.
    Prepare,
    /// The access token that was fetched anew could not be kept, for this reason.
    RefreshLost(String),
    /// The access token could not be fetched anew, and the account was told so.
    RefreshFailed(RefreshFailure),
    /// The request succeeded.
    Succeeded,
    /// The request failed. `text` is what is shown of an error without an answer, and `delay` when
    /// to try again.
    Failed { error: TransportError, text: String, delay: Option<Delay> },
}

/// What is to be done next.
#[derive(Debug)]
pub enum FailoverAction {
    /// Another account is to be picked.
    Select,
    /// An access token is to be fetched anew with this refresh token.
    Refresh(String),
    /// The request is to be made ready.
    Prepare,
    /// The request is to be sent with this account.
    Send(UpstreamAccount),
    /// The request is answered with this failure.
    Answer(FailoverFailure),
    /// The request was served.
    Done,
}

/// The event of a failed request, where its delay can be added to an instant.
pub open spec fn failure_event_of(
    error: TransportError,
    text: String,
    hinted: Option<Delay>,
    now: Timestamp,
) -> Option<FailoverEvent> {
    let delay = delay_of(error_retry(error, now), hinted);
    if fits(delay) {
        Some(FailoverEvent::Failed { error, text, delay })
    } else {
        None
    }
}

/// The event of a failed request at `now`, where its delay can be added to an instant. `hinted` is
/// the delay that the answer names in words.
pub fn failed_event_at(
    error: TransportError,
    text: String,
    hinted: Option<Delay>,
    now: Timestamp,
) -> (event: Option<FailoverEvent>)
    requires
        in_calendar(now),
    ensures
        event == failure_event_of(error, text, hinted, now),
{
    let delay: Option<Delay> = error_delay_at(&error, hinted, now);
    let too_long: bool = match delay {
        Some(delay) => delay.nanos > 9_223_372_036_854_775_807_000_000,
        None => false,
    };
    if too_long {
        None
    } else {
        Some(FailoverEvent::Failed { error, text, delay })
    }
}

/// The event of a failed request, where its delay can be added to an instant. `hinted` is the delay
/// that the answer names in words.
pub fn failed_event(error: TransportError, text: String, hinted: Option<Delay>) -> (event: Option<
    FailoverEvent,
>)
    ensures
        exists|now: Timestamp| #[trigger]
            in_calendar(now) && event == failure_event_of(error, text, hinted, now),
{
    let now: Timestamp = utc_now();
    failed_event_at(error, text, hinted, now)
}

/// Does what is to be done follow from the pick of an account?
pub open spec fn acts_on_offer(
    result: Result<AccountSelection, FailoverFailure>,
    account_id: String,
    action: FailoverAction,
) -> bool {
    match result {
        Ok(selection) => account_id == selection.account_id && action == (
        if selection.needs_refresh {
            FailoverAction::Refresh(selection.refresh_token)
        } else {
            FailoverAction::Prepare
        }),
        Err(failure) => action == FailoverAction::Answer(failure),
    }
}

/// Does one step follow from what happened?
pub open spec fn advances(
    before: AccountStore,
    after: AccountStore,
    tried_before: Seq<String>,
    tried_after: Seq<String>,
    run: FailoverRun,
    run_then: FailoverRun,
    event: FailoverEvent,
    policy: RoutingPolicy,
    refresh_skew_seconds: i64,
    disposition: SuccessDisposition,
    now: Timestamp,
    action: FailoverAction,
) -> bool {
    let records = before.map();
    let records_then = after.map();
    let tried = texts(tried_before);
    let tried_then = texts(tried_after);
    let forced = texts(run.forced_refresh_attempted@);
    let forced_then = texts(run_then.forced_refresh_attempted@);
    let id = run.account_id@;
    &&& match event {
        FailoverEvent::Select => {
            &&& tried_then == tried && forced_then == forced
            &&& exists|result: Result<AccountSelection, FailoverFailure>|
                #![trigger acts_on_offer(result, run_then.account_id, action)]
                acts_on_offer(result, run_then.account_id, action) && offers(
                    before,
                    after,
                    policy,
                    refresh_skew_seconds,
                    tried_before,
                    run.last_pool_summary_candidate,
                    now,
                    result,
                )
        },
        FailoverEvent::Prepare => {
            &&& forced_then == forced
            &&& match action {
                FailoverAction::Send(account) => {
                    &&& records.contains_key(id) && records[id].access_token == Some(
                        account.access_token,
                    ) && account.chatgpt_account_id == records[id].account_id
                    &&& records_then == records && tried_then == tried
                },
                FailoverAction::Select => {
                    &&& records.contains_key(id) ==> records[id].access_token is None
                    &&& records_then == released(invalidated(records, id, now), id, now)
                    &&& tried_then == with_account(tried, id)
                },
                _ => false,
            }
        },
        FailoverEvent::RefreshLost(detail) => {
            &&& tried_then == tried && forced_then == forced
            &&& records_then == released(records, id, now)
            &&& action == FailoverAction::Answer(
                FailoverFailure::Internal { status: 500, detail },
            )
        },
        FailoverEvent::RefreshFailed(error) => {
            &&& records_then == records && forced_then == forced
            &&& if worth_another(error.class) {
                action == FailoverAction::Select && tried_then == with_account(tried, id)
            } else {
                action == FailoverAction::Answer(FailoverFailure::Refresh(error))
                    && tried_then == tried
            }
        },
        FailoverEvent::Succeeded => {
            &&& tried_then == tried && forced_then == forced
            &&& records_then == (if disposition == SuccessDisposition::ReleaseImmediately {
                succeeded(records, id, now)
            } else {
                records
            })
            &&& action == FailoverAction::Done
        },
        FailoverEvent::Failed { error, text, delay } => {
            &&& notes_request_error(
                records,
                records_then,
                id,
                error,
                text@,
                forced,
                delay,
                now,
            )
            &&& (tried_then, forced_then) == after_try(error, tried, forced, id)
            &&& action == (if worth_another(transport_class(error)) {
                FailoverAction::Select
            } else {
                FailoverAction::Answer(FailoverFailure::Transport(error))
            })
        },
    }
    &&& !(event is Select) ==> after.same_frame(&before) && run_then.account_id == run.account_id
    &&& run_then.last_pool_summary_candidate == (match event {
        FailoverEvent::RefreshFailed(error) => if error.class == FailureClass::AuthInvalid {
            Some(lost_authorization())
        } else {
            run.last_pool_summary_candidate
        },
        _ => run.last_pool_summary_candidate,
    })
}

/// Goes one step on with a request, at `now`. One account after another is tried until one serves
/// the request, or none is left, or the request itself is refused.
pub fn advance_failover_at(
    accounts: &mut AccountStore,
    tried_accounts: &mut Vec<String>,
    run: &mut FailoverRun,
    event: FailoverEvent,
    policy: RoutingPolicy,
    refresh_skew_seconds: i64,
    disposition: SuccessDisposition,
    now: Timestamp,
) -> (action: FailoverAction)
    requires
        old(accounts).wf(),
        in_calendar(now),
        skew_fits(refresh_skew_seconds),
        event matches FailoverEvent::Failed { error, text, delay } ==> fits(delay),
    ensures
        final(accounts).wf(),
        advances(
            *old(accounts),
            *final(accounts),
            old(tried_accounts)@,
            final(tried_accounts)@,
            *old(run),
            *final(run),
            event,
            policy,
            refresh_skew_seconds,
            disposition,
            now,
            action,
        ),
{
    let account_id: String = run.account_id.clone();
    match event {
        FailoverEvent::Select => {
            let result: Result<AccountSelection, FailoverFailure> = next_account_at(
                accounts,
                policy,
                refresh_skew_seconds,
                tried_accounts,
                run,
                now,
            );
            let ghost offered = result;
            let action: FailoverAction = match result {
                Ok(selection) => {
                    run.account_id = selection.account_id;
                    if selection.needs_refresh {
                        FailoverAction::Refresh(selection.refresh_token)
                    } else {
                        FailoverAction::Prepare
                    }
                },
                Err(failure) => FailoverAction::Answer(failure),
            };
            assert(acts_on_offer(offered, run.account_id, action));
            action
        },
        FailoverEvent::Prepare => match upstream_account_or_release_at(
            accounts,
            tried_accounts,
            account_id.as_str(),
            now,
        ) {
            Some(account) => FailoverAction::Send(account),
            None => FailoverAction::Select,
        },
        FailoverEvent::RefreshLost(detail) => {
            accounts.release_selection_at(account_id.as_str(), now);
            FailoverAction::Answer(internal_failure(detail))
        },
        FailoverEvent::RefreshFailed(error) => match on_refresh_failure(
            tried_accounts,
            run,
            account_id.as_str(),
            error,
        ) {
            Some(failure) => FailoverAction::Answer(failure),
            None => FailoverAction::Select,
        },
        FailoverEvent::Succeeded => {
            on_request_success_at(accounts, disposition, account_id.as_str(), now);
            FailoverAction::Done
        },
        FailoverEvent::Failed { error, text, delay } => match on_request_error_at(
            accounts,
            tried_accounts,
            run,
            account_id.as_str(),
            error,
            text.as_str(),
            delay,
            now,
        ) {
            Some(failure) => FailoverAction::Answer(failure),
            None => FailoverAction::Select,
        },
    }
}

/// Goes one step on with a request.
pub fn advance_failover(
    accounts: &mut AccountStore,
    tried_accounts: &mut Vec<String>,
    run: &mut FailoverRun,
    event: FailoverEvent,
    policy: RoutingPolicy,
    refresh_skew_seconds: i64,
    disposition: SuccessDisposition,
) -> (action: FailoverAction)
    requires
        old(accounts).wf(),
        skew_fits(refresh_skew_seconds),
        event matches FailoverEvent::Failed { error, text, delay } ==> fits(delay),
    ensures
        final(accounts).wf(),
        exists|now: Timestamp| #[trigger]
            in_calendar(now) && advances(
                *old(accounts),
                *final(accounts),
                old(tried_accounts)@,
                final(tried_accounts)@,
                *old(run),
                *final(run),
                event,
                policy,
                refresh_skew_seconds,
                disposition,
                now,
                action,
            ),
{
    let now: Timestamp = utc_now();
    advance_failover_at(
        accounts,
        tried_accounts,
        run,
        event,
        policy,
        refresh_skew_seconds,
        disposition,
        now,
    )
}

/// The delay that a settlement asks for.
pub open spec fn settlement_delay(settlement: AccountSettlement, hinted: Option<Delay>) -> Option<
    Delay,
> {
    match settlement {
        AccountSettlement::Failure { failure: _, retry_after, details: _ } => delay_of(
            retry_view(retry_after),
            hinted,
        ),
        _ => None,
    }
}

/// The records after a settlement.
pub open spec fn settled(
    records: Map<Seq<char>, AccountRecord>,
    id: Seq<char>,
    settlement: AccountSettlement,
    hinted: Option<Delay>,
    now: Timestamp,
) -> Map<Seq<char>, AccountRecord> {
    match settlement {
        AccountSettlement::Success => succeeded(records, id, now),
        AccountSettlement::Release => released(records, id, now),
        AccountSettlement::Failure { failure, retry_after, details } => failed(
            records,
            id,
            now,
            failure,
            delay_of(retry_view(retry_after), hinted),
            details,
        ),
    }
}

/// Tells an account what a request did to it, at `now`. `hinted` is the delay that a message names,
/// where the settlement holds one.
pub fn apply_account_settlement_at(
    accounts: &mut AccountStore,
    account_id: &str,
    settlement: AccountSettlement,
    hinted: Option<Delay>,
    now: Timestamp,
)
    requires
        old(accounts).wf(),
        in_calendar(now),
        fits(settlement_delay(settlement, hinted)),
    ensures
        final(accounts).wf(),
        final(accounts).same_frame(old(accounts)),
        final(accounts).map() == settled(
            old(accounts).map(),
            account_id@,
            settlement,
            hinted,
            now,
        ),
{
    match settlement {
        AccountSettlement::Success => accounts.mark_request_success_at(account_id, now),
        AccountSettlement::Release => accounts.release_selection_at(account_id, now),
        AccountSettlement::Failure { failure, retry_after, details } => {
            let delay: Option<Delay> = resolve_delay(&retry_after, hinted);
            accounts.apply_failure_at(account_id, now, failure, delay, details)
        },
    }
}

/// Tells an account what a request did to it.
pub fn apply_account_settlement(
    accounts: &mut AccountStore,
    account_id: &str,
    settlement: AccountSettlement,
    hinted: Option<Delay>,
)
    requires
        old(accounts).wf(),
        fits(settlement_delay(settlement, hinted)),
    ensures
        final(accounts).wf(),
        final(accounts).same_frame(old(accounts)),
        exists|now: Timestamp| #[trigger]
            in_calendar(now) && final(accounts).map() == settled(
                old(accounts).map(),
                account_id@,
                settlement,
                hinted,
                now,
            ),
{
    let now: Timestamp = utc_now();
    apply_account_settlement_at(accounts, account_id, settlement, hinted, now);
}

/// What is known while answers that are no JSON make one account after another fail.
#[derive(Debug)]
pub struct UnaryRun {
    pub decode_failed_accounts: Vec<String>,
    pub last_decode_failure: Option<String>,
}

impl UnaryRun {
    /// No answer has come yet.
    pub fn new() -> (run: Self)
        ensures
            texts(run.decode_failed_accounts@) == Seq::<Seq<char>>::empty(),
            run.last_decode_failure is None,
    {
        let run: UnaryRun = UnaryRun {
            decode_failed_accounts: Vec::new(),
            last_decode_failure: None,
        };
        assert(texts(run.decode_failed_accounts@) =~= Seq::<Seq<char>>::empty());
        run
    }
}

/// The settlement of an account whose answer is no JSON.
pub open spec fn decode_failure(details: Seq<char>) -> SettlementView {
    SettlementView::Failure {
        failure: FailureClass::TemporaryFailure,
        retry_after: None,
        details,
    }
}

/// An answer is no JSON: the account failed, and another is tried. Gives what the account is told.
pub fn on_decode_failure(
    tried_accounts: &mut Vec<String>,
    run: &mut UnaryRun,
    account_id: &str,
    details: String,
) -> (settlement: AccountSettlement)
    ensures
        settlement@ == decode_failure(details@),
        texts(final(tried_accounts)@) == with_account(texts(old(tried_accounts)@), account_id@),
        texts(final(run).decode_failed_accounts@) == with_account(
            texts(old(run).decode_failed_accounts@),
            account_id@,
        ),
        owned_text(final(run).last_decode_failure) == Some(details@),
{
    insert_account(&mut run.decode_failed_accounts, account_id);
    insert_account(tried_accounts, account_id);
    run.last_decode_failure = Some(details.clone());
    AccountSettlement::Failure {
        failure: FailureClass::TemporaryFailure,
        retry_after: None,
        details,
    }
}

/// Are the same accounts in both?
pub open spec fn same_accounts(left: Seq<Seq<char>>, right: Seq<Seq<char>>) -> bool {
    forall|id: Seq<char>| left.contains(id) <==> right.contains(id)
}

fn holds_all(left: &Vec<String>, right: &Vec<String>) -> (all: bool)
    ensures
        all == (forall|id: Seq<char>|
            texts(right@).contains(id) ==> texts(left@).contains(id)),
{
    let mut i: usize = 0;
    while i < right.len()
        invariant
            i <= right.len(),
            forall|j: int| 0 <= j < i ==> texts(left@).contains(#[trigger] texts(right@)[j]),
        decreases right.len() - i,
    {
        if !holds_account(left, right[i].as_str()) {
            assert(texts(right@)[i as int] == right@[i as int]@);
            assert(texts(right@).contains(right@[i as int]@));
            return false;
        }
        assert(texts(right@)[i as int] == right@[i as int]@);
        i = i + 1;
    }
    proof {
        assert forall|id: Seq<char>| texts(right@).contains(id) implies texts(left@).contains(
            id,
        ) by {
            let j = choose|j: int| 0 <= j < texts(right@).len() && texts(right@)[j] == id;
            assert(texts(left@).contains(texts(right@)[j]));
        }
    }
    true
}

/// The failure to answer with where no account is left: that no answer was JSON, if every account
/// that was tried gave one that was not.
pub open spec fn unary_failure(
    failure: FailoverFailure,
    tried: Seq<Seq<char>>,
    decode_failed: Seq<Seq<char>>,
    last_decode_failure: Option<String>,
) -> FailoverFailure {
    if failure is PoolBlocked && decode_failed.len() > 0 && same_accounts(decode_failed, tried)
        && last_decode_failure is Some {
        FailoverFailure::Internal { status: 502, detail: last_decode_failure->0 }
    } else {
        failure
    }
}

/// The failure to answer with where no account is left.
pub fn on_unary_failure(run: UnaryRun, tried_accounts: &Vec<String>, failure: FailoverFailure) -> (
    answer: FailoverFailure)
    ensures
        answer == unary_failure(
            failure,
            texts(tried_accounts@),
            texts(run.decode_failed_accounts@),
            run.last_decode_failure,
        ),
{
    let blocked: bool = match &failure {
        FailoverFailure::PoolBlocked(_) => true,
        _ => false,
    };
    let same: bool = holds_all(&run.decode_failed_accounts, tried_accounts) && holds_all(
        tried_accounts,
        &run.decode_failed_accounts,
    );
    if blocked && run.decode_failed_accounts.len() > 0 && same {
        if let Some(detail) = run.last_decode_failure {
            return FailoverFailure::Internal { status: 502, detail };
        }
    }
    failure
}

/// A request that is tried again leaves one account fewer to try, or drops a token that was not
/// dropped before: it is not tried for ever.
pub proof fn tries_run_out(
    error: TransportError,
    tried: Seq<Seq<char>>,
    forced: Seq<Seq<char>>,
    id: Seq<char>,
)
    requires
        worth_another(transport_class(error)),
        !tried.contains(id),
    ensures
        ({
            let (tried_then, forced_then) = after_try(error, tried, forced, id);
            ||| tried_then == tried.push(id) && forced_then == forced
            ||| tried_then == tried && forced_then == forced.push(id) && !forced.contains(id)
        }),
{
}

/// An account that was tried in vain is not picked again.
pub proof fn tried_accounts_are_not_picked(
    before: AccountStore,
    after: AccountStore,
    policy: RoutingPolicy,
    skew_seconds: i64,
    tried: Seq<String>,
    candidate: Option<PoolBlockSummary>,
    now: Timestamp,
    selection: AccountSelection,
)
    requires
        offers(before, after, policy, skew_seconds, tried, candidate, now, Ok(selection)),
    ensures
        !texts(tried).contains(selection.account_id@),
{
    let candidates = choose|candidates: Seq<RouteCandidate>| #[trigger]
        selects(before, after, policy, skew_seconds, tried, now, candidates, Ok(selection));
    let id = selection.account_id@;
    if texts(tried).contains(id) {
        let j = choose|j: int| 0 <= j < texts(tried).len() && texts(tried)[j] == id;
        assert(tried[j]@ == id);
        assert(crate::accounts::selection::listed(tried, id));
    }
}

}
