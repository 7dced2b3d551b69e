//! How requests, refreshes and wake-ups change the pool.
use super::store::{
    has_id, idle_detached, lemma_all_changed, lemma_found, lemma_replaced_sorted,
    lemma_sorted_is_unique, put, sorted_ids,
};
use super::{
    account_file_from_record, after_failure, apply_auth_invalid_block, apply_wake,
    auth_invalid_block, block_active, clear_block, copy_path, copy_text, fail_record, file_of, fits,
    has_active_block_at, in_state, letters, lost, one_less_in_flight, resting_state, shown,
    with_block, without_token, woken, AccountDiskOp, AccountRecord, AccountStore, AccountView,
    AuthInvalidPlan, RefreshSuccessResult, RefreshedAccount, RoutingState, UnknownAccount,
    UpstreamAccount, UpstreamAccountError, WakeAccountResult, WakeAllResult, WakeDisposition,
};
use crate::classifier::FailureClass;
use crate::text::{contains_text, has_text, text_before};
use crate::time::{in_calendar, utc_now, Delay, Timestamp};
use vstd::prelude::*;

verus! {

/// The record after a request was served.
pub open spec fn after_success(record: AccountRecord, now: Timestamp) -> AccountRecord {
    let released = AccountRecord {
        refresh_in_flight: false,
        last_success_at: Some(now),
        ..one_less_in_flight(record)
    };
    if released.routing_state != RoutingState::AuthInvalid && !block_active(released, now) {
        AccountRecord {
            routing_state: resting_state(released),
            local_backoff_level: 0,
            last_error: None,
            ..released
        }
    } else {
        released
    }
}

/// The record after its access token was given up.
pub open spec fn after_invalidation(record: AccountRecord, now: Timestamp) -> AccountRecord {
    let bare = AccountRecord { refresh_in_flight: false, ..without_token(record) };
    if bare.routing_state != RoutingState::AuthInvalid && !block_active(bare, now) {
        in_state(bare, RoutingState::Cold)
    } else {
        bare
    }
}

/// The record after a request was given up before its outcome was known.
pub open spec fn after_release(record: AccountRecord, now: Timestamp) -> AccountRecord {
    let released = AccountRecord { refresh_in_flight: false, ..one_less_in_flight(record) };
    if released.routing_state == RoutingState::Warming && !block_active(released, now) {
        in_state(released, resting_state(released))
    } else {
        released
    }
}

/// The new text where there is one, else the old.
pub open spec fn newer(new: Option<String>, old: Option<String>) -> Option<String> {
    if new is Some {
        new
    } else {
        old
    }
}

/// The record after a token refresh.
pub open spec fn after_refresh(
    record: AccountRecord,
    now: Timestamp,
    refreshed: RefreshedAccount,
) -> AccountRecord {
    let renewed = AccountRecord {
        access_token: Some(refreshed.access_token),
        refresh_token: match refreshed.refresh_token {
            Some(token) => token,
            None => record.refresh_token,
        },
        account_id: newer(refreshed.account_id, record.account_id),
        plan_type: newer(refreshed.plan_type, record.plan_type),
        email: newer(refreshed.email, record.email),
        access_token_expires_at: refreshed.access_token_expires_at,
        last_refresh_at: Some(now),
        refresh_in_flight: false,
        ..record
    };
    if block_active(renewed, now) {
        renewed
    } else {
        AccountRecord {
            routing_state: RoutingState::Ready,
            local_backoff_level: 0,
            last_error: None,
            ..with_block(renewed, None, None, None)
        }
    }
}

/// The record after its refresh token was refused.
pub open spec fn after_auth_invalid(
    record: AccountRecord,
    now: Timestamp,
    details: String,
) -> AccountRecord {
    AccountRecord {
        refresh_in_flight: false,
        last_error_at: Some(now),
        last_error: Some(details),
        auth_invalid_tombstone: true,
        ..auth_invalid_block(
            in_state(without_token(one_less_in_flight(record)), RoutingState::AuthInvalid),
        )
    }
}

/// The record after its file went to the trash.
pub open spec fn after_trash(record: AccountRecord) -> AccountRecord {
    AccountRecord {
        auth_invalid_tombstone: true,
        detached: true,
        ..auth_invalid_block(in_state(without_token(record), RoutingState::AuthInvalid))
    }
}

/// The record once the blocks that are over have been lifted.
pub open spec fn after_expiry(record: AccountRecord, now: Timestamp) -> AccountRecord {
    let over = record.blocked_until is Some && record.blocked_until->0.nanos <= now.nanos;
    let lifted = if over {
        with_block(record, None, None, None)
    } else {
        record
    };
    let settled = if over && record.routing_state != RoutingState::AuthInvalid
        && !record.refresh_in_flight {
        in_state(lifted, resting_state(record))
    } else {
        lifted
    };
    if settled.routing_state == RoutingState::Cold && settled.access_token is Some {
        in_state(settled, RoutingState::Ready)
    } else {
        settled
    }
}

/// The map with a change to one record, if it is there.
pub open spec fn changed(
    records: Map<Seq<char>, AccountRecord>,
    id: Seq<char>,
    change: spec_fn(AccountRecord) -> AccountRecord,
) -> Map<Seq<char>, AccountRecord> {
    if records.contains_key(id) {
        put(records, id, change(records[id]))
    } else {
        records
    }
}

/// The text that is kept where the trash could not be reached.
pub open spec fn with_trash_failure(current: Option<Seq<char>>, error: Seq<char>) -> Seq<char> {
    let suffix = "move invalid account file to trash failed: "@ + error;
    match current {
        Some(current) => if has_text(current, suffix) {
            current
        } else {
            current + "; "@ + suffix
        },
        None => suffix,
    }
}

/// What `records` was changed to where only the error text of one record is new.
pub open spec fn error_noted(
    before: Map<Seq<char>, AccountRecord>,
    after: Map<Seq<char>, AccountRecord>,
    id: Seq<char>,
    now: Timestamp,
    text: Seq<char>,
) -> bool {
    &&& after.contains_key(id)
    &&& after == before.insert(id, after[id])
    &&& letters(after[id].last_error) == Some(text)
    &&& after[id] == AccountRecord {
        last_error: after[id].last_error,
        last_error_at: Some(now),
        ..before[id]
    }
}

impl AccountStore {
    /// Notes that a request was served. The present instant is `now`.
    pub fn mark_request_success_at(&mut self, account_id: &str, now: Timestamp)
        requires
            old(self).wf(),
        ensures
            final(self).wf(),
            final(self).same_frame(old(self)),
            final(self).map() == changed(
                old(self).map(),
                account_id@,
                |record: AccountRecord| after_success(record, now),
            ),
    {
        match self.position(account_id) {
            Some(at) => {
                let ghost before = self.records@;
                let ghost next = after_success(before[at as int], now);
                let record: &mut AccountRecord = &mut self.records[at];
                record.in_flight_requests = record.in_flight_requests.saturating_sub(1);
                record.refresh_in_flight = false;
                if record.routing_state != RoutingState::AuthInvalid && !has_active_block_at(
                    record,
                    now,
                ) {
                    record.routing_state = if record.access_token.is_some() {
                        RoutingState::Ready
                    } else {
                        RoutingState::Cold
                    };
                    record.local_backoff_level = 0;
                    record.last_error = None;
                }
                record.last_success_at = Some(now);
                proof {
                    lemma_replaced_sorted(before, at as int, next);
                    assert(self.records@ =~= before.update(at as int, next));
                    lemma_put(old(self).map(), account_id@, next);
                }
                self.remove_if_idle(at);
            },
            None => {},
        }
    }

    /// Notes that a request was served.
    pub fn mark_request_success(&mut self, account_id: &str)
        requires
            old(self).wf(),
        ensures
            final(self).wf(),
            final(self).same_frame(old(self)),
            exists|now: Timestamp| #[trigger]
                in_calendar(now) && final(self).map() == changed(
                    old(self).map(),
                    account_id@,
                    |record: AccountRecord| after_success(record, now),
                ),
    {
        let now: Timestamp = utc_now();
        self.mark_request_success_at(account_id, now);
    }

    /// Notes a failure of a request or of a refresh. The present instant is `now`.
    pub fn apply_failure_at(
        &mut self,
        account_id: &str,
        now: Timestamp,
        failure: FailureClass,
        retry_after: Option<Delay>,
        details: String,
    )
        requires
            old(self).wf(),
            in_calendar(now),
            fits(retry_after),
        ensures
            final(self).wf(),
            final(self).same_frame(old(self)),
            final(self).map() == changed(
                old(self).map(),
                account_id@,
                |record: AccountRecord| after_failure(record, now, failure, retry_after, details),
            ),
    {
        match self.position(account_id) {
            Some(at) => {
                let ghost before = self.records@;
                let ghost next = after_failure(before[at as int], now, failure, retry_after, details);
                let record: &mut AccountRecord = &mut self.records[at];
                fail_record(record, now, failure, retry_after, details);
                proof {
                    lemma_replaced_sorted(before, at as int, next);
                    assert(self.records@ =~= before.update(at as int, next));
                    lemma_put(old(self).map(), account_id@, next);
                }
                self.remove_if_idle(at);
            },
            None => {},
        }
    }

    /// Notes a failure of a request or of a refresh.
    pub fn apply_failure(
        &mut self,
        account_id: &str,
        failure: FailureClass,
        retry_after: Option<Delay>,
        details: String,
    )
        requires
            old(self).wf(),
            fits(retry_after),
        ensures
            final(self).wf(),
            final(self).same_frame(old(self)),
            exists|now: Timestamp| #[trigger]
                in_calendar(now) && final(self).map() == changed(
                    old(self).map(),
                    account_id@,
                    |record: AccountRecord| after_failure(record, now, failure, retry_after, details),
                ),
    {
        let now: Timestamp = utc_now();
        self.apply_failure_at(account_id, now, failure, retry_after, details);
    }

    /// Gives the access token of an account up. The present instant is `now`.
    pub fn invalidate_access_token_at(&mut self, account_id: &str, now: Timestamp)
        requires
            old(self).wf(),
        ensures
            final(self).wf(),
            final(self).same_frame(old(self)),
            final(self).map() == changed(
                old(self).map(),
                account_id@,
                |record: AccountRecord| after_invalidation(record, now),
            ),
    {
        match self.position(account_id) {
            Some(at) => {
                let ghost before = self.records@;
                let ghost next = after_invalidation(before[at as int], now);
                let record: &mut AccountRecord = &mut self.records[at];
                record.access_token = None;
                record.access_token_expires_at = None;
                record.refresh_in_flight = false;
                if record.routing_state != RoutingState::AuthInvalid && !has_active_block_at(
                    record,
                    now,
                ) {
                    record.routing_state = RoutingState::Cold;
                }
                proof {
                    lemma_replaced_sorted(before, at as int, next);
                    assert(self.records@ =~= before.update(at as int, next));
                    lemma_put(old(self).map(), account_id@, next);
                }
                self.remove_if_idle(at);
            },
            None => {},
        }
    }

    /// Gives the access token of an account up.
    pub fn invalidate_access_token(&mut self, account_id: &str)
        requires
            old(self).wf(),
        ensures
            final(self).wf(),
            final(self).same_frame(old(self)),
            exists|now: Timestamp| #[trigger]
                in_calendar(now) && final(self).map() == changed(
                    old(self).map(),
                    account_id@,
                    |record: AccountRecord| after_invalidation(record, now),
                ),
    {
        let now: Timestamp = utc_now();
        self.invalidate_access_token_at(account_id, now);
    }

    /// Gives a picked account back before an outcome is known. The present instant is `now`.
    pub fn release_selection_at(&mut self, account_id: &str, now: Timestamp)
        requires
            old(self).wf(),
        ensures
            final(self).wf(),
            final(self).same_frame(old(self)),
            final(self).map() == changed(
                old(self).map(),
                account_id@,
                |record: AccountRecord| after_release(record, now),
            ),
    {
        match self.position(account_id) {
            Some(at) => {
                let ghost before = self.records@;
                let ghost next = after_release(before[at as int], now);
                let record: &mut AccountRecord = &mut self.records[at];
                record.in_flight_requests = record.in_flight_requests.saturating_sub(1);
                record.refresh_in_flight = false;
                if record.routing_state == RoutingState::Warming && !has_active_block_at(
                    record,
                    now,
                ) {
                    record.routing_state = if record.access_token.is_some() {
                        RoutingState::Ready
                    } else {
                        RoutingState::Cold
                    };
                }
                proof {
                    lemma_replaced_sorted(before, at as int, next);
                    assert(self.records@ =~= before.update(at as int, next));
                    lemma_put(old(self).map(), account_id@, next);
                }
                self.remove_if_idle(at);
            },
            None => {},
        }
    }

    /// Gives a picked account back before an outcome is known.
    pub fn release_selection(&mut self, account_id: &str)
        requires
            old(self).wf(),
        ensures
            final(self).wf(),
            final(self).same_frame(old(self)),
            exists|now: Timestamp| #[trigger]
                in_calendar(now) && final(self).map() == changed(
                    old(self).map(),
                    account_id@,
                    |record: AccountRecord| after_release(record, now),
                ),
    {
        let now: Timestamp = utc_now();
        self.release_selection_at(account_id, now);
    }

    /// Notes a failed request.
    pub fn mark_request_failure(
        &mut self,
        account_id: &str,
        failure: FailureClass,
        retry_after: Option<Delay>,
        details: String,
    )
        requires
            old(self).wf(),
            fits(retry_after),
        ensures
            final(self).wf(),
            final(self).same_frame(old(self)),
            exists|now: Timestamp| #[trigger]
                in_calendar(now) && final(self).map() == changed(
                    old(self).map(),
                    account_id@,
                    |record: AccountRecord|
                        after_failure(record, now, failure, retry_after, details),
                ),
    {
        self.apply_failure(account_id, failure, retry_after, details);
    }

    /// Lifts the block of one account. An unknown account is an error; one that lost its
    /// authorization stays as it is.
    pub fn wake_account(&mut self, account_id: &str) -> (result: Result<
        WakeAccountResult,
        UnknownAccount,
    >)
        requires
            old(self).wf(),
        ensures
            final(self).wf(),
            final(self).same_frame(old(self)),
            match result {
                Ok(result) => old(self).map().contains_key(account_id@) && {
                    let record = old(self).map()[account_id@];
                    &&& final(self).map() == old(self).map().insert(account_id@, wake_outcome(record))
                    &&& result.disposition == wake_disposition(record)
                    &&& result.account == shown(wake_outcome(record))
                },
                Err(error) => !old(self).map().contains_key(account_id@) && error.account_id@
                    == account_id@ && final(self).map() == old(self).map(),
            },
    {
        match self.position(account_id) {
            Some(at) => {
                let ghost before = self.records@;
                let ghost next = wake_outcome(before[at as int]);
                let disposition: WakeDisposition = apply_wake(&mut self.records[at]);
                proof {
                    lemma_replaced_sorted(before, at as int, next);
                    assert(self.records@ =~= before.update(at as int, next));
                }
                let account: AccountView = AccountView::from(&self.records[at]);
                Ok(WakeAccountResult { disposition, account })
            },
            None => Err(UnknownAccount { account_id: account_id.to_owned() }),
        }
    }

    /// Lifts the blocks of every account that has not lost its authorization, and reports on all
    /// of them in the order of their ids.
    pub fn wake_all_accounts(&mut self) -> (result: WakeAllResult)
        requires
            old(self).wf(),
        ensures
            final(self).wf(),
            final(self).same_frame(old(self)),
            final(self).map() == old(self).map().map_values(
                |record: AccountRecord| wake_outcome(record),
            ),
            wake_report(old(self).map(), result),
    {
        let ghost before = self.records@;
        let mut woken_count: usize = 0;
        let mut skipped: usize = 0;
        let mut accounts: Vec<WakeAccountResult> = Vec::new();
        let mut at: usize = 0;
        while at < self.records.len()
            invariant
                at <= self.records.len(),
                self.records.len() == before.len(),
                self.same_frame(old(self)),
                sorted_ids(before),
                forall|i: int| 0 <= i < at ==> #[trigger] self.records@[i] == wake_outcome(before[i]),
                forall|i: int| at <= i < before.len() ==> #[trigger] self.records@[i] == before[i],
                accounts.len() == at,
                forall|i: int|
                    0 <= i < at ==> (#[trigger] accounts@[i]).disposition == wake_disposition(
                        before[i],
                    ) && accounts@[i].account == shown(wake_outcome(before[i])),
                woken_count + skipped == at,
                woken_count == woken_in(accounts@),
            decreases before.len() - at,
        {
            let disposition: WakeDisposition = apply_wake(&mut self.records[at]);
            let ghost earlier = accounts@;
            match disposition {
                WakeDisposition::Woken => {
                    woken_count = woken_count + 1;
                },
                WakeDisposition::SkippedAuthInvalid => {
                    skipped = skipped + 1;
                },
            }
            let account: AccountView = AccountView::from(&self.records[at]);
            accounts.push(WakeAccountResult { disposition, account });
            assert(accounts@.drop_last() =~= earlier);
            at = at + 1;
        }
        let result = WakeAllResult { woken: woken_count, skipped_auth_invalid: skipped, accounts };
        proof {
            lemma_all_changed(before, self.records@, |record: AccountRecord| wake_outcome(record));
            lemma_sorted_is_unique(before);
            assert forall|i: int| 0 <= i < result.accounts@.len() implies {
                let account = (#[trigger] result.accounts@[i]).account;
                &&& old(self).map().contains_key(account.id@)
                &&& result.accounts@[i].disposition == wake_disposition(
                    old(self).map()[account.id@],
                )
                &&& account == shown(wake_outcome(old(self).map()[account.id@]))
            } by {
                lemma_found(before, i);
            }
            assert forall|id: Seq<char>| old(self).map().contains_key(id) implies exists|i: int|
                0 <= i < result.accounts@.len() && #[trigger] result.accounts@[i].account.id@ == id by {
                let i = choose|i: int| has_id(before, id, i);
                assert(result.accounts@[i].account.id@ == id);
            }
            assert forall|i: int, j: int| 0 <= i < j < result.accounts@.len() implies text_before(
                #[trigger] result.accounts@[i].account.id@,
                #[trigger] result.accounts@[j].account.id@,
            ) by {
                assert(text_before(before[i].id@, before[j].id@));
            }
        }
        result
    }

    /// What a request upstream needs of an account.
    pub fn upstream_account(&self, account_id: &str) -> (result: Result<
        UpstreamAccount,
        UpstreamAccountError,
    >)
        requires
            self.wf(),
        ensures
            match result {
                Ok(account) => self.map().contains_key(account_id@)
                    && self.map()[account_id@].access_token == Some(account.access_token)
                    && account.chatgpt_account_id == self.map()[account_id@].account_id,
                Err(UpstreamAccountError::MissingRecord) => !self.map().contains_key(account_id@),
                Err(UpstreamAccountError::MissingAccessToken) => self.map().contains_key(account_id@)
                    && self.map()[account_id@].access_token is None,
            },
    {
        match self.position(account_id) {
            Some(at) => match &self.records[at].access_token {
                Some(access_token) => Ok(
                    UpstreamAccount {
                        access_token: access_token.clone(),
                        chatgpt_account_id: copy_text(&self.records[at].account_id),
                    },
                ),
                None => Err(UpstreamAccountError::MissingAccessToken),
            },
            None => Err(UpstreamAccountError::MissingRecord),
        }
    }

    /// What is shown of an account; an unknown one is an error.
    pub fn view(&self, account_id: &str) -> (result: Result<AccountView, UnknownAccount>)
        requires
            self.wf(),
        ensures
            match result {
                Ok(view) => self.map().contains_key(account_id@) && view == shown(
                    self.map()[account_id@],
                ),
                Err(error) => !self.map().contains_key(account_id@) && error.account_id@
                    == account_id@,
            },
    {
        match self.position(account_id) {
            Some(at) => Ok(AccountView::from(&self.records[at])),
            None => Err(UnknownAccount { account_id: account_id.to_owned() }),
        }
    }

    /// Takes the outcome of a token refresh over and says what is to be written to disk. The
    /// present instant is `now`.
    pub fn finish_refresh_success_without_persist_at(
        &mut self,
        account_id: &str,
        refreshed: RefreshedAccount,
        now: Timestamp,
    ) -> (result: Result<(RefreshSuccessResult, Option<AccountDiskOp>), UnknownAccount>)
        requires
            old(self).wf(),
        ensures
            final(self).wf(),
            final(self).same_frame(old(self)),
            final(self).map() == changed(
                old(self).map(),
                account_id@,
                |record: AccountRecord| after_refresh(record, now, refreshed),
            ),
            match result {
                Ok((result, op)) => old(self).map().contains_key(account_id@)
                    && result.persist_warning is None && op == persist_op(
                    after_refresh(old(self).map()[account_id@], now, refreshed),
                ),
                Err(error) => !old(self).map().contains_key(account_id@) && error.account_id@
                    == account_id@,
            },
    {
        match self.position(account_id) {
            Some(at) => {
                let ghost before = self.records@;
                let ghost next = after_refresh(before[at as int], now, refreshed);
                let record: &mut AccountRecord = &mut self.records[at];
                record.access_token = Some(refreshed.access_token);
                if let Some(refresh_token) = refreshed.refresh_token {
                    record.refresh_token = refresh_token;
                }
                if let Some(id) = refreshed.account_id {
                    record.account_id = Some(id);
                }
                if let Some(plan_type) = refreshed.plan_type {
                    record.plan_type = Some(plan_type);
                }
                if refreshed.email.is_some() {
                    record.email = refreshed.email;
                }
                record.access_token_expires_at = refreshed.access_token_expires_at;
                record.last_refresh_at = Some(now);
                record.refresh_in_flight = false;
                if !has_active_block_at(record, now) {
                    record.routing_state = RoutingState::Ready;
                    clear_block(record);
                    record.local_backoff_level = 0;
                    record.last_error = None;
                }
                let op: Option<AccountDiskOp> = if record.detached {
                    None
                } else {
                    Some(
                        AccountDiskOp::Write {
                            path: copy_path(&record.file_path),
                            disk: account_file_from_record(record),
                        },
                    )
                };
                proof {
                    lemma_replaced_sorted(before, at as int, next);
                    assert(self.records@ =~= before.update(at as int, next));
                    lemma_put(old(self).map(), account_id@, next);
                }
                self.remove_if_idle(at);
                Ok((RefreshSuccessResult { persist_warning: None }, op))
            },
            None => Err(UnknownAccount { account_id: account_id.to_owned() }),
        }
    }

    /// Takes the outcome of a token refresh over and says what is to be written to disk.
    pub fn finish_refresh_success_without_persist(
        &mut self,
        account_id: &str,
        refreshed: RefreshedAccount,
    ) -> (result: Result<(RefreshSuccessResult, Option<AccountDiskOp>), UnknownAccount>)
        requires
            old(self).wf(),
        ensures
            final(self).wf(),
            final(self).same_frame(old(self)),
            exists|now: Timestamp|
                {
                    &&& #[trigger] in_calendar(now)
                    &&& final(self).map() == changed(
                        old(self).map(),
                        account_id@,
                        |record: AccountRecord| after_refresh(record, now, refreshed),
                    )
                    &&& result matches Ok((_, op)) ==> op == persist_op(
                        after_refresh(old(self).map()[account_id@], now, refreshed),
                    )
                },
            match result {
                Ok((result, _)) => old(self).map().contains_key(account_id@)
                    && result.persist_warning is None,
                Err(error) => !old(self).map().contains_key(account_id@) && error.account_id@
                    == account_id@,
            },
    {
        let now: Timestamp = utc_now();
        self.finish_refresh_success_without_persist_at(account_id, refreshed, now)
    }

    /// The first half of the loss of an account: the record is blocked for good, and its file is
    /// to go to the trash. The present instant is `now`.
    pub fn prepare_auth_invalid_failure_at(
        &mut self,
        account_id: &str,
        details: String,
        now: Timestamp,
    ) -> (result: Result<AuthInvalidPlan, UnknownAccount>)
        requires
            old(self).wf(),
        ensures
            final(self).wf(),
            final(self).same_frame(old(self)),
            match result {
                Ok(plan) => old(self).map().contains_key(account_id@) && plan.account_id@
                    == account_id@ && plan.trash_op == trash_op(
                    old(self).map()[account_id@],
                    old(self).accounts_dir,
                ) && final(self).map() == old(self).map().insert(
                    account_id@,
                    after_auth_invalid(old(self).map()[account_id@], now, details),
                ),
                Err(error) => !old(self).map().contains_key(account_id@) && error.account_id@
                    == account_id@ && final(self).map() == old(self).map(),
            },
    {
        match self.position(account_id) {
            Some(at) => {
                let ghost before = self.records@;
                let ghost next = after_auth_invalid(before[at as int], now, details);
                let accounts_dir: String = self.accounts_dir.clone();
                let record: &mut AccountRecord = &mut self.records[at];
                record.in_flight_requests = record.in_flight_requests.saturating_sub(1);
                record.refresh_in_flight = false;
                record.last_error_at = Some(now);
                record.last_error = Some(details);
                record.access_token = None;
                record.access_token_expires_at = None;
                record.routing_state = RoutingState::AuthInvalid;
                apply_auth_invalid_block(record);
                record.auth_invalid_tombstone = true;
                let trash_op: Option<AccountDiskOp> = if record.detached {
                    None
                } else {
                    Some(
                        AccountDiskOp::MoveToTrash {
                            source: copy_path(&record.file_path),
                            accounts_dir,
                        },
                    )
                };
                proof {
                    lemma_replaced_sorted(before, at as int, next);
                    assert(self.records@ =~= before.update(at as int, next));
                }
                Ok(AuthInvalidPlan { account_id: account_id.to_owned(), trash_op })
            },
            None => Err(UnknownAccount { account_id: account_id.to_owned() }),
        }
    }

    /// The first half of the loss of an account: the record is blocked for good, and its file is
    /// to go to the trash.
    pub fn prepare_auth_invalid_failure(&mut self, account_id: &str, details: String) -> (result:
        Result<AuthInvalidPlan, UnknownAccount>)
        requires
            old(self).wf(),
        ensures
            final(self).wf(),
            final(self).same_frame(old(self)),
            match result {
                Ok(plan) => old(self).map().contains_key(account_id@) && plan.account_id@
                    == account_id@ && plan.trash_op == trash_op(
                    old(self).map()[account_id@],
                    old(self).accounts_dir,
                ) && exists|now: Timestamp| #[trigger]
                    in_calendar(now) && final(self).map() == old(self).map().insert(
                        account_id@,
                        after_auth_invalid(old(self).map()[account_id@], now, details),
                    ),
                Err(error) => !old(self).map().contains_key(account_id@) && error.account_id@
                    == account_id@ && final(self).map() == old(self).map(),
            },
    {
        let now: Timestamp = utc_now();
        self.prepare_auth_invalid_failure_at(account_id, details, now)
    }

    /// The second half of the loss of an account, once its file is in the trash.
    pub fn finalize_auth_invalid_failure(&mut self, account_id: &str) -> (result: Result<
        (),
        UnknownAccount,
    >)
        requires
            old(self).wf(),
        ensures
            final(self).wf(),
            final(self).same_frame(old(self)),
            final(self).map() == changed(
                old(self).map(),
                account_id@,
                |record: AccountRecord| after_trash(record),
            ),
            match result {
                Ok(_) => old(self).map().contains_key(account_id@),
                Err(error) => !old(self).map().contains_key(account_id@) && error.account_id@
                    == account_id@,
            },
    {
        match self.position(account_id) {
            Some(at) => {
                let ghost before = self.records@;
                let ghost next = after_trash(before[at as int]);
                let record: &mut AccountRecord = &mut self.records[at];
                record.routing_state = RoutingState::AuthInvalid;
                record.access_token = None;
                record.access_token_expires_at = None;
                apply_auth_invalid_block(record);
                record.auth_invalid_tombstone = true;
                record.detached = true;
                proof {
                    lemma_replaced_sorted(before, at as int, next);
                    assert(self.records@ =~= before.update(at as int, next));
                    lemma_put(old(self).map(), account_id@, next);
                }
                self.remove_if_idle(at);
                Ok(())
            },
            None => Err(UnknownAccount { account_id: account_id.to_owned() }),
        }
    }

    /// The second half of the loss of an account whose file could not be moved to the trash: the
    /// record stays, with a word on it. The present instant is `now`.
    pub fn note_auth_invalid_trash_failure_at(
        &mut self,
        account_id: &str,
        error: &str,
        now: Timestamp,
    )
        requires
            old(self).wf(),
        ensures
            final(self).wf(),
            final(self).same_frame(old(self)),
            if old(self).map().contains_key(account_id@) {
                error_noted(
                    old(self).map(),
                    final(self).map(),
                    account_id@,
                    now,
                    with_trash_failure(
                        letters(old(self).map()[account_id@].last_error),
                        error@,
                    ),
                )
            } else {
                final(self).map() == old(self).map()
            },
    {
        match self.position(account_id) {
            Some(at) => {
                let ghost before = self.records@;
                let mut suffix: String = "move invalid account file to trash failed: ".to_owned();
                suffix.append(error);
                let record: &mut AccountRecord = &mut self.records[at];
                let next_error: String = match record.last_error.take() {
                    Some(current) => {
                        if contains_text(current.as_str(), suffix.as_str()) {
                            current
                        } else {
                            let mut text: String = current;
                            text.append("; ");
                            text.append(suffix.as_str());
                            text
                        }
                    },
                    None => suffix,
                };
                record.last_error = Some(next_error);
                record.last_error_at = Some(now);
                proof {
                    let next = self.records@[at as int];
                    lemma_replaced_sorted(before, at as int, next);
                    assert(self.records@ =~= before.update(at as int, next));
                }
            },
            None => {},
        }
    }

    /// The second half of the loss of an account whose file could not be moved to the trash: the
    /// record stays, with a word on it.
    pub fn note_auth_invalid_trash_failure(&mut self, account_id: &str, error: &str)
        requires
            old(self).wf(),
        ensures
            final(self).wf(),
            final(self).same_frame(old(self)),
            if old(self).map().contains_key(account_id@) {
                exists|now: Timestamp| #[trigger]
                    in_calendar(now) && error_noted(
                        old(self).map(),
                        final(self).map(),
                        account_id@,
                        now,
                        with_trash_failure(
                            letters(old(self).map()[account_id@].last_error),
                            error@,
                        ),
                    )
            } else {
                final(self).map() == old(self).map()
            },
    {
        let now: Timestamp = utc_now();
        self.note_auth_invalid_trash_failure_at(account_id, error, now);
    }

    /// Notes a failed refresh. Where the refresh token was refused, the account is lost, and what
    /// comes back is still to be done on disk.
    pub fn finish_refresh_failure(
        &mut self,
        account_id: &str,
        failure: FailureClass,
        retry_after: Option<Delay>,
        details: String,
    ) -> (result: Result<Option<AuthInvalidPlan>, UnknownAccount>)
        requires
            old(self).wf(),
            fits(retry_after),
        ensures
            final(self).wf(),
            final(self).same_frame(old(self)),
            notes_failed_refresh(
                *old(self),
                final(self).map(),
                account_id@,
                failure,
                retry_after,
                details,
                result,
            ),
    {
        if failure == FailureClass::AuthInvalid {
            match self.prepare_auth_invalid_failure(account_id, details) {
                Ok(plan) => Ok(Some(plan)),
                Err(error) => Err(error),
            }
        } else {
            self.apply_failure(account_id, failure, retry_after, details);
            Ok(None)
        }
    }

    /// Ends the loss of an account, once its file was moved to the trash or could not be.
    pub fn finish_auth_invalid_failure(
        &mut self,
        plan: &AuthInvalidPlan,
        trash_error: Option<&str>,
    ) -> (result: Result<(), UnknownAccount>)
        requires
            old(self).wf(),
        ensures
            final(self).wf(),
            final(self).same_frame(old(self)),
            match trash_error {
                Some(error) => {
                    &&& result is Ok
                    &&& if old(self).map().contains_key(plan.account_id@) {
                        exists|now: Timestamp| #[trigger]
                            in_calendar(now) && error_noted(
                                old(self).map(),
                                final(self).map(),
                                plan.account_id@,
                                now,
                                with_trash_failure(
                                    letters(old(self).map()[plan.account_id@].last_error),
                                    error@,
                                ),
                            )
                    } else {
                        final(self).map() == old(self).map()
                    }
                },
                None => {
                    &&& result is Ok <==> old(self).map().contains_key(plan.account_id@)
                    &&& result matches Err(error) ==> error.account_id@ == plan.account_id@
                    &&& final(self).map() == changed(
                        old(self).map(),
                        plan.account_id@,
                        |record: AccountRecord| after_trash(record),
                    )
                },
            },
    {
        match trash_error {
            Some(error) => {
                self.note_auth_invalid_trash_failure(plan.account_id.as_str(), error);
                Ok(())
            },
            None => self.finalize_auth_invalid_failure(plan.account_id.as_str()),
        }
    }

    /// Lifts the blocks that are over at `now`.
    pub fn refresh_expired_blocks_at(&mut self, now: Timestamp)
        requires
            old(self).wf(),
        ensures
            final(self).wf(),
            final(self).same_frame(old(self)),
            final(self).map() == old(self).map().map_values(
                |record: AccountRecord| after_expiry(record, now),
            ),
            final(self).records.len() == old(self).records.len(),
            forall|i: int|
                0 <= i < old(self).records.len() ==> #[trigger] final(self).records@[i]
                    == after_expiry(old(self).records@[i], now),
    {
        let ghost before = self.records@;
        let mut at: usize = 0;
        while at < self.records.len()
            invariant
                at <= self.records.len(),
                self.records.len() == before.len(),
                self.same_frame(old(self)),
                forall|i: int|
                    0 <= i < at ==> #[trigger] self.records@[i] == after_expiry(before[i], now),
                forall|i: int| at <= i < before.len() ==> #[trigger] self.records@[i] == before[i],
            decreases before.len() - at,
        {
            let record: &mut AccountRecord = &mut self.records[at];
            let over: bool = match record.blocked_until {
                Some(until) => until.nanos <= now.nanos,
                None => false,
            };
            if over {
                clear_block(record);
                if record.routing_state != RoutingState::AuthInvalid && !record.refresh_in_flight {
                    record.routing_state = if record.access_token.is_some() {
                        RoutingState::Ready
                    } else {
                        RoutingState::Cold
                    };
                }
            }
            if record.routing_state == RoutingState::Cold && record.access_token.is_some() {
                record.routing_state = RoutingState::Ready;
            }
            at = at + 1;
        }
        proof {
            lemma_all_changed(
                before,
                self.records@,
                |record: AccountRecord| after_expiry(record, now),
            );
        }
    }
}

/// The record after a wake-up was asked for.
pub open spec fn wake_outcome(record: AccountRecord) -> AccountRecord {
    if lost(record) {
        record
    } else {
        woken(record)
    }
}

/// What a wake-up reports.
pub open spec fn wake_disposition(record: AccountRecord) -> WakeDisposition {
    if lost(record) {
        WakeDisposition::SkippedAuthInvalid
    } else {
        WakeDisposition::Woken
    }
}

/// How many of these accounts were woken.
pub open spec fn woken_in(accounts: Seq<WakeAccountResult>) -> nat
    decreases accounts.len(),
{
    if accounts.len() == 0 {
        0
    } else {
        woken_in(accounts.drop_last()) + if accounts[accounts.len() - 1].disposition
            == WakeDisposition::Woken {
            1nat
        } else {
            0nat
        }
    }
}

/// A report on every account, in the order of their ids.
pub open spec fn wake_report(
    records: Map<Seq<char>, AccountRecord>,
    result: WakeAllResult,
) -> bool {
    let accounts = result.accounts@;
    &&& forall|i: int|
        0 <= i < accounts.len() ==> {
            let account = (#[trigger] accounts[i]).account;
            &&& records.contains_key(account.id@)
            &&& accounts[i].disposition == wake_disposition(records[account.id@])
            &&& account == shown(wake_outcome(records[account.id@]))
        }
    &&& forall|id: Seq<char>|
        records.contains_key(id) ==> exists|i: int|
            0 <= i < accounts.len() && #[trigger] accounts[i].account.id@ == id
    &&& forall|i: int, j: int|
        0 <= i < j < accounts.len() ==> text_before(
            #[trigger] accounts[i].account.id@,
            #[trigger] accounts[j].account.id@,
        )
    &&& result.woken == woken_in(accounts)
    &&& result.woken + result.skipped_auth_invalid == accounts.len()
}

/// Is this what a failed refresh leaves? A refresh token that was refused loses the account, and the
/// result says what is still to be done on disk.
pub open spec fn notes_failed_refresh(
    before: AccountStore,
    after: Map<Seq<char>, AccountRecord>,
    id: Seq<char>,
    failure: FailureClass,
    retry_after: Option<Delay>,
    details: String,
    result: Result<Option<AuthInvalidPlan>, UnknownAccount>,
) -> bool {
    if failure == FailureClass::AuthInvalid {
        match result {
            Ok(Some(plan)) => before.map().contains_key(id) && plan.account_id@ == id
                && plan.trash_op == trash_op(before.map()[id], before.accounts_dir) && exists|
                now: Timestamp,
            | #[trigger]
                in_calendar(now) && after == before.map().insert(
                    id,
                    after_auth_invalid(before.map()[id], now, details),
                ),
            Ok(None) => false,
            Err(error) => !before.map().contains_key(id) && error.account_id@ == id && after
                == before.map(),
        }
    } else {
        result matches Ok(None) && exists|now: Timestamp| #[trigger]
            in_calendar(now) && after == changed(
                before.map(),
                id,
                |record: AccountRecord| after_failure(record, now, failure, retry_after, details),
            )
    }
}

/// What is to be written to disk for a record.
pub open spec fn persist_op(record: AccountRecord) -> Option<AccountDiskOp> {
    if record.detached {
        None
    } else {
        Some(AccountDiskOp::Write { path: record.file_path, disk: file_of(record) })
    }
}

/// What is to be done on disk for a record that lost its authorization.
pub open spec fn trash_op(record: AccountRecord, accounts_dir: String) -> Option<AccountDiskOp> {
    if record.detached {
        None
    } else {
        Some(AccountDiskOp::MoveToTrash { source: record.file_path, accounts_dir })
    }
}

/// To put a record in and then take it out where it is of use no longer is one step.
pub(crate) proof fn lemma_put(
    records: Map<Seq<char>, AccountRecord>,
    id: Seq<char>,
    record: AccountRecord,
)
    ensures
        put(records.insert(id, record), id, record) == put(records, id, record),
{
    if idle_detached(record) {
        assert(records.insert(id, record).remove(id) =~= records.remove(id));
    } else {
        assert(records.insert(id, record).insert(id, record) =~= records.insert(id, record));
    }
}

/// The outcome of a refresh whose account file could not be written.
pub fn with_persist_warning(error: &str) -> (result: RefreshSuccessResult)
    ensures
        letters(result.persist_warning) == Some("persist account file failed: "@ + error@),
{
    let mut warning: String = "persist account file failed: ".to_owned();
    warning.append(error);
    RefreshSuccessResult { persist_warning: Some(warning) }
}

}
