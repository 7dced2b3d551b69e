#![allow(dead_code)]
use codaze::accounts::disk::{
    scan_accounts_files, trash_candidate, ImportAccountResult, ScannedFile, SyncMode,
};
use codaze::accounts::lifecycle::with_persist_warning;
use codaze::accounts::sync::build_disk_sync_plan;
use codaze::accounts::{
    AccountDiskOp, AccountFile, AccountRecord, AccountStore, RefreshSuccessResult,
    RefreshedAccount, UnknownAccount, INVALID_REFRESH_TOKEN_MESSAGE,
    AccountPath, BlockedReason, BlockedSource, RoutingState, SelectionFailure,
};
use codaze::classifier::FailureClass;
use codaze::config::RoutingPolicy;
use codaze::time::{timestamp, utc_now, Delay, Timestamp};
use std::collections::BTreeMap;
use std::ops::{Deref, DerefMut};

fn after(at: Timestamp, seconds: i128) -> Timestamp {
    Timestamp { nanos: at.nanos + seconds * 1_000_000_000 }
}

/// A pool together with the files that it works on.
struct Pool {
    store: AccountStore,
    files: BTreeMap<String, Option<AccountFile>>,
    trash: BTreeMap<String, AccountFile>,
    trash_blocked: bool,
    writes_fail: bool,
}

impl Deref for Pool {
    type Target = AccountStore;

    fn deref(&self) -> &AccountStore {
        &self.store
    }
}

impl DerefMut for Pool {
    fn deref_mut(&mut self) -> &mut AccountStore {
        &mut self.store
    }
}

impl Pool {
    fn new() -> Pool {
        Pool {
            store: AccountStore::new("/accounts".to_string()),
            files: BTreeMap::new(),
            trash: BTreeMap::new(),
            trash_blocked: false,
            writes_fail: false,
        }
    }

    fn record(&self, id: &str) -> &AccountRecord {
        let at = self.store.position(id).expect("record exists");
        &self.store.records[at]
    }

    fn record_mut(&mut self, id: &str) -> &mut AccountRecord {
        let at = self.store.position(id).expect("record exists");
        &mut self.store.records[at]
    }

    fn write(&mut self, name: &str, file: AccountFile) {
        self.files.insert(name.to_string(), Some(file));
    }

    fn corrupt(&mut self, name: &str) {
        self.files.insert(name.to_string(), None);
    }

    fn has_file(&self, name: &str) -> bool {
        self.files.contains_key(name)
    }

    fn file(&self, name: &str) -> AccountFile {
        self.files.get(name).expect("file should exist").clone().expect("readable file")
    }

    fn run(&mut self, op: &AccountDiskOp) -> Result<(), String> {
        match op {
            AccountDiskOp::Write { path, disk } => {
                if self.writes_fail {
                    return Err("create account parent dir".to_string());
                }
                self.write(&path.name, disk.clone());
            }
            AccountDiskOp::Remove { path } => {
                self.files.remove(&path.name);
            }
            AccountDiskOp::MoveToTrash { source, .. } => {
                if self.trash_blocked {
                    return Err("create trash dir".to_string());
                }
                let mut attempt = 0;
                let mut name = trash_candidate(&source.name, attempt, 7);
                while self.trash.contains_key(&name) {
                    attempt += 1;
                    name = trash_candidate(&source.name, attempt, 7);
                }
                let file = self.files.remove(&source.name).expect("file").expect("readable");
                self.trash.insert(name, file);
            }
        }
        Ok(())
    }

    fn import_account(
        &mut self,
        token: String,
        label: Option<String>,
        email: Option<String>,
    ) -> Result<ImportAccountResult, String> {
        let plan = self
            .store
            .prepare_import_account(token, label, email)
            .map_err(|_| INVALID_REFRESH_TOKEN_MESSAGE.to_string())?;
        if let Some(op) = &plan.disk_op {
            self.run(op)?;
        }
        self.store.apply_import_account_plan(plan).map_err(|error| error.message())
    }

    fn sync_from_disk(&mut self, mode: SyncMode) {
        let scanned: Vec<ScannedFile> = self
            .files
            .iter()
            .map(|(name, disk)| ScannedFile { name: name.clone(), disk: disk.clone() })
            .collect();
        let snapshot = scan_accounts_files(&scanned, &"/accounts".to_string());
        let plan = build_disk_sync_plan(&self.store, snapshot, mode);
        for (path, disk) in &plan.writes {
            self.files.insert(path.name.clone(), Some(disk.clone()));
        }
        for path in &plan.removals {
            self.files.remove(&path.name);
        }
        self.store.apply_disk_sync_plan(plan);
    }

    fn finish_refresh_success(
        &mut self,
        id: &str,
        refreshed: RefreshedAccount,
    ) -> Result<RefreshSuccessResult, UnknownAccount> {
        let (result, op) = self.store.finish_refresh_success_without_persist(id, refreshed)?;
        if let Some(op) = op {
            if let Err(error) = self.run(&op) {
                return Ok(with_persist_warning(&error));
            }
        }
        Ok(result)
    }

    fn finish_refresh_failure(
        &mut self,
        id: &str,
        failure: FailureClass,
        retry_after: Option<Delay>,
        details: String,
    ) -> Result<(), UnknownAccount> {
        if let Some(plan) = self.store.finish_refresh_failure(id, failure, retry_after, details)? {
            let error = match &plan.trash_op {
                Some(op) => self.run(op).err(),
                None => None,
            };
            self.store.finish_auth_invalid_failure(&plan, error.as_deref())?;
        }
        Ok(())
    }
}

#[test]
fn summarize_selection_failure_prefers_earliest_retryable_record() {
    let mut store = Pool::new();
    let first = store
        .import_account("rt_1".to_string(), None, None)
        .expect("import")
        .account
        .id;
    let second = store
        .import_account("rt_2".to_string(), None, None)
        .expect("import")
        .account
        .id;

    let now = utc_now();
    {
        let first_record = store.record_mut(&first);
        first_record.blocked_reason = Some(BlockedReason::QuotaExhausted);
        first_record.blocked_source = Some(BlockedSource::UpstreamRetryAfter);
        first_record.blocked_until = Some(after(now, 900));
        first_record.routing_state = RoutingState::Cooldown;
    }
    {
        let second_record = store.record_mut(&second);
        second_record.blocked_reason = Some(BlockedReason::RateLimited);
        second_record.blocked_source = Some(BlockedSource::UpstreamRetryAfter);
        second_record.blocked_until = Some(after(now, 300));
        second_record.routing_state = RoutingState::Cooldown;
    }

    let summary = store
        .summarize_selection_failure(&Vec::new())
        .expect("summary exists");

    assert_eq!(summary.blocked_reason, BlockedReason::RateLimited);
    let blocked_until = summary.blocked_until.expect("blocked until");
    assert!(blocked_until.nanos >= after(now, 240).nanos);
    assert!(blocked_until.nanos <= after(now, 360).nanos);
    assert!(summary.retry_after.is_some());
}

#[test]
fn summarize_selection_failure_ignores_auth_invalid_accounts() {
    let mut store = Pool::new();
    let id = store
        .import_account("rt_auth".to_string(), None, None)
        .expect("import")
        .account
        .id;

    let record = store.record_mut(&id);
    record.routing_state = RoutingState::AuthInvalid;
    record.blocked_reason = Some(BlockedReason::AuthInvalid);
    record.blocked_source = Some(BlockedSource::FixedPolicy);
    record.blocked_until = None;

    assert!(store.summarize_selection_failure(&Vec::new()).is_none());
}

#[test]
fn summarize_selection_failure_when_all_routeable_accounts_are_refreshing() {
    let mut store = Pool::new();
    let first = store
        .import_account("rt_1".to_string(), None, None)
        .expect("import")
        .account
        .id;
    let second = store
        .import_account("rt_2".to_string(), None, None)
        .expect("import")
        .account
        .id;

    store.record_mut(&first)
        .refresh_in_flight = true;
    store.record_mut(&second)
        .refresh_in_flight = true;

    let summary = store
        .summarize_selection_failure(&Vec::new())
        .expect("summary exists");
    assert_eq!(
        summary.blocked_reason,
        BlockedReason::TemporarilyUnavailable
    );
    assert_eq!(summary.retry_after, Some(Delay::from_secs(1)));
    assert!(summary.blocked_until.is_some());
}

#[test]
fn summarize_selection_failure_prefers_refresh_in_flight_over_existing_block() {
    let mut store = Pool::new();
    let blocked = store
        .import_account("rt_blocked".to_string(), None, None)
        .expect("import")
        .account
        .id;
    let refreshing = store
        .import_account("rt_refreshing".to_string(), None, None)
        .expect("import")
        .account
        .id;

    {
        let record = store.record_mut(&blocked);
        record.blocked_reason = Some(BlockedReason::QuotaExhausted);
        record.blocked_source = Some(BlockedSource::UpstreamRetryAfter);
        record.blocked_until = Some(after(utc_now(), 600));
        record.routing_state = RoutingState::Cooldown;
    }
    {
        let record = store.record_mut(&refreshing);
        record.refresh_in_flight = true;
        record.routing_state = RoutingState::Warming;
    }

    let summary = store
        .summarize_selection_failure(&Vec::new())
        .expect("summary exists");
    assert_eq!(
        summary.blocked_reason,
        BlockedReason::TemporarilyUnavailable
    );
    assert_eq!(summary.retry_after, Some(Delay::from_secs(1)));
    assert!(summary.blocked_until.is_some());
}

#[test]
fn summarize_selection_failure_excludes_failed_accounts_from_consideration() {
    let mut store = Pool::new();
    let blocked = store
        .import_account("rt_blocked".to_string(), None, None)
        .expect("import")
        .account
        .id;
    let refreshing = store
        .import_account("rt_refreshing".to_string(), None, None)
        .expect("import")
        .account
        .id;

    {
        let record = store.record_mut(&blocked);
        record.blocked_reason = Some(BlockedReason::QuotaExhausted);
        record.blocked_source = Some(BlockedSource::UpstreamRetryAfter);
        record.blocked_until = Some(after(utc_now(), 600));
        record.routing_state = RoutingState::Cooldown;
    }
    {
        let record = store.record_mut(&refreshing);
        record.refresh_in_flight = true;
        record.routing_state = RoutingState::Warming;
    }

    let excluded_accounts = vec![blocked];
    let summary = store
        .summarize_selection_failure(&excluded_accounts)
        .expect("summary exists");
    assert_eq!(
        summary.blocked_reason,
        BlockedReason::TemporarilyUnavailable
    );
    assert_eq!(summary.retry_after, Some(Delay::from_secs(1)));
    assert!(summary.blocked_until.is_some());
}

#[test]
fn route_candidates_are_sorted_for_stable_round_robin() {
    let mut store = Pool::new();
    for id in ["b-account", "c-account", "a-account"] {
        store.upsert_disk_record(
            id.to_string(),
            AccountPath { dir: "/accounts".to_string(), name: format!("{id}.json") },
            AccountFile {
                refresh_token: format!("rt-{id}"),
                label: None,
                email: None,
            },
        );
    }

    let candidates = store.build_route_candidates_at(&Vec::new(), utc_now());
    let ids = candidates
        .into_iter()
        .map(|candidate| candidate.account_id)
        .collect::<Vec<_>>();

    assert_eq!(ids, vec!["a-account", "b-account", "c-account"]);
}

#[test]
fn requests_under_way_are_counted_back() {
    let mut store = Pool::new();
    let id = store.import_account("rt".to_string(), None, None).expect("import").account.id;
    let now = timestamp(1_000, 0);
    let picked = store
        .select_account_at(RoutingPolicy::RoundRobin, 8, &Vec::new(), now)
        .expect("an account is free");
    assert_eq!(picked.account_id, id);
    assert!(picked.needs_refresh);
    assert_eq!(store.record(&id).in_flight_requests, 1);
    assert!(store.record(&id).refresh_in_flight);
    assert_eq!(
        store.select_account_at(RoutingPolicy::RoundRobin, 8, &Vec::new(), now).err(),
        Some(SelectionFailure::NoEligibleAccount)
    );
    store.release_selection_at(&id, now);
    assert_eq!(store.record(&id).in_flight_requests, 0);
    assert!(!store.record(&id).refresh_in_flight);
    assert_eq!(store.record(&id).routing_state, RoutingState::Cold);
    assert_eq!(
        store.select_account_at(RoutingPolicy::RoundRobin, 8, &vec![id], now).err(),
        Some(SelectionFailure::NoEligibleAccount)
    );
}

#[test]
fn tokens_are_fetched_anew_shortly_before_they_end() {
    let mut store = Pool::new();
    let id = store.import_account("rt".to_string(), None, None).expect("import").account.id;
    let now = timestamp(1_000, 0);
    store.record_mut(&id).access_token = Some("at".to_string());
    store.record_mut(&id).access_token_expires_at = Some(after(now, 9));
    let early = store.select_account_at(RoutingPolicy::FillFirst, 8, &Vec::new(), now).expect("free");
    assert!(!early.needs_refresh);
    let late = store
        .select_account_at(RoutingPolicy::FillFirst, 8, &Vec::new(), after(now, 1))
        .expect("free");
    assert!(late.needs_refresh);
}
