#![allow(dead_code)]
use codaze::accounts::disk::{
    scan_accounts_files, trash_candidate, ImportAccountResult, ScannedFile, SyncMode,
};
use codaze::accounts::lifecycle::with_persist_warning;
use codaze::accounts::sync::build_disk_sync_plan;
use codaze::accounts::{
    AccountDiskOp, AccountFile, AccountRecord, AccountStore, RefreshSuccessResult,
    RefreshedAccount, UnknownAccount, INVALID_REFRESH_TOKEN_MESSAGE,
    BlockedReason, BlockedSource, RoutingState, WakeDisposition, next_local_backoff,
};
use codaze::classifier::FailureClass;
use codaze::time::{timestamp, utc_now, Delay, Timestamp};
use std::collections::BTreeMap;
use std::ops::{Deref, DerefMut};

fn after(at: Timestamp, seconds: i128) -> Timestamp {
    Timestamp { nanos: at.nanos + seconds * 1_000_000_000 }
}

/// A pool together with the files that it works on.
struct Pool {
    store: AccountStore,
    files: BTreeMap<String, Option<AccountFile>>,
    trash: BTreeMap<String, AccountFile>,
    trash_blocked: bool,
    writes_fail: bool,
}

impl Deref for Pool {
    type Target = AccountStore;

    fn deref(&self) -> &AccountStore {
        &self.store
    }
}

impl DerefMut for Pool {
    fn deref_mut(&mut self) -> &mut AccountStore {
        &mut self.store
    }
}

impl Pool {
    fn new() -> Pool {
        Pool {
            store: AccountStore::new("/accounts".to_string()),
            files: BTreeMap::new(),
            trash: BTreeMap::new(),
            trash_blocked: false,
            writes_fail: false,
        }
    }

    fn record(&self, id: &str) -> &AccountRecord {
        let at = self.store.position(id).expect("record exists");
        &self.store.records[at]
    }

    fn record_mut(&mut self, id: &str) -> &mut AccountRecord {
        let at = self.store.position(id).expect("record exists");
        &mut self.store.records[at]
    }

    fn write(&mut self, name: &str, file: AccountFile) {
        self.files.insert(name.to_string(), Some(file));
    }

    fn corrupt(&mut self, name: &str) {
        self.files.insert(name.to_string(), None);
    }

    fn has_file(&self, name: &str) -> bool {
        self.files.contains_key(name)
    }

    fn file(&self, name: &str) -> AccountFile {
        self.files.get(name).expect("file should exist").clone().expect("readable file")
    }

    fn run(&mut self, op: &AccountDiskOp) -> Result<(), String> {
        match op {
            AccountDiskOp::Write { path, disk } => {
                if self.writes_fail {
                    return Err("create account parent dir".to_string());
                }
                self.write(&path.name, disk.clone());
            }
            AccountDiskOp::Remove { path } => {
                self.files.remove(&path.name);
            }
            AccountDiskOp::MoveToTrash { source, .. } => {
                if self.trash_blocked {
                    return Err("create trash dir".to_string());
                }
                let mut attempt = 0;
                let mut name = trash_candidate(&source.name, attempt, 7);
                while self.trash.contains_key(&name) {
                    attempt += 1;
                    name = trash_candidate(&source.name, attempt, 7);
                }
                let file = self.files.remove(&source.name).expect("file").expect("readable");
                self.trash.insert(name, file);
            }
        }
        Ok(())
    }

    fn import_account(
        &mut self,
        token: String,
        label: Option<String>,
        email: Option<String>,
    ) -> Result<ImportAccountResult, String> {
        let plan = self
            .store
            .prepare_import_account(token, label, email)
            .map_err(|_| INVALID_REFRESH_TOKEN_MESSAGE.to_string())?;
        if let Some(op) = &plan.disk_op {
            self.run(op)?;
        }
        self.store.apply_import_account_plan(plan).map_err(|error| error.message())
    }

    fn sync_from_disk(&mut self, mode: SyncMode) {
        let scanned: Vec<ScannedFile> = self
            .files
            .iter()
            .map(|(name, disk)| ScannedFile { name: name.clone(), disk: disk.clone() })
            .collect();
        let snapshot = scan_accounts_files(&scanned, &"/accounts".to_string());
        let plan = build_disk_sync_plan(&self.store, snapshot, mode);
        for (path, disk) in &plan.writes {
            self.files.insert(path.name.clone(), Some(disk.clone()));
        }
        for path in &plan.removals {
            self.files.remove(&path.name);
        }
        self.store.apply_disk_sync_plan(plan);
    }

    fn finish_refresh_success(
        &mut self,
        id: &str,
        refreshed: RefreshedAccount,
    ) -> Result<RefreshSuccessResult, UnknownAccount> {
        let (result, op) = self.store.finish_refresh_success_without_persist(id, refreshed)?;
        if let Some(op) = op {
            if let Err(error) = self.run(&op) {
                return Ok(with_persist_warning(&error));
            }
        }
        Ok(result)
    }

    fn finish_refresh_failure(
        &mut self,
        id: &str,
        failure: FailureClass,
        retry_after: Option<Delay>,
        details: String,
    ) -> Result<(), UnknownAccount> {
        if let Some(plan) = self.store.finish_refresh_failure(id, failure, retry_after, details)? {
            let error = match &plan.trash_op {
                Some(op) => self.run(op).err(),
                None => None,
            };
            self.store.finish_auth_invalid_failure(&plan, error.as_deref())?;
        }
        Ok(())
    }
}

#[test]
fn finish_refresh_success_keeps_memory_state_on_persist_failure() {
    let mut store = Pool::new();
    let view = store
        .import_account(
            "rt_123".to_string(),
            Some("label".to_string()),
            Some("old@example.com".to_string()),
        )
        .expect("import succeeds")
        .account;

    let id = view.id.clone();
    let old_expires_at = after(utc_now(), 600);
    let old_last_refresh_at = utc_now();
    let record = store.record_mut(&id);
    record.access_token = Some("old_at".to_string());
    record.account_id = Some("acct_old".to_string());
    record.plan_type = Some("plus".to_string());
    record.access_token_expires_at = Some(old_expires_at);
    record.last_refresh_at = Some(old_last_refresh_at);
    record.routing_state = RoutingState::Warming;
    record.refresh_in_flight = true;
    store.writes_fail = true;

    let result = store
        .finish_refresh_success(
            &id,
            RefreshedAccount {
                access_token: "new_at".to_string(),
                refresh_token: Some("rt_rotated".to_string()),
                account_id: Some("acct_new".to_string()),
                plan_type: Some("pro".to_string()),
                email: Some("new@example.com".to_string()),
                access_token_expires_at: Some(after(utc_now(), 1800)),
            },
        )
        .expect("refresh should stay usable");
    assert!(
        result
            .persist_warning
            .as_deref()
            .is_some_and(|warning| warning.contains("create account parent dir"))
    );

    let record = store.record(&id);
    assert_eq!(record.refresh_token, "rt_rotated");
    assert_eq!(record.access_token.as_deref(), Some("new_at"));
    assert_eq!(record.account_id.as_deref(), Some("acct_new"));
    assert_eq!(record.plan_type.as_deref(), Some("pro"));
    assert_eq!(record.email.as_deref(), Some("new@example.com"));
    assert_ne!(record.access_token_expires_at, Some(old_expires_at));
    assert_ne!(record.last_refresh_at, Some(old_last_refresh_at));
    assert_eq!(record.routing_state, RoutingState::Ready);
    assert!(!record.refresh_in_flight);
    assert!(record.last_error.is_none());
    assert!(record.last_error_at.is_none());

    let parsed = store.file(&format!("{id}.json"));
    assert_eq!(parsed.refresh_token, "rt_123");
    assert_eq!(parsed.email.as_deref(), Some("old@example.com"));
}

#[test]
fn auth_invalid_moves_account_file_to_trash() {
    let mut store = Pool::new();
    let view = store
        .import_account(
            "rt_123".to_string(),
            Some("test-label".to_string()),
            Some("user@example.com".to_string()),
        )
        .expect("import succeeds")
        .account;

    let id = view.id;
    let path = format!("{id}.json");
    assert!(store.has_file(&path));

    store
        .finish_refresh_failure(&id, FailureClass::AuthInvalid, None, "invalid".to_string())
        .expect("failure applied");

    assert!(!store.has_file(&path));
    let parsed = store.trash.get(&format!("{id}.json")).expect("trash file").clone();
    assert_eq!(parsed.refresh_token, "rt_123");
    assert_eq!(parsed.label.as_deref(), Some("test-label"));
    assert_eq!(parsed.email.as_deref(), Some("user@example.com"));
    assert!(store.view(&id).is_err());
}

#[test]
fn auth_invalid_trash_failure_keeps_account_attached_and_records_persist_error() {
    let mut store = Pool::new();
    let view = store
        .import_account(
            "rt_123".to_string(),
            Some("test-label".to_string()),
            Some("user@example.com".to_string()),
        )
        .expect("import succeeds")
        .account;

    let id = view.id;
    store.trash_blocked = true;

    store
        .finish_refresh_failure(&id, FailureClass::AuthInvalid, None, "invalid".to_string())
        .expect("failure is absorbed");

    let view = store.view(&id).expect("account remains attached");
    assert_eq!(view.routing_state, RoutingState::AuthInvalid);
    assert_eq!(view.blocked_reason, Some(BlockedReason::AuthInvalid));
    assert!(view.blocked_until.is_none());
    assert!(
        view.last_error
            .as_deref()
            .is_some_and(|value| value.contains("invalid"))
    );
    assert!(
        view.last_error
            .as_deref()
            .is_some_and(|value| value.contains("move invalid account file to trash failed"))
    );
    assert!(store.has_file(&format!("{id}.json")));
    assert!(
        store.record(&id)
            .auth_invalid_tombstone
    );
}

#[test]
fn auth_invalid_uses_unique_trash_path_when_default_name_is_taken() {
    let mut store = Pool::new();
    let view = store
        .import_account(
            "rt_123".to_string(),
            Some("test-label".to_string()),
            Some("user@example.com".to_string()),
        )
        .expect("import succeeds")
        .account;

    let id = view.id;
    let canonical_trash_path = format!("{id}.json");
    store.trash.insert(
        canonical_trash_path.clone(),
        AccountFile { refresh_token: "existing".to_string(), label: None, email: None },
    );

    store
        .finish_refresh_failure(&id, FailureClass::AuthInvalid, None, "invalid".to_string())
        .expect("failure applied");

    let trash_files = store.trash.keys().cloned().collect::<Vec<_>>();
    assert_eq!(trash_files.len(), 2);
    assert!(trash_files.iter().any(|path| path == &canonical_trash_path));
    let moved_path = trash_files
        .iter()
        .find(|path| *path != &canonical_trash_path)
        .expect("moved file path");
    let parsed = store.trash.get(moved_path).expect("moved file").clone();
    assert_eq!(parsed.refresh_token, "rt_123");
}

#[test]
fn refresh_quota_failure_uses_upstream_retry_after_for_blocked_until() {
    let mut store = Pool::new();
    let view = store
        .import_account("rt_123".to_string(), None, None)
        .expect("import succeeds")
        .account;

    let id = view.id.clone();
    let record = store.record_mut(&id);
    record.refresh_in_flight = true;

    let before = utc_now();
    store
        .finish_refresh_failure(
            &id,
            FailureClass::QuotaExhausted,
            Some(Delay::from_secs(77)),
            "refresh quota exhausted".to_string(),
        )
        .expect("failure applied");

    let view = store.view(&id).expect("account remains");
    assert_eq!(view.routing_state, RoutingState::Cooldown);
    assert_eq!(view.blocked_reason, Some(BlockedReason::QuotaExhausted));
    assert_eq!(view.blocked_source, Some(BlockedSource::UpstreamRetryAfter));
    let blocked_until = view.blocked_until.expect("blocked until");
    assert!(blocked_until.nanos >= after(before, 76).nanos);
    assert!(blocked_until.nanos <= after(before, 78).nanos);
}

#[test]
fn retryable_block_keeps_longer_existing_retry_after_window() {
    let mut store = Pool::new();
    let view = store
        .import_account("rt_123".to_string(), None, None)
        .expect("import succeeds")
        .account;

    let id = view.id.clone();
    let first_before = utc_now();
    store
        .mark_request_failure(
            &id,
            FailureClass::QuotaExhausted,
            Some(Delay::from_secs(600)),
            "quota exhausted".to_string(),
        );

    let first_view = store.view(&id).expect("account remains");
    let first_until = first_view.blocked_until.expect("initial blocked until");
    assert_eq!(
        first_view.blocked_reason,
        Some(BlockedReason::QuotaExhausted)
    );
    assert_eq!(
        first_view.blocked_source,
        Some(BlockedSource::UpstreamRetryAfter)
    );
    assert!(first_until.nanos >= after(first_before, 599).nanos);

    store
        .mark_request_failure(
            &id,
            FailureClass::RateLimited,
            Some(Delay::from_secs(1)),
            "rate limited".to_string(),
        );

    let second_view = store.view(&id).expect("account remains");
    assert_eq!(second_view.blocked_until, Some(first_until));
    assert_eq!(
        second_view.blocked_reason,
        Some(BlockedReason::QuotaExhausted)
    );
    assert_eq!(
        second_view.blocked_source,
        Some(BlockedSource::UpstreamRetryAfter)
    );
    assert_eq!(second_view.last_error.as_deref(), Some("rate limited"));
}

#[test]
fn retryable_block_replaces_shorter_existing_window_with_longer_retry_after() {
    let mut store = Pool::new();
    let view = store
        .import_account("rt_123".to_string(), None, None)
        .expect("import succeeds")
        .account;

    let id = view.id.clone();
    store
        .mark_request_failure(
            &id,
            FailureClass::RateLimited,
            Some(Delay::from_secs(1)),
            "short retry".to_string(),
        );

    let before = utc_now();
    store
        .mark_request_failure(
            &id,
            FailureClass::QuotaExhausted,
            Some(Delay::from_secs(600)),
            "long retry".to_string(),
        );

    let view = store.view(&id).expect("account remains");
    let blocked_until = view.blocked_until.expect("blocked until");
    assert_eq!(view.blocked_reason, Some(BlockedReason::QuotaExhausted));
    assert_eq!(view.blocked_source, Some(BlockedSource::UpstreamRetryAfter));
    assert!(blocked_until.nanos >= after(before, 599).nanos);
    assert_eq!(view.last_error.as_deref(), Some("long retry"));
}

#[test]
fn local_backoff_retryable_block_does_not_shorten_longer_existing_retry_after_window() {
    let mut store = Pool::new();
    let view = store
        .import_account("rt_123".to_string(), None, None)
        .expect("import succeeds")
        .account;

    let id = view.id.clone();
    store
        .mark_request_failure(
            &id,
            FailureClass::RateLimited,
            Some(Delay::from_secs(600)),
            "long retry".to_string(),
        );

    let initial = store.view(&id).expect("account remains");
    let initial_until = initial.blocked_until.expect("blocked until");

    store
        .mark_request_failure(
            &id,
            FailureClass::RateLimited,
            None,
            "local backoff".to_string(),
        );

    let view = store.view(&id).expect("account remains");
    assert_eq!(view.blocked_until, Some(initial_until));
    assert_eq!(view.blocked_reason, Some(BlockedReason::RateLimited));
    assert_eq!(view.blocked_source, Some(BlockedSource::UpstreamRetryAfter));
    assert_eq!(view.last_error.as_deref(), Some("local backoff"));
    assert_eq!(
        store.record(&id)
            .local_backoff_level,
        1
    );
}

#[test]
fn invalidate_access_token_keeps_account_file_and_returns_to_cold() {
    let mut store = Pool::new();
    let view = store
        .import_account("rt_123".to_string(), None, None)
        .expect("import succeeds")
        .account;

    let id = view.id.clone();
    let record = store.record_mut(&id);
    record.access_token = Some("at_123".to_string());
    record.access_token_expires_at = Some(after(utc_now(), 1800));
    record.routing_state = RoutingState::Ready;
    record.blocked_reason = Some(BlockedReason::RateLimited);
    record.blocked_source = Some(BlockedSource::LocalBackoff);
    record.blocked_until = Some(after(utc_now(), 60));

    store.invalidate_access_token(&id);

    let view = store.view(&id).expect("account remains");
    assert_eq!(view.routing_state, RoutingState::Ready);
    assert!(view.access_token_expires_at.is_none());
    assert_eq!(view.blocked_reason, Some(BlockedReason::RateLimited));
    assert!(store.has_file(&format!("{id}.json")));
}

#[test]
fn access_token_rejected_enters_temporary_cooldown_without_trash() {
    let mut store = Pool::new();
    let view = store
        .import_account("rt_123".to_string(), None, None)
        .expect("import succeeds")
        .account;

    let id = view.id.clone();
    let record = store.record_mut(&id);
    record.access_token = Some("at_123".to_string());
    record.access_token_expires_at = Some(after(utc_now(), 1800));
    record.in_flight_requests = 1;

    store
        .mark_request_failure(
            &id,
            FailureClass::AccessTokenRejected,
            None,
            "request failed".to_string(),
        );

    let view = store.view(&id).expect("account remains");
    assert_eq!(view.routing_state, RoutingState::TemporarilyUnavailable);
    assert_eq!(
        view.blocked_reason,
        Some(BlockedReason::TemporarilyUnavailable)
    );
    assert!(store.has_file(&format!("{id}.json")));
}

#[test]
fn access_token_rejected_does_not_shorten_existing_longer_block() {
    let mut store = Pool::new();
    let view = store
        .import_account("rt_123".to_string(), None, None)
        .expect("import succeeds")
        .account;

    let id = view.id.clone();
    store
        .mark_request_failure(
            &id,
            FailureClass::QuotaExhausted,
            Some(Delay::from_secs(600)),
            "quota exhausted".to_string(),
        );

    let initial = store.view(&id).expect("account remains");
    let initial_until = initial.blocked_until.expect("blocked until");

    let record = store.record_mut(&id);
    record.access_token = Some("at_123".to_string());
    record.access_token_expires_at = Some(after(utc_now(), 1800));
    record.in_flight_requests = 1;

    store
        .mark_request_failure(
            &id,
            FailureClass::AccessTokenRejected,
            None,
            "request rejected access token".to_string(),
        );

    let view = store.view(&id).expect("account remains");
    assert_eq!(view.routing_state, RoutingState::TemporarilyUnavailable);
    assert_eq!(view.blocked_until, Some(initial_until));
    assert_eq!(view.blocked_reason, Some(BlockedReason::QuotaExhausted));
    assert_eq!(view.blocked_source, Some(BlockedSource::UpstreamRetryAfter));
    assert_eq!(
        view.last_error.as_deref(),
        Some("request rejected access token")
    );
}

#[test]
fn temporary_failure_without_retry_after_does_not_shorten_existing_longer_block() {
    let mut store = Pool::new();
    let view = store
        .import_account("rt_123".to_string(), None, None)
        .expect("import succeeds")
        .account;

    let id = view.id.clone();
    store
        .mark_request_failure(
            &id,
            FailureClass::RateLimited,
            Some(Delay::from_secs(600)),
            "rate limited".to_string(),
        );

    let initial = store.view(&id).expect("account remains");
    let initial_until = initial.blocked_until.expect("blocked until");

    store
        .mark_request_failure(
            &id,
            FailureClass::TemporaryFailure,
            None,
            "temporary failure".to_string(),
        );

    let view = store.view(&id).expect("account remains");
    assert_eq!(view.routing_state, RoutingState::TemporarilyUnavailable);
    assert_eq!(view.blocked_until, Some(initial_until));
    assert_eq!(view.blocked_reason, Some(BlockedReason::RateLimited));
    assert_eq!(view.blocked_source, Some(BlockedSource::UpstreamRetryAfter));
    assert_eq!(view.last_error.as_deref(), Some("temporary failure"));
}

#[test]
fn mark_request_failure_auth_invalid_sets_permanent_block() {
    let mut store = Pool::new();
    let view = store
        .import_account("rt_123".to_string(), None, None)
        .expect("import succeeds")
        .account;

    let id = view.id.clone();
    let record = store.record_mut(&id);
    record.access_token = Some("at_123".to_string());
    record.access_token_expires_at = Some(after(utc_now(), 1800));
    record.in_flight_requests = 1;

    store
        .mark_request_failure(
            &id,
            FailureClass::AuthInvalid,
            None,
            "auth invalid".to_string(),
        );

    let view = store.view(&id).expect("account remains");
    assert_eq!(view.routing_state, RoutingState::AuthInvalid);
    assert_eq!(view.blocked_reason, Some(BlockedReason::AuthInvalid));
    assert_eq!(view.blocked_source, Some(BlockedSource::FixedPolicy));
    assert!(view.blocked_until.is_none());
    assert_eq!(view.last_error.as_deref(), Some("auth invalid"));
}

#[test]
fn request_success_does_not_clear_active_block() {
    let mut store = Pool::new();
    let view = store
        .import_account("rt_123".to_string(), None, None)
        .expect("import succeeds")
        .account;

    let id = view.id.clone();
    let record = store.record_mut(&id);
    record.access_token = Some("at_123".to_string());
    record.routing_state = RoutingState::Cooldown;
    record.blocked_reason = Some(BlockedReason::RateLimited);
    record.blocked_source = Some(BlockedSource::LocalBackoff);
    record.blocked_until = Some(after(utc_now(), 60));
    record.in_flight_requests = 1;
    record.local_backoff_level = 3;
    record.last_error = Some("rate limited".to_string());

    store.mark_request_success(&id);

    let view = store.view(&id).expect("account remains");
    assert_eq!(view.routing_state, RoutingState::Cooldown);
    assert_eq!(view.blocked_reason, Some(BlockedReason::RateLimited));
    assert_eq!(view.in_flight_requests, 0);
    assert_eq!(
        store.record(&id)
            .local_backoff_level,
        3
    );
    assert_eq!(view.last_error.as_deref(), Some("rate limited"));
}

#[test]
fn refresh_success_does_not_clear_active_block() {
    let mut store = Pool::new();
    let view = store
        .import_account("rt_123".to_string(), None, None)
        .expect("import succeeds")
        .account;

    let id = view.id.clone();
    let record = store.record_mut(&id);
    record.routing_state = RoutingState::Cooldown;
    record.blocked_reason = Some(BlockedReason::RateLimited);
    record.blocked_source = Some(BlockedSource::LocalBackoff);
    record.blocked_until = Some(after(utc_now(), 60));
    record.refresh_in_flight = true;
    record.last_error = Some("rate limited".to_string());

    store
        .finish_refresh_success(
            &id,
            RefreshedAccount {
                access_token: "at_123".to_string(),
                refresh_token: None,
                account_id: Some("acct_123".to_string()),
                plan_type: Some("plus".to_string()),
                email: Some("user@example.com".to_string()),
                access_token_expires_at: Some(after(utc_now(), 1800)),
            },
        )
        .expect("refresh succeeds");

    let view = store.view(&id).expect("account remains");
    assert_eq!(view.routing_state, RoutingState::Cooldown);
    assert_eq!(view.blocked_reason, Some(BlockedReason::RateLimited));
    assert_eq!(view.last_error.as_deref(), Some("rate limited"));
}

#[test]
fn refresh_success_preserves_existing_account_metadata_when_new_token_omits_it() {
    let mut store = Pool::new();
    let view = store
        .import_account(
            "rt_123".to_string(),
            Some("label".to_string()),
            Some("old@example.com".to_string()),
        )
        .expect("import succeeds")
        .account;

    let id = view.id.clone();
    let record = store.record_mut(&id);
    record.account_id = Some("acct_old".to_string());
    record.plan_type = Some("plus".to_string());
    record.refresh_in_flight = true;
    record.routing_state = RoutingState::Warming;

    store
        .finish_refresh_success(
            &id,
            RefreshedAccount {
                access_token: "at_123".to_string(),
                refresh_token: None,
                account_id: None,
                plan_type: None,
                email: None,
                access_token_expires_at: Some(after(utc_now(), 1800)),
            },
        )
        .expect("refresh succeeds");

    let view = store.view(&id).expect("account remains");
    assert_eq!(view.account_id.as_deref(), Some("acct_old"));
    assert_eq!(view.plan_type.as_deref(), Some("plus"));
    assert_eq!(view.email.as_deref(), Some("old@example.com"));
}

#[test]
fn request_rejected_preserves_existing_block() {
    let mut store = Pool::new();
    let view = store
        .import_account("rt_123".to_string(), None, None)
        .expect("import succeeds")
        .account;

    let id = view.id.clone();
    let record = store.record_mut(&id);
    record.access_token = Some("at_123".to_string());
    record.routing_state = RoutingState::Cooldown;
    record.blocked_reason = Some(BlockedReason::RateLimited);
    record.blocked_source = Some(BlockedSource::LocalBackoff);
    record.blocked_until = Some(after(utc_now(), 60));
    record.in_flight_requests = 1;

    store
        .mark_request_failure(
            &id,
            FailureClass::RequestRejected,
            None,
            "bad request".to_string(),
        );

    let view = store.view(&id).expect("account remains");
    assert_eq!(view.routing_state, RoutingState::Cooldown);
    assert_eq!(view.blocked_reason, Some(BlockedReason::RateLimited));
    assert_eq!(view.last_error.as_deref(), Some("bad request"));
}

#[test]
fn wake_account_clears_local_block_without_clearing_last_error() {
    let mut store = Pool::new();
    let view = store
        .import_account("rt_123".to_string(), None, None)
        .expect("import succeeds")
        .account;

    let id = view.id.clone();
    let record = store.record_mut(&id);
    record.access_token = Some("at_123".to_string());
    record.routing_state = RoutingState::Cooldown;
    record.blocked_reason = Some(BlockedReason::RateLimited);
    record.blocked_source = Some(BlockedSource::LocalBackoff);
    record.blocked_until = Some(after(utc_now(), 300));
    record.local_backoff_level = 4;
    record.last_error = Some("rate limited".to_string());

    let result = store.wake_account(&id).expect("wake succeeds");

    assert_eq!(result.disposition, WakeDisposition::Woken);
    assert_eq!(result.account.routing_state, RoutingState::Ready);
    assert!(result.account.blocked_reason.is_none());
    assert!(result.account.blocked_source.is_none());
    assert!(result.account.blocked_until.is_none());
    assert_eq!(result.account.last_error.as_deref(), Some("rate limited"));
    assert_eq!(
        store.record(&id)
            .local_backoff_level,
        0
    );
}

#[test]
fn wake_account_skips_auth_invalid() {
    let mut store = Pool::new();
    let view = store
        .import_account("rt_123".to_string(), None, None)
        .expect("import succeeds")
        .account;

    let id = view.id.clone();
    let record = store.record_mut(&id);
    record.routing_state = RoutingState::AuthInvalid;
    record.blocked_reason = Some(BlockedReason::AuthInvalid);
    record.blocked_source = Some(BlockedSource::FixedPolicy);
    record.blocked_until = None;
    record.local_backoff_level = 7;

    let result = store.wake_account(&id).expect("wake succeeds");

    assert_eq!(result.disposition, WakeDisposition::SkippedAuthInvalid);
    assert_eq!(result.account.routing_state, RoutingState::AuthInvalid);
    assert_eq!(
        result.account.blocked_reason,
        Some(BlockedReason::AuthInvalid)
    );
    assert_eq!(
        store.record(&id)
            .local_backoff_level,
        7
    );
}

#[test]
fn rests_double_up_to_the_limit() {
    let secs: Vec<u128> = (0..14).map(|level| next_local_backoff(level).as_secs()).collect();
    assert_eq!(secs, vec![1, 2, 4, 8, 16, 32, 64, 128, 256, 512, 1024, 1800, 1800, 1800]);
    assert_eq!(next_local_backoff(u32::MAX).as_secs(), 1800);
}

#[test]
fn failures_block_for_as_long_as_they_say() {
    let now = timestamp(1_000, 0);
    let cases = [
        (FailureClass::AccessTokenRejected, None, Some(60)),
        (FailureClass::TemporaryFailure, None, Some(60)),
        (FailureClass::TemporaryFailure, Some(9), Some(9)),
        (FailureClass::RiskControlled, None, Some(1800)),
        (FailureClass::RateLimited, None, Some(1)),
        (FailureClass::QuotaExhausted, Some(30), Some(30)),
        (FailureClass::RequestRejected, None, None),
        (FailureClass::InternalFailure, None, None),
    ];
    for (failure, retry_after, until) in cases {
        let mut store = Pool::new();
        let id = store.import_account("rt".to_string(), None, None).expect("import").account.id;
        store.apply_failure_at(
            &id,
            now,
            failure,
            retry_after.map(Delay::from_secs),
            "failed".to_string(),
        );
        assert_eq!(store.record(&id).blocked_until, until.map(|secs| after(now, secs)), "{failure:?}");
        assert_eq!(store.record(&id).last_error.as_deref(), Some("failed"));
    }
}

#[test]
fn blocks_end_at_their_time() {
    let mut store = Pool::new();
    let id = store.import_account("rt".to_string(), None, None).expect("import").account.id;
    let now = timestamp(1_000, 0);
    store.apply_failure_at(&id, now, FailureClass::RiskControlled, None, "risk".to_string());
    assert_eq!(store.record(&id).routing_state, RoutingState::RiskControlled);
    store.refresh_expired_blocks_at(after(now, 1799));
    assert!(store.record(&id).blocked_until.is_some());
    store.refresh_expired_blocks_at(after(now, 1800));
    assert!(store.record(&id).blocked_until.is_none());
    assert!(store.record(&id).blocked_reason.is_none());
}

#[test]
fn waking_all_counts_those_that_stay() {
    let mut store = Pool::new();
    let first = store.import_account("rt_1".to_string(), None, None).expect("import").account.id;
    let second = store.import_account("rt_2".to_string(), None, None).expect("import").account.id;
    store.record_mut(&first).blocked_reason = Some(BlockedReason::RateLimited);
    store.mark_request_failure(&second, FailureClass::AuthInvalid, None, "gone".to_string());
    let result = store.wake_all_accounts();
    assert_eq!((result.woken, result.skipped_auth_invalid), (1, 1));
    assert!(store.wake_account("other").is_err());
}
