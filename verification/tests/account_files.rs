#![allow(dead_code)]
use codaze::accounts::disk::{
    account_file_id, scan_accounts_files, stable_account_id, trash_candidate, ImportAccountResult, ScannedFile, SyncMode,
};
use codaze::accounts::lifecycle::with_persist_warning;
use codaze::accounts::sync::build_disk_sync_plan;
use codaze::accounts::{
    AccountDiskOp, AccountFile, AccountRecord, AccountStore, RefreshSuccessResult,
    RefreshedAccount, UnknownAccount, INVALID_REFRESH_TOKEN_MESSAGE,
    BlockedReason, BlockedSource, RoutingState,
};
use codaze::classifier::FailureClass;
use codaze::time::{utc_now, Delay, Timestamp};
use std::collections::BTreeMap;
use std::ops::{Deref, DerefMut};

fn after(at: Timestamp, seconds: i128) -> Timestamp {
    Timestamp { nanos: at.nanos + seconds * 1_000_000_000 }
}

/// A pool together with the files that it works on.
struct Pool {
    store: AccountStore,
    files: BTreeMap<String, Option<AccountFile>>,
    trash: BTreeMap<String, AccountFile>,
    trash_blocked: bool,
    writes_fail: bool,
}

impl Deref for Pool {
    type Target = AccountStore;

    fn deref(&self) -> &AccountStore {
        &self.store
    }
}

impl DerefMut for Pool {
    fn deref_mut(&mut self) -> &mut AccountStore {
        &mut self.store
    }
}

impl Pool {
    fn new() -> Pool {
        Pool {
            store: AccountStore::new("/accounts".to_string()),
            files: BTreeMap::new(),
            trash: BTreeMap::new(),
            trash_blocked: false,
            writes_fail: false,
        }
    }

    fn record(&self, id: &str) -> &AccountRecord {
        let at = self.store.position(id).expect("record exists");
        &self.store.records[at]
    }

    fn record_mut(&mut self, id: &str) -> &mut AccountRecord {
        let at = self.store.position(id).expect("record exists");
        &mut self.store.records[at]
    }

    fn write(&mut self, name: &str, file: AccountFile) {
        self.files.insert(name.to_string(), Some(file));
    }

    fn corrupt(&mut self, name: &str) {
        self.files.insert(name.to_string(), None);
    }

    fn has_file(&self, name: &str) -> bool {
        self.files.contains_key(name)
    }

    fn file(&self, name: &str) -> AccountFile {
        self.files.get(name).expect("file should exist").clone().expect("readable file")
    }

    fn run(&mut self, op: &AccountDiskOp) -> Result<(), String> {
        match op {
            AccountDiskOp::Write { path, disk } => {
                if self.writes_fail {
                    return Err("create account parent dir".to_string());
                }
                self.write(&path.name, disk.clone());
            }
            AccountDiskOp::Remove { path } => {
                self.files.remove(&path.name);
            }
            AccountDiskOp::MoveToTrash { source, .. } => {
                if self.trash_blocked {
                    return Err("create trash dir".to_string());
                }
                let mut attempt = 0;
                let mut name = trash_candidate(&source.name, attempt, 7);
                while self.trash.contains_key(&name) {
                    attempt += 1;
                    name = trash_candidate(&source.name, attempt, 7);
                }
                let file = self.files.remove(&source.name).expect("file").expect("readable");
                self.trash.insert(name, file);
            }
        }
        Ok(())
    }

    fn import_account(
        &mut self,
        token: String,
        label: Option<String>,
        email: Option<String>,
    ) -> Result<ImportAccountResult, String> {
        let plan = self
            .store
            .prepare_import_account(token, label, email)
            .map_err(|_| INVALID_REFRESH_TOKEN_MESSAGE.to_string())?;
        if let Some(op) = &plan.disk_op {
            self.run(op)?;
        }
        self.store.apply_import_account_plan(plan).map_err(|error| error.message())
    }

    fn sync_from_disk(&mut self, mode: SyncMode) {
        let scanned: Vec<ScannedFile> = self
            .files
            .iter()
            .map(|(name, disk)| ScannedFile { name: name.clone(), disk: disk.clone() })
            .collect();
        let snapshot = scan_accounts_files(&scanned, &"/accounts".to_string());
        let plan = build_disk_sync_plan(&self.store, snapshot, mode);
        for (path, disk) in &plan.writes {
            self.files.insert(path.name.clone(), Some(disk.clone()));
        }
        for path in &plan.removals {
            self.files.remove(&path.name);
        }
        self.store.apply_disk_sync_plan(plan);
    }

    fn finish_refresh_success(
        &mut self,
        id: &str,
        refreshed: RefreshedAccount,
    ) -> Result<RefreshSuccessResult, UnknownAccount> {
        let (result, op) = self.store.finish_refresh_success_without_persist(id, refreshed)?;
        if let Some(op) = op {
            if let Err(error) = self.run(&op) {
                return Ok(with_persist_warning(&error));
            }
        }
        Ok(result)
    }

    fn finish_refresh_failure(
        &mut self,
        id: &str,
        failure: FailureClass,
        retry_after: Option<Delay>,
        details: String,
    ) -> Result<(), UnknownAccount> {
        if let Some(plan) = self.store.finish_refresh_failure(id, failure, retry_after, details)? {
            let error = match &plan.trash_op {
                Some(op) => self.run(op).err(),
                None => None,
            };
            self.store.finish_auth_invalid_failure(&plan, error.as_deref())?;
        }
        Ok(())
    }
}

#[test]
fn import_account_persists_json_file() {
    let mut store = Pool::new();

    let result = store
        .import_account(
            "rt_123".to_string(),
            Some("label".to_string()),
            Some("user@example.com".to_string()),
        )
        .expect("import succeeds");
    let view = result.account;
    assert!(!result.already_exists);

    let parsed = store.file(&format!("{}.json", view.id));
    assert_eq!(
        parsed,
        AccountFile {
            refresh_token: "rt_123".to_string(),
            label: Some("label".to_string()),
            email: Some("user@example.com".to_string()),
        }
    );
}

#[test]
fn import_account_rejects_blank_refresh_token() {
    let mut store = Pool::new();

    let error = store
        .import_account("   ".to_string(), None, None)
        .expect_err("blank refresh token should fail");

    assert_eq!(error.to_string(), INVALID_REFRESH_TOKEN_MESSAGE);
    assert!(store.list().is_empty());
}

#[test]
fn sync_from_disk_uses_file_stem_as_account_id() {
    let mut store = Pool::new();
    let path = "manual-account.json";
    store.write(
        path,
        AccountFile {
            refresh_token: "rt_abc".to_string(),
            label: None,
            email: Some("manual@example.com".to_string()),
        },
    );

    store.sync_from_disk(SyncMode::Startup);

    let view = store.view("manual-account").expect("account loaded");
    assert_eq!(view.email.as_deref(), Some("manual@example.com"));
}

#[test]
fn sync_from_disk_skips_blank_refresh_token_file() {
    let mut store = Pool::new();
    store.write(
        "blank.json",
        AccountFile {
            refresh_token: "   ".to_string(),
            label: Some("bad".to_string()),
            email: Some("bad@example.com".to_string()),
        },
    );

    store.sync_from_disk(SyncMode::Startup);

    assert!(store.list().is_empty());
}

#[test]
fn rescan_keeps_existing_record_when_file_refresh_token_is_invalid() {
    let mut store = Pool::new();
    let account = store
        .import_account(
            "rt_123".to_string(),
            Some("label".to_string()),
            Some("user@example.com".to_string()),
        )
        .expect("import succeeds")
        .account;

    let id = account.id.clone();
    store.write(
        &format!("{id}.json"),
        AccountFile {
            refresh_token: "   ".to_string(),
            label: Some("bad".to_string()),
            email: Some("bad@example.com".to_string()),
        },
    );

    store.sync_from_disk(SyncMode::Rescan);

    let view = store.view(&id).expect("existing record should remain");
    assert_eq!(view.label.as_deref(), Some("label"));
    assert_eq!(view.email.as_deref(), Some("user@example.com"));
}

#[test]
fn import_account_returns_existing_record_for_duplicate_refresh_token() {
    let mut store = Pool::new();

    let first = store
        .import_account(
            "rt_123".to_string(),
            Some("first".to_string()),
            Some("first@example.com".to_string()),
        )
        .expect("first import succeeds");
    let second = store
        .import_account(
            "rt_123".to_string(),
            Some("updated".to_string()),
            Some("updated@example.com".to_string()),
        )
        .expect("second import succeeds");

    assert!(!first.already_exists);
    assert!(second.already_exists);
    assert_eq!(first.account.id, second.account.id);
    assert_eq!(store.records.len(), 1);
    assert_eq!(second.account.label.as_deref(), Some("updated"));
    assert_eq!(second.account.email.as_deref(), Some("updated@example.com"));

    let parsed = store.file(&format!("{}.json", first.account.id));
    assert_eq!(parsed.label.as_deref(), Some("updated"));
    assert_eq!(parsed.email.as_deref(), Some("updated@example.com"));
}

#[test]
fn import_account_duplicate_refresh_token_only_updates_provided_non_empty_metadata() {
    let mut store = Pool::new();

    let first = store
        .import_account(
            "rt_123".to_string(),
            Some("first".to_string()),
            Some("first@example.com".to_string()),
        )
        .expect("first import succeeds");
    let second = store
        .import_account(
            "rt_123".to_string(),
            Some("   ".to_string()),
            Some("updated@example.com".to_string()),
        )
        .expect("second import succeeds");

    assert!(second.already_exists);
    assert_eq!(first.account.id, second.account.id);
    assert_eq!(second.account.label.as_deref(), Some("first"));
    assert_eq!(second.account.email.as_deref(), Some("updated@example.com"));

    let parsed = store.file(&format!("{}.json", first.account.id));
    assert_eq!(parsed.label.as_deref(), Some("first"));
    assert_eq!(parsed.email.as_deref(), Some("updated@example.com"));
}

#[test]
fn sync_from_disk_merges_duplicate_refresh_token_files() {
    let mut store = Pool::new();
    store.write(
        "a.json",
        AccountFile {
            refresh_token: "rt_dup".to_string(),
            label: Some("canonical".to_string()),
            email: Some("a@example.com".to_string()),
        },
    );
    store.write(
        "b.json",
        AccountFile {
            refresh_token: "rt_dup".to_string(),
            label: Some("duplicate".to_string()),
            email: Some("b@example.com".to_string()),
        },
    );

    store.sync_from_disk(SyncMode::Startup);

    let accounts = store.list();
    assert_eq!(accounts.len(), 1);
    assert_eq!(accounts[0].id, "a");
    assert_eq!(accounts[0].label.as_deref(), Some("canonical"));
    assert_eq!(accounts[0].email.as_deref(), Some("a@example.com"));
    assert!(store.has_file("a.json"));
    assert!(!store.has_file("b.json"));
}

#[test]
fn sync_from_disk_merges_duplicate_metadata_into_canonical_file() {
    let mut store = Pool::new();
    store.write(
        "a.json",
        AccountFile {
            refresh_token: "rt_dup".to_string(),
            label: None,
            email: None,
        },
    );
    store.write(
        "b.json",
        AccountFile {
            refresh_token: "rt_dup".to_string(),
            label: Some("merged-label".to_string()),
            email: Some("merged@example.com".to_string()),
        },
    );

    store.sync_from_disk(SyncMode::Startup);

    let parsed = store.file("a.json");
    assert_eq!(
        parsed,
        AccountFile {
            refresh_token: "rt_dup".to_string(),
            label: Some("merged-label".to_string()),
            email: Some("merged@example.com".to_string()),
        }
    );
}

#[test]
fn rescan_prefers_existing_in_memory_record_over_smaller_duplicate_filename() {
    let mut store = Pool::new();
    store.write(
        "b.json",
        AccountFile {
            refresh_token: "rt_dup".to_string(),
            label: Some("existing".to_string()),
            email: None,
        },
    );

    store.sync_from_disk(SyncMode::Startup);

    let record = store.record_mut("b");
    record.access_token = Some("at_existing".to_string());
    record.access_token_expires_at = Some(after(utc_now(), 1800));
    record.last_selected_at = Some(utc_now());

    store.write(
        "a.json",
        AccountFile {
            refresh_token: "rt_dup".to_string(),
            label: Some("duplicate".to_string()),
            email: Some("dup@example.com".to_string()),
        },
    );

    store.sync_from_disk(SyncMode::Rescan);

    let accounts = store.list();
    assert_eq!(accounts.len(), 1);
    assert_eq!(accounts[0].id, "b");
    assert!(store.has_file("b.json"));
    assert!(!store.has_file("a.json"));
}

#[test]
fn rescan_uses_canonical_file_metadata_as_merge_base() {
    let mut store = Pool::new();
    store.write(
        "b.json",
        AccountFile {
            refresh_token: "rt_dup".to_string(),
            label: Some("initial".to_string()),
            email: Some("initial@example.com".to_string()),
        },
    );

    store.sync_from_disk(SyncMode::Startup);

    let record = store.record_mut("b");
    record.access_token = Some("at_existing".to_string());
    record.access_token_expires_at = Some(after(utc_now(), 1800));
    record.last_selected_at = Some(utc_now());
    record.label = Some("memory-only".to_string());
    record.email = Some("memory@example.com".to_string());

    store.write(
        "b.json",
        AccountFile {
            refresh_token: "rt_dup".to_string(),
            label: Some("edited-on-disk".to_string()),
            email: None,
        },
    );
    store.write(
        "a.json",
        AccountFile {
            refresh_token: "rt_dup".to_string(),
            label: Some("duplicate-label".to_string()),
            email: Some("duplicate@example.com".to_string()),
        },
    );

    store.sync_from_disk(SyncMode::Rescan);

    let view = store.view("b").expect("canonical record survives");
    assert_eq!(view.label.as_deref(), Some("edited-on-disk"));
    assert_eq!(view.email.as_deref(), Some("duplicate@example.com"));

    let parsed = store.file("b.json");
    assert_eq!(parsed.label.as_deref(), Some("edited-on-disk"));
    assert_eq!(parsed.email.as_deref(), Some("duplicate@example.com"));
    assert!(!store.has_file("a.json"));
}

#[test]
fn rescan_keeps_existing_record_when_canonical_file_is_temporarily_invalid() {
    let mut store = Pool::new();
    let view = store
        .import_account(
            "rt_123".to_string(),
            Some("label".to_string()),
            Some("user@example.com".to_string()),
        )
        .expect("import succeeds")
        .account;

    let id = view.id.clone();
    let original_last_selected_at = utc_now();
    let original_expires_at = after(utc_now(), 1800);
    let record = store.record_mut(&id);
    record.access_token = Some("at_123".to_string());
    record.account_id = Some("acct_123".to_string());
    record.plan_type = Some("plus".to_string());
    record.access_token_expires_at = Some(original_expires_at);
    record.last_selected_at = Some(original_last_selected_at);
    record.routing_state = RoutingState::Ready;

    store.corrupt(&format!("{id}.json"));

    store.sync_from_disk(SyncMode::Rescan);

    let view = store.view(&id).expect("account remains loaded");
    assert_eq!(view.label.as_deref(), Some("label"));
    assert_eq!(view.email.as_deref(), Some("user@example.com"));
    assert_eq!(view.account_id.as_deref(), Some("acct_123"));
    assert_eq!(view.plan_type.as_deref(), Some("plus"));
    assert_eq!(view.access_token_expires_at, Some(original_expires_at));
    assert_eq!(view.last_selected_at, Some(original_last_selected_at));
    assert_eq!(view.routing_state, RoutingState::Ready);
    assert!(!store.record(&id).detached);
}

#[test]
fn rescan_preserves_refresh_target_for_existing_record() {
    let mut store = Pool::new();
    store.write(
        "b.json",
        AccountFile {
            refresh_token: "rt_dup".to_string(),
            label: None,
            email: None,
        },
    );

    store.sync_from_disk(SyncMode::Startup);

    let record = store.record_mut("b");
    record.refresh_in_flight = true;
    record.routing_state = RoutingState::Warming;
    record.in_flight_requests = 1;

    store.write(
        "a.json",
        AccountFile {
            refresh_token: "rt_dup".to_string(),
            label: Some("duplicate".to_string()),
            email: None,
        },
    );

    store.sync_from_disk(SyncMode::Rescan);
    store
        .finish_refresh_success(
            "b",
            RefreshedAccount {
                access_token: "at_new".to_string(),
                refresh_token: Some("rt_rotated".to_string()),
                account_id: Some("acct_123".to_string()),
                plan_type: Some("plus".to_string()),
                email: Some("user@example.com".to_string()),
                access_token_expires_at: Some(after(utc_now(), 1800)),
            },
        )
        .expect("refresh success");

    let view = store.view("b").expect("canonical record survives");
    assert_eq!(view.account_id.as_deref(), Some("acct_123"));
    assert!(store.has_file("b.json"));
    assert!(!store.has_file("a.json"));

    let parsed = store.file("b.json");
    assert_eq!(parsed.refresh_token, "rt_rotated");
}

#[test]
fn rescan_does_not_override_loaded_refresh_token_from_disk_edit() {
    let mut store = Pool::new();
    let view = store
        .import_account(
            "rt_original".to_string(),
            Some("label".to_string()),
            Some("user@example.com".to_string()),
        )
        .expect("import succeeds")
        .account;

    let id = view.id.clone();
    store.write(
        &format!("{id}.json"),
        AccountFile {
            refresh_token: "rt_edited".to_string(),
            label: Some("edited".to_string()),
            email: Some("edited@example.com".to_string()),
        },
    );

    store.sync_from_disk(SyncMode::Rescan);

    let record = store.record(&id);
    assert_eq!(record.refresh_token, "rt_original");

    let view = store.view(&id).expect("account view");
    assert_eq!(view.label.as_deref(), Some("edited"));
    assert_eq!(view.email.as_deref(), Some("edited@example.com"));
}

#[test]
fn rescan_preserves_auth_invalid_tombstone_after_trash_failure() {
    let mut store = Pool::new();
    let view = store
        .import_account(
            "rt_123".to_string(),
            Some("label".to_string()),
            Some("user@example.com".to_string()),
        )
        .expect("import succeeds")
        .account;

    let id = view.id.clone();
    let record = store.record_mut(&id);
    record.routing_state = RoutingState::AuthInvalid;
    record.blocked_reason = Some(BlockedReason::AuthInvalid);
    record.blocked_source = Some(BlockedSource::FixedPolicy);
    record.blocked_until = None;
    record.auth_invalid_tombstone = true;

    store.sync_from_disk(SyncMode::Rescan);

    let record = store.record(&id);
    assert!(record.auth_invalid_tombstone);
    assert_eq!(record.routing_state, RoutingState::AuthInvalid);
    assert_eq!(record.blocked_reason, Some(BlockedReason::AuthInvalid));
    assert!(record.blocked_until.is_none());

    let view = store.view(&id).expect("account view");
    assert_eq!(view.routing_state, RoutingState::AuthInvalid);
    assert_eq!(view.blocked_reason, Some(BlockedReason::AuthInvalid));
    assert!(view.blocked_until.is_none());
}

#[test]
fn importing_the_same_account_twice_changes_nothing() {
    let mut store = Pool::new();
    let first = store
        .import_account("rt_1".to_string(), Some("label".to_string()), None)
        .expect("import succeeds");
    let before = store.file(&format!("{}.json", first.account.id));
    store.writes_fail = true;
    let second = store
        .import_account("  rt_1 ".to_string(), Some("label".to_string()), None)
        .expect("nothing is written");
    assert!(second.already_exists);
    assert_eq!(first.account, second.account);
    assert_eq!(before, store.file(&format!("{}.json", first.account.id)));
}

#[test]
fn account_ids_follow_from_the_token() {
    assert_eq!(stable_account_id("rt_123").len(), 32);
    assert_eq!(stable_account_id(""), "e3b0c44298fc1c149afbf4c8996fb924");
    assert_eq!(stable_account_id("abc"), "ba7816bf8f01cfea414140de5dae2223");
}

#[test]
fn names_of_account_files_give_ids() {
    assert_eq!(account_file_id("a.json"), Some("a".to_string()));
    assert_eq!(account_file_id("a.b.json"), Some("a.b".to_string()));
    assert_eq!(account_file_id(".json"), None);
    assert_eq!(account_file_id("a.txt"), None);
    assert_eq!(account_file_id("json"), None);
}

#[test]
fn settled_files_are_neither_written_nor_removed() {
    let mut store = Pool::new();
    store.import_account("rt_1".to_string(), None, None).expect("import succeeds");
    store.import_account("rt_2".to_string(), None, None).expect("import succeeds");
    for mode in [SyncMode::Startup, SyncMode::Rescan] {
        let scanned: Vec<ScannedFile> = store
            .files
            .iter()
            .map(|(name, disk)| ScannedFile { name: name.clone(), disk: disk.clone() })
            .collect();
        let snapshot = scan_accounts_files(&scanned, &"/accounts".to_string());
        let plan = build_disk_sync_plan(&store.store, snapshot, mode);
        assert!(plan.writes.is_empty());
        assert!(plan.removals.is_empty());
        assert_eq!(plan.upserts.len(), 2);
    }
}

#[test]
fn accounts_in_use_outlive_their_files() {
    let mut store = Pool::new();
    let id = store.import_account("rt_1".to_string(), None, None).expect("import").account.id;
    store.record_mut(&id).in_flight_requests = 1;
    store.files.clear();
    store.sync_from_disk(SyncMode::Rescan);
    assert!(store.record(&id).detached);
    store.release_selection(&id);
    assert!(store.view(&id).is_err());
}

#[test]
fn removed_accounts_are_gone_at_once_when_idle() {
    let mut store = Pool::new();
    let id = store.import_account("rt_1".to_string(), None, None).expect("import").account.id;
    assert!(store.prepare_remove_account("other").is_none());
    let plan = store.prepare_remove_account(&id).expect("account is known");
    store.run(&plan.disk_op.clone()).expect("file is removed");
    store.apply_remove_account_plan(plan);
    assert!(store.view(&id).is_err());
    assert!(!store.has_file(&format!("{id}.json")));
}

#[test]
fn names_in_the_trash_tell_attempts_apart() {
    let first = trash_candidate("a.json", 0, 5);
    let second = trash_candidate("a.json", 1, 5);
    let third = trash_candidate("a.json", 2, 5);
    assert_eq!(first, "a.json");
    assert!(first != second && second != third && first != third);
}
