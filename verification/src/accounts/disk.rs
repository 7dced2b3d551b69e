//! What the account files say, and what is to be done about them.
use super::lifecycle::lemma_put;
use super::store::{has_id, lemma_found, lemma_replaced_sorted, lemma_sorted_is_unique, put};
use super::{
    copy_file, copy_path, copy_text, letters, metadata, normalize_optional_metadata,
    normalize_refresh_token, shown, AccountDiskOp, AccountFile, AccountPath, AccountRecord,
    AccountStore, AccountView, EmptyRefreshToken, RoutingState, UnknownAccount,
};
use crate::text::{chars_of, decimal, decimal_text, same_text, text_of, trimmed};
use sha2::Digest;
use vstd::prelude::*;

verus! {

/// The extension of account files.
pub const ACCOUNT_FILE_EXTENSION: &'static str = "json";

/// The directory of files that are of use no longer.
pub const TRASH_DIR_NAME: &'static str = "trash";

/// Which files a pool is made to agree with: those of a start, or those of a later look.
#[derive(Debug, Clone, Copy, PartialEq, Eq, Structural)]
pub enum SyncMode {
    Startup,
    Rescan,
}

/// An account file that could be read.
#[derive(Debug, Clone)]
pub struct DiskAccountEntry {
    pub id: String,
    pub path: AccountPath,
    pub disk: AccountFile,
}

/// A regular file of the accounts directory, and what it holds where that could be read.
#[derive(Debug, Clone)]
pub struct ScannedFile {
    pub name: String,
    pub disk: Option<AccountFile>,
}

/// What a look at the accounts directory found.
#[derive(Debug, Clone)]
pub struct DiskScanSnapshot {
    pub entries: Vec<DiskAccountEntry>,
    pub failed_file_ids: Vec<String>,
    pub observed_paths: Vec<AccountPath>,
}

/// A record that is to agree with a file.
#[derive(Debug, Clone)]
pub struct DiskSyncUpsert {
    pub id: String,
    pub path: AccountPath,
    pub disk: AccountFile,
}

/// What is to be done for the pool and the files to agree.
#[derive(Debug, Clone)]
pub struct DiskSyncPlan {
    pub mode: SyncMode,
    pub writes: Vec<(AccountPath, AccountFile)>,
    pub removals: Vec<AccountPath>,
    pub upserts: Vec<DiskSyncUpsert>,
    pub seen_ids: Vec<String>,
    pub failed_file_ids: Vec<String>,
}

/// The account that files with one token are gathered in.
#[derive(Debug, Clone)]
pub struct CanonicalTarget {
    pub id: String,
    pub path: AccountPath,
    pub disk: AccountFile,
    pub matched_group_path: Option<AccountPath>,
}

/// What an import changes in memory.
#[derive(Debug, Clone)]
pub enum ImportApply {
    NoChange,
    Insert { id: String, path: AccountPath, disk: AccountFile },
    UpdateMetadata { account_id: String, label: Option<String>, email: Option<String> },
}

/// An import, before it is carried out.
#[derive(Debug, Clone)]
pub struct ImportAccountPlan {
    pub account_id: String,
    pub already_exists: bool,
    pub apply: ImportApply,
    pub disk_op: Option<AccountDiskOp>,
}

#[derive(Debug, Clone)]
pub struct ImportAccountResult {
    pub account: AccountView,
    pub already_exists: bool,
}

/// A removal, before it is carried out.
#[derive(Debug, Clone)]
pub struct RemoveAccountPlan {
    pub account_id: String,
    pub disk_op: AccountDiskOp,
}

/// The record of an account that was never used.
pub open spec fn fresh_record(id: String, path: AccountPath, disk: AccountFile) -> AccountRecord {
    AccountRecord {
        id,
        file_path: path,
        label: disk.label,
        email: disk.email,
        refresh_token: disk.refresh_token,
        access_token: None,
        account_id: None,
        plan_type: None,
        access_token_expires_at: None,
        last_refresh_at: None,
        routing_state: RoutingState::Cold,
        blocked_reason: None,
        blocked_source: None,
        blocked_until: None,
        local_backoff_level: 0,
        refresh_in_flight: false,
        in_flight_requests: 0,
        last_selected_at: None,
        last_success_at: None,
        last_error_at: None,
        last_error: None,
        auth_invalid_tombstone: false,
        detached: false,
    }
}

/// The record of a known account after its file was read again. Its refresh token is its own.
pub open spec fn reread(
    record: AccountRecord,
    path: AccountPath,
    disk: AccountFile,
) -> AccountRecord {
    AccountRecord {
        file_path: path,
        label: disk.label,
        email: disk.email,
        detached: record.detached && record.auth_invalid_tombstone,
        ..record
    }
}

/// The records after a file was read.
pub open spec fn upserted(
    records: Map<Seq<char>, AccountRecord>,
    id: String,
    path: AccountPath,
    disk: AccountFile,
) -> Map<Seq<char>, AccountRecord> {
    records.insert(
        id@,
        if records.contains_key(id@) {
            reread(records[id@], path, disk)
        } else {
            fresh_record(id, path, disk)
        },
    )
}

/// Does the record at `id` hold this token and a file of its own?
pub open spec fn holds_token(
    records: Map<Seq<char>, AccountRecord>,
    token: Seq<char>,
    id: Seq<char>,
) -> bool {
    records.contains_key(id) && !records[id].detached && records[id].refresh_token@ == token
}

impl AccountStore {
    /// Takes over what an account file holds.
    pub fn upsert_disk_record(&mut self, id: String, path: AccountPath, disk: AccountFile)
        requires
            old(self).wf(),
        ensures
            final(self).wf(),
            final(self).same_frame(old(self)),
            final(self).map() == upserted(old(self).map(), id, path, disk),
    {
        match self.position(id.as_str()) {
            Some(at) => {
                let ghost before = self.records@;
                let ghost next = reread(before[at as int], path, disk);
                let record: &mut AccountRecord = &mut self.records[at];
                record.file_path = path;
                record.label = disk.label;
                record.email = disk.email;
                if !record.auth_invalid_tombstone {
                    record.detached = false;
                }
                proof {
                    lemma_replaced_sorted(before, at as int, next);
                    assert(self.records@ =~= before.update(at as int, next));
                }
            },
            None => {
                self.add(
                    AccountRecord {
                        id,
                        file_path: path,
                        label: disk.label,
                        email: disk.email,
                        refresh_token: disk.refresh_token,
                        access_token: None,
                        account_id: None,
                        plan_type: None,
                        access_token_expires_at: None,
                        last_refresh_at: None,
                        routing_state: RoutingState::Cold,
                        blocked_reason: None,
                        blocked_source: None,
                        blocked_until: None,
                        local_backoff_level: 0,
                        refresh_in_flight: false,
                        in_flight_requests: 0,
                        last_selected_at: None,
                        last_success_at: None,
                        last_error_at: None,
                        last_error: None,
                        auth_invalid_tombstone: false,
                        detached: false,
                    },
                );
            },
        }
    }

    /// An account with this refresh token. Where several have it, any of them.
    pub fn find_account_id_by_refresh_token(&self, refresh_token: &str) -> (id: Option<String>)
        requires
            self.wf(),
        ensures
            match id {
                Some(id) => holds_token(self.map(), refresh_token@, id@),
                None => forall|id: Seq<char>| !holds_token(self.map(), refresh_token@, id),
            },
    {
        proof {
            lemma_sorted_is_unique(self.records@);
        }
        let mut i: usize = 0;
        while i < self.records.len()
            invariant
                self.wf(),
                i <= self.records.len(),
                forall|j: int|
                    0 <= j < i ==> (#[trigger] self.records@[j]).detached
                        || self.records@[j].refresh_token@ != refresh_token@,
            decreases self.records.len() - i,
        {
            let record: &AccountRecord = &self.records[i];
            if !record.detached && same_text(record.refresh_token.as_str(), refresh_token) {
                proof {
                    lemma_sorted_is_unique(self.records@);
                    lemma_found(self.records@, i as int);
                }
                return Some(record.id.clone());
            }
            i = i + 1;
        }
        proof {
            assert forall|id: Seq<char>| !holds_token(self.map(), refresh_token@, id) by {
                if self.map().contains_key(id) {
                    let j = choose|j: int| has_id(self.records@, id, j);
                    lemma_found(self.records@, j);
                }
            }
        }
        None
    }
}

/// What `sha2::Sha256::digest` gives for some bytes.
pub uninterp spec fn sha256(bytes: Seq<u8>) -> Seq<u8>;

/// `sha2::Sha256::digest`: 32 bytes that depend on the input alone.
#[verifier::external_body]
fn sha256_digest(bytes: &[u8]) -> (digest: Vec<u8>)
    ensures
        digest@ == sha256(bytes@),
        digest@.len() == 32,
{
    sha2::Sha256::digest(bytes).to_vec()
}

/// The hexadecimal digit of a number below sixteen.
pub open spec fn hex_digit(n: int) -> char {
    if n < 10 {
        (n + '0' as int) as char
    } else {
        (n - 10 + 'a' as int) as char
    }
}

/// Bytes as hexadecimal digits, two for each.
pub open spec fn hex(bytes: Seq<u8>) -> Seq<char>
    decreases bytes.len(),
{
    if bytes.len() == 0 {
        Seq::empty()
    } else {
        hex(bytes.drop_last()).push(hex_digit(bytes.last() as int / 16)).push(
            hex_digit(bytes.last() as int % 16),
        )
    }
}

/// The id of an account: the first half of its token's digest.
pub open spec fn account_id_of(token: Seq<char>) -> Seq<char> {
    hex(sha256(vstd::utf8::encode_utf8(token)).take(16))
}

fn nibble(n: u8) -> (digit: char)
    requires
        n < 16,
    ensures
        digit == hex_digit(n as int),
{
    if n < 10 {
        (n + 48) as char
    } else {
        (n + 87) as char
    }
}

/// The id of an account: the first half of its token's digest.
pub fn stable_account_id(refresh_token: &str) -> (id: String)
    ensures
        id@ == account_id_of(refresh_token@),
{
    let digest: Vec<u8> = sha256_digest(refresh_token.as_bytes());
    let mut id: String = String::new();
    let mut i: usize = 0;
    while i < 16
        invariant
            i <= 16,
            digest.len() == 32,
            id@ == hex(digest@.take(i as int)),
        decreases 16 - i,
    {
        let b: u8 = digest[i];
        id.push(nibble(b / 16));
        id.push(nibble(b % 16));
        assert(digest@.take(i + 1).drop_last() =~= digest@.take(i as int));
        i = i + 1;
    }
    id
}

/// The text before the last full stop and the text behind it, where there is one that does not
/// stand first.
pub open spec fn split_name(name: Seq<char>, at: int) -> Option<(Seq<char>, Seq<char>)>
    decreases at,
{
    if at <= 0 || at >= name.len() {
        None
    } else if name[at] == '.' {
        Some((name.take(at), name.skip(at + 1)))
    } else {
        split_name(name, at - 1)
    }
}

/// The id of the account that a file is for: its name without the extension, where that is the
/// extension of account files.
pub open spec fn file_id(name: Seq<char>) -> Option<Seq<char>> {
    match split_name(name, name.len() - 1) {
        Some((stem, extension)) => if extension == ACCOUNT_FILE_EXTENSION@ {
            Some(stem)
        } else {
            None
        },
        None => None,
    }
}

/// The id of the account that a file is for.
pub fn account_file_id(name: &str) -> (id: Option<String>)
    ensures
        letters(id) == file_id(name@),
{
    let chars: Vec<char> = chars_of(name);
    if chars.len() == 0 {
        return None;
    }
    let mut at: usize = chars.len() - 1;
    while at > 0 && chars[at] != '.'
        invariant
            chars@ == name@,
            at < chars.len(),
            split_name(name@, name@.len() - 1) == split_name(name@, at as int),
        decreases at,
    {
        at = at - 1;
    }
    if at == 0 {
        return None;
    }
    let total: usize = chars.len();
    let extension: String = text_of(&chars, at + 1, total);
    assert(extension@ =~= name@.skip(at + 1));
    if same_text(extension.as_str(), ACCOUNT_FILE_EXTENSION) {
        let stem: String = text_of(&chars, 0, at);
        assert(stem@ =~= name@.take(at as int));
        Some(stem)
    } else {
        None
    }
}

/// What a file holds, in characters.
pub struct FileView {
    pub refresh_token: Seq<char>,
    pub label: Option<Seq<char>>,
    pub email: Option<Seq<char>>,
}

/// What a file holds, in characters.
pub open spec fn file_view(file: AccountFile) -> FileView {
    FileView {
        refresh_token: file.refresh_token@,
        label: letters(file.label),
        email: letters(file.email),
    }
}

/// The new text where there is one, else the old.
pub open spec fn updated(new: Option<Seq<char>>, old: Option<Seq<char>>) -> Option<Seq<char>> {
    if new is Some {
        new
    } else {
        old
    }
}

/// The plan of an import whose token is known already: label and address are taken over where
/// they are given and differ.
pub open spec fn plans_update(
    plan: ImportAccountPlan,
    record: AccountRecord,
    label: Option<Seq<char>>,
    email: Option<Seq<char>>,
) -> bool {
    let next_label = updated(label, letters(record.label));
    let next_email = updated(email, letters(record.email));
    let changed = next_label != letters(record.label) || next_email != letters(record.email);
    &&& plan.account_id@ == record.id@
    &&& plan.already_exists
    &&& if changed {
        plan.apply matches ImportApply::UpdateMetadata { account_id, label, email } && account_id@
            == record.id@ && letters(label) == next_label && letters(email) == next_email
    } else {
        plan.apply is NoChange
    }
    &&& if changed && !record.detached {
        plan.disk_op matches Some(AccountDiskOp::Write { path, disk }) && path == record.file_path
            && file_view(disk) == (FileView {
            refresh_token: record.refresh_token@,
            label: next_label,
            email: next_email,
        })
    } else {
        plan.disk_op is None
    }
}

/// The plan of an import with a new token.
pub open spec fn plans_insert(
    plan: ImportAccountPlan,
    accounts_dir: String,
    token: Seq<char>,
    label: Option<Seq<char>>,
    email: Option<Seq<char>>,
) -> bool {
    let id = account_id_of(token);
    let file = FileView { refresh_token: token, label, email };
    &&& plan.account_id@ == id
    &&& !plan.already_exists
    &&& plan.apply matches ImportApply::Insert { id: new_id, path, disk } && new_id@ == id
        && path.dir == accounts_dir && path.name@ == id + "."@ + ACCOUNT_FILE_EXTENSION@
        && file_view(disk) == file && plan.disk_op == Some(AccountDiskOp::Write { path, disk })
}

/// Are two optional texts the same?
pub fn same_optional(left: &Option<String>, right: &Option<String>) -> (same: bool)
    ensures
        same == (letters(*left) == letters(*right)),
{
    match (left, right) {
        (Some(a), Some(b)) => same_text(a.as_str(), b.as_str()),
        (None, None) => true,
        _ => false,
    }
}

/// Is this the plan of an import of a token, with a label and an address that may be missing? There
/// is none for a token of nothing but spaces.
pub open spec fn plans_import(
    records: Map<Seq<char>, AccountRecord>,
    accounts_dir: String,
    refresh_token: Seq<char>,
    label: Option<Seq<char>>,
    email: Option<Seq<char>>,
    result: Result<ImportAccountPlan, EmptyRefreshToken>,
) -> bool {
    let token = trimmed(refresh_token);
    match result {
        Ok(plan) => {
            &&& token.len() > 0
            &&& if exists|id: Seq<char>| holds_token(records, token, id) {
                exists|id: Seq<char>| #[trigger]
                    holds_token(records, token, id) && plans_update(
                        plan,
                        records[id],
                        metadata(label),
                        metadata(email),
                    )
            } else {
                plans_insert(plan, accounts_dir, token, metadata(label), metadata(email))
            }
        },
        Err(_) => token.len() == 0,
    }
}

/// The records once an account is removed: at once, or once nothing is under way on it.
pub open spec fn removed(
    records: Map<Seq<char>, AccountRecord>,
    id: Seq<char>,
) -> Map<Seq<char>, AccountRecord> {
    if records.contains_key(id) {
        put(records, id, AccountRecord { detached: true, ..records[id] })
    } else {
        records
    }
}

/// The directory and the name of a path.
pub open spec fn path_view(path: AccountPath) -> (Seq<char>, Seq<char>) {
    (path.dir@, path.name@)
}

/// Are two paths the same?
pub fn same_path(left: &AccountPath, right: &AccountPath) -> (same: bool)
    ensures
        same == (path_view(*left) == path_view(*right)),
{
    same_text(left.dir.as_str(), right.dir.as_str()) && same_text(
        left.name.as_str(),
        right.name.as_str(),
    )
}

impl AccountStore {
    fn prepare_existing_account_metadata_update(
        &self,
        account_id: &str,
        label: Option<String>,
        email: Option<String>,
    ) -> (result: Result<ImportAccountPlan, UnknownAccount>)
        requires
            self.wf(),
        ensures
            match result {
                Ok(plan) => self.map().contains_key(account_id@) && plans_update(
                    plan,
                    self.map()[account_id@],
                    letters(label),
                    letters(email),
                ),
                Err(error) => !self.map().contains_key(account_id@) && error.account_id@
                    == account_id@,
            },
    {
        match self.position(account_id) {
            Some(at) => {
                let record: &AccountRecord = &self.records[at];
                let mut next_label: Option<String> = copy_text(&record.label);
                let mut next_email: Option<String> = copy_text(&record.email);
                let mut changed: bool = false;
                if label.is_some() && !same_optional(&label, &record.label) {
                    next_label = label;
                    changed = true;
                }
                if email.is_some() && !same_optional(&email, &record.email) {
                    next_email = email;
                    changed = true;
                }
                let disk_op: Option<AccountDiskOp> = if changed && !record.detached {
                    Some(
                        AccountDiskOp::Write {
                            path: copy_path(&record.file_path),
                            disk: AccountFile {
                                refresh_token: record.refresh_token.clone(),
                                label: copy_text(&next_label),
                                email: copy_text(&next_email),
                            },
                        },
                    )
                } else {
                    None
                };
                Ok(
                    ImportAccountPlan {
                        account_id: account_id.to_owned(),
                        already_exists: true,
                        apply: if changed {
                            ImportApply::UpdateMetadata {
                                account_id: account_id.to_owned(),
                                label: next_label,
                                email: next_email,
                            }
                        } else {
                            ImportApply::NoChange
                        },
                        disk_op,
                    },
                )
            },
            None => Err(UnknownAccount { account_id: account_id.to_owned() }),
        }
    }

    /// What an import is to change in memory and on disk. A token of spaces alone is refused.
    pub fn prepare_import_account(
        &self,
        refresh_token: String,
        label: Option<String>,
        email: Option<String>,
    ) -> (result: Result<ImportAccountPlan, EmptyRefreshToken>)
        requires
            self.wf(),
        ensures
            plans_import(
                self.map(),
                self.accounts_dir,
                refresh_token@,
                letters(label),
                letters(email),
                result,
            ),
    {
        let token: String = match normalize_refresh_token(refresh_token.as_str()) {
            Ok(token) => token,
            Err(error) => {
                return Err(error);
            },
        };
        let label: Option<String> = normalize_optional_metadata(label);
        let email: Option<String> = normalize_optional_metadata(email);
        if let Some(existing_id) = self.find_account_id_by_refresh_token(token.as_str()) {
            match self.prepare_existing_account_metadata_update(
                existing_id.as_str(),
                label,
                email,
            ) {
                Ok(plan) => {
                    assert(holds_token(self.map(), token@, existing_id@));
                    return Ok(plan);
                },
                Err(_) => {
                    assert(false);
                    return Err(EmptyRefreshToken);
                },
            }
        }
        let id: String = stable_account_id(token.as_str());
        let mut name: String = id.clone();
        name.append(".");
        name.append(ACCOUNT_FILE_EXTENSION);
        let path: AccountPath = AccountPath { dir: self.accounts_dir.clone(), name };
        let disk: AccountFile = AccountFile { refresh_token: token, label, email };
        Ok(
            ImportAccountPlan {
                account_id: id.clone(),
                already_exists: false,
                apply: ImportApply::Insert {
                    id,
                    path: copy_path(&path),
                    disk: copy_file(&disk),
                },
                disk_op: Some(AccountDiskOp::Write { path, disk }),
            },
        )
    }

    /// Carries an import out in memory.
    pub fn apply_import_account_plan(&mut self, plan: ImportAccountPlan) -> (result: Result<
        ImportAccountResult,
        UnknownAccount,
    >)
        requires
            old(self).wf(),
        ensures
            final(self).wf(),
            final(self).same_frame(old(self)),
            match plan_unknown(plan, old(self).map()) {
                Some(id) => result matches Err(error) && error.account_id@ == id
                    && final(self).map() == applied(plan, old(self).map()),
                None => result matches Ok(result) && result.already_exists == plan.already_exists
                    && final(self).map() == applied(plan, old(self).map())
                    && result.account == shown(final(self).map()[plan.account_id@]),
            },
    {
        let already_exists: bool = plan.already_exists;
        match plan.apply {
            ImportApply::NoChange => {},
            ImportApply::Insert { id, path, disk } => {
                self.upsert_disk_record(id, path, disk);
            },
            ImportApply::UpdateMetadata { account_id, label, email } => {
                match self.position(account_id.as_str()) {
                    Some(at) => {
                        let ghost before = self.records@;
                        let ghost next = AccountRecord { label, email, ..before[at as int] };
                        let record: &mut AccountRecord = &mut self.records[at];
                        record.label = label;
                        record.email = email;
                        proof {
                            lemma_replaced_sorted(before, at as int, next);
                            assert(self.records@ =~= before.update(at as int, next));
                        }
                    },
                    None => {
                        return Err(UnknownAccount { account_id });
                    },
                }
            },
        }
        match self.view(plan.account_id.as_str()) {
            Ok(account) => Ok(ImportAccountResult { account, already_exists }),
            Err(error) => Err(error),
        }
    }

    /// What the removal of an account is to change; nothing where it is not known.
    pub fn prepare_remove_account(&self, id: &str) -> (plan: Option<RemoveAccountPlan>)
        requires
            self.wf(),
        ensures
            match plan {
                Some(plan) => self.map().contains_key(id@) && plan.account_id@ == id@
                    && plan.disk_op == (AccountDiskOp::Remove { path: self.map()[id@].file_path }),
                None => !self.map().contains_key(id@),
            },
    {
        match self.position(id) {
            Some(at) => Some(
                RemoveAccountPlan {
                    account_id: id.to_owned(),
                    disk_op: AccountDiskOp::Remove { path: copy_path(&self.records[at].file_path) },
                },
            ),
            None => None,
        }
    }

    /// Carries a removal out in memory: at once, or once nothing is under way on the account.
    pub fn apply_remove_account_plan(&mut self, plan: RemoveAccountPlan)
        requires
            old(self).wf(),
        ensures
            final(self).wf(),
            final(self).same_frame(old(self)),
            final(self).map() == removed(old(self).map(), plan.account_id@),
    {
        match self.position(plan.account_id.as_str()) {
            Some(at) => {
                let ghost before = self.records@;
                let ghost next = AccountRecord { detached: true, ..before[at as int] };
                let record: &mut AccountRecord = &mut self.records[at];
                record.detached = true;
                proof {
                    lemma_replaced_sorted(before, at as int, next);
                    assert(self.records@ =~= before.update(at as int, next));
                    lemma_put(old(self).map(), plan.account_id@, next);
                }
                self.remove_if_idle(at);
            },
            None => {},
        }
    }
}

/// The records after an import.
pub open spec fn applied(
    plan: ImportAccountPlan,
    records: Map<Seq<char>, AccountRecord>,
) -> Map<Seq<char>, AccountRecord> {
    match plan.apply {
        ImportApply::NoChange => records,
        ImportApply::Insert { id, path, disk } => upserted(records, id, path, disk),
        ImportApply::UpdateMetadata { account_id, label, email } => if records.contains_key(
            account_id@,
        ) {
            records.insert(account_id@, AccountRecord { label, email, ..records[account_id@] })
        } else {
            records
        },
    }
}

/// The account that an import misses.
pub open spec fn plan_unknown(
    plan: ImportAccountPlan,
    records: Map<Seq<char>, AccountRecord>,
) -> Option<Seq<char>> {
    if plan.apply matches ImportApply::UpdateMetadata { account_id, .. } && !records.contains_key(
        account_id@,
    ) {
        Some(plan.apply->account_id@)
    } else if !applied(plan, records).contains_key(plan.account_id@) {
        Some(plan.account_id@)
    } else {
        None
    }
}

/// What is gathered from a look at some files.
pub open spec fn scans_as(
    files: Seq<ScannedFile>,
    accounts_dir: String,
    entries: Seq<DiskAccountEntry>,
    failed: Seq<String>,
    observed: Seq<AccountPath>,
) -> bool
    decreases files.len(),
{
    if files.len() == 0 {
        entries.len() == 0 && failed.len() == 0 && observed.len() == 0
    } else {
        let file = files.last();
        match file_id(file.name@) {
            None => scans_as(files.drop_last(), accounts_dir, entries, failed, observed),
            Some(id) => {
                &&& observed.len() > 0
                &&& observed.last().dir == accounts_dir
                &&& observed.last().name == file.name
                &&& if file.disk is Some && trimmed(file.disk->0.refresh_token@).len() > 0 {
                    &&& entries.len() > 0
                    &&& entries.last().id@ == id
                    &&& entries.last().path == observed.last()
                    &&& entries.last().disk.refresh_token@ == trimmed(file.disk->0.refresh_token@)
                    &&& entries.last().disk.label == file.disk->0.label
                    &&& entries.last().disk.email == file.disk->0.email
                    &&& scans_as(
                        files.drop_last(),
                        accounts_dir,
                        entries.drop_last(),
                        failed,
                        observed.drop_last(),
                    )
                } else {
                    &&& failed.len() > 0
                    &&& failed.last()@ == id
                    &&& scans_as(
                        files.drop_last(),
                        accounts_dir,
                        entries,
                        failed.drop_last(),
                        observed.drop_last(),
                    )
                }
            },
        }
    }
}

/// Sorts the files of the accounts directory: those of accounts, and among them those that could
/// not be read or hold no token.
pub fn scan_accounts_files(files: &Vec<ScannedFile>, accounts_dir: &String) -> (snapshot:
    DiskScanSnapshot)
    ensures
        scans_as(
            files@,
            *accounts_dir,
            snapshot.entries@,
            snapshot.failed_file_ids@,
            snapshot.observed_paths@,
        ),
{
    let mut entries: Vec<DiskAccountEntry> = Vec::new();
    let mut failed_file_ids: Vec<String> = Vec::new();
    let mut observed_paths: Vec<AccountPath> = Vec::new();
    let mut i: usize = 0;
    while i < files.len()
        invariant
            i <= files.len(),
            scans_as(
                files@.take(i as int),
                *accounts_dir,
                entries@,
                failed_file_ids@,
                observed_paths@,
            ),
        decreases files.len() - i,
    {
        let file: &ScannedFile = &files[i];
        assert(files@.take(i + 1).drop_last() =~= files@.take(i as int));
        let ghost (e, f, o) = (entries@, failed_file_ids@, observed_paths@);
        if let Some(id) = account_file_id(file.name.as_str()) {
            let path: AccountPath = AccountPath {
                dir: accounts_dir.clone(),
                name: file.name.clone(),
            };
            observed_paths.push(copy_path(&path));
            assert(observed_paths@.drop_last() =~= o);
            let token: Option<String> = match &file.disk {
                Some(disk) => match normalize_refresh_token(disk.refresh_token.as_str()) {
                    Ok(token) => Some(token),
                    Err(_) => None,
                },
                None => None,
            };
            match (token, &file.disk) {
                (Some(refresh_token), Some(disk)) => {
                    entries.push(
                        DiskAccountEntry {
                            id,
                            path,
                            disk: AccountFile {
                                refresh_token,
                                label: copy_text(&disk.label),
                                email: copy_text(&disk.email),
                            },
                        },
                    );
                    assert(entries@.drop_last() =~= e);
                },
                _ => {
                    failed_file_ids.push(id);
                    assert(failed_file_ids@.drop_last() =~= f);
                },
            }
        }
        i = i + 1;
    }
    assert(files@.take(i as int) =~= files@);
    DiskScanSnapshot { entries, failed_file_ids, observed_paths }
}

/// A file name without its extension.
pub open spec fn stem_of(name: Seq<char>) -> Seq<char> {
    match split_name(name, name.len() - 1) {
        Some((stem, _)) => stem,
        None => name,
    }
}

/// A file name without its extension.
pub fn file_stem(name: &str) -> (stem: String)
    ensures
        stem@ == stem_of(name@),
{
    let chars: Vec<char> = chars_of(name);
    if chars.len() == 0 {
        return name.to_owned();
    }
    let mut at: usize = chars.len() - 1;
    while at > 0 && chars[at] != '.'
        invariant
            chars@ == name@,
            at < chars.len(),
            split_name(name@, name@.len() - 1) == split_name(name@, at as int),
        decreases at,
    {
        at = at - 1;
    }
    if at == 0 {
        return name.to_owned();
    }
    let stem: String = text_of(&chars, 0, at);
    assert(stem@ =~= name@.take(at as int));
    stem
}

/// The name under which a file goes to the trash: its own at first, then one with a time stamp and
/// the number of the attempt.
pub open spec fn trash_name(name: Seq<char>, attempt: u64, stamp: u128) -> Seq<char> {
    if attempt == 0 {
        name
    } else {
        stem_of(name) + "-"@ + decimal(stamp as nat) + "-"@ + decimal(attempt as nat) + "."@
            + ACCOUNT_FILE_EXTENSION@
    }
}

/// The name under which a file goes to the trash at the given attempt.
pub fn trash_candidate(name: &str, attempt: u64, stamp: u128) -> (candidate: String)
    ensures
        candidate@ == trash_name(name@, attempt, stamp),
{
    if attempt == 0 {
        return name.to_owned();
    }
    let mut candidate: String = file_stem(name);
    candidate.append("-");
    candidate.append(decimal_text(stamp).as_str());
    candidate.append("-");
    candidate.append(decimal_text(attempt as u128).as_str());
    candidate.append(".");
    candidate.append(ACCOUNT_FILE_EXTENSION);
    candidate
}

/// The name under which a file is written before it takes the place of another.
pub fn temp_account_name(name: &str, stamp: u128) -> (temp: String)
    ensures
        temp@ == "."@ + name@ + "."@ + decimal(stamp as nat) + ".tmp"@,
{
    let mut temp: String = ".".to_owned();
    temp.append(name);
    temp.append(".");
    temp.append(decimal_text(stamp).as_str());
    temp.append(".tmp");
    temp
}

}
