//! How the pool and the account files are made to agree.
use super::disk::{
    path_view, same_path, upserted, CanonicalTarget, DiskAccountEntry, DiskScanSnapshot,
    DiskSyncPlan, DiskSyncUpsert, SyncMode,
};
use super::selection::{is_listed, listed};
use super::store::{has_id, lemma_found, lemma_sorted_is_unique, records_map, sorted_ids};
use super::{copy_file, copy_path, copy_text, AccountFile, AccountPath, AccountRecord, AccountStore};
use crate::router::selected_before;
use crate::text::{
    comes_before, same_text, text_before, text_order_is_total, text_order_is_transitive,
};
use vstd::prelude::*;

verus! {

/// The tokens of some files, each once, in the order in which they first occur.
pub open spec fn tokens_of(entries: Seq<DiskAccountEntry>) -> Seq<Seq<char>>
    decreases entries.len(),
{
    if entries.len() == 0 {
        Seq::empty()
    } else {
        let earlier = tokens_of(entries.drop_last());
        let token = entries.last().disk.refresh_token@;
        if earlier.contains(token) {
            earlier
        } else {
            earlier.push(token)
        }
    }
}

/// A file put in its place among files in the order of their ids, behind those with its own id.
pub open spec fn placed(
    group: Seq<DiskAccountEntry>,
    entry: DiskAccountEntry,
) -> Seq<DiskAccountEntry>
    decreases group.len(),
{
    if group.len() > 0 && text_before(entry.id@, group.last().id@) {
        placed(group.drop_last(), entry).push(group.last())
    } else {
        group.push(entry)
    }
}

/// The files with one token, in the order of their ids.
pub open spec fn group_of(entries: Seq<DiskAccountEntry>, token: Seq<char>) -> Seq<DiskAccountEntry>
    decreases entries.len(),
{
    if entries.len() == 0 {
        Seq::empty()
    } else {
        let earlier = group_of(entries.drop_last(), token);
        if entries.last().disk.refresh_token@ == token {
            placed(earlier, entries.last())
        } else {
            earlier
        }
    }
}

/// Is the first record more worth keeping than the second? The one with a refresh or with more
/// requests under way is, then the one with a token, the one selected last, the one with the
/// smaller id.
pub open spec fn outranks(left: AccountRecord, right: AccountRecord) -> bool {
    if left.refresh_in_flight != right.refresh_in_flight {
        left.refresh_in_flight
    } else if left.in_flight_requests != right.in_flight_requests {
        left.in_flight_requests > right.in_flight_requests
    } else if (left.access_token is Some) != (right.access_token is Some) {
        left.access_token is Some
    } else if left.last_selected_at != right.last_selected_at {
        selected_before(right.last_selected_at, left.last_selected_at)
    } else {
        text_before(left.id@, right.id@)
    }
}

/// Does a record hold this token and a file of its own?
pub open spec fn holds(record: AccountRecord, token: Seq<char>) -> bool {
    !record.detached && record.refresh_token@ == token
}

/// Is the record at `at` the one with this token that is most worth keeping?
pub open spec fn preferred(records: Seq<AccountRecord>, token: Seq<char>, at: int) -> bool {
    &&& 0 <= at < records.len()
    &&& holds(records[at], token)
    &&& forall|other: int|
        0 <= other < records.len() && holds(#[trigger] records[other], token) ==> !outranks(
            records[other],
            records[at],
        )
}

/// The record with this token that is most worth keeping.
pub open spec fn preferred_record(records: Seq<AccountRecord>, token: Seq<char>) -> Option<
    AccountRecord,
> {
    if exists|at: int| preferred(records, token, at) {
        Some(records[choose|at: int| preferred(records, token, at)])
    } else {
        None
    }
}

/// The first file with this id.
pub open spec fn entry_with_id(group: Seq<DiskAccountEntry>, id: Seq<char>) -> Option<
    DiskAccountEntry,
>
    decreases group.len(),
{
    if group.len() == 0 {
        None
    } else if group[0].id@ == id {
        Some(group[0])
    } else {
        entry_with_id(group.skip(1), id)
    }
}

/// The account that files with one token are gathered in: on a later look the record that is most
/// worth keeping, else the first file.
pub open spec fn canonical(
    records: Seq<AccountRecord>,
    group: Seq<DiskAccountEntry>,
    mode: SyncMode,
) -> CanonicalTarget {
    let token = group[0].disk.refresh_token;
    let known = if mode == SyncMode::Rescan {
        preferred_record(records, token@)
    } else {
        None
    };
    match known {
        Some(record) => match entry_with_id(group, record.id@) {
            Some(entry) => CanonicalTarget {
                id: record.id,
                path: record.file_path,
                disk: entry.disk,
                matched_group_path: Some(entry.path),
            },
            None => CanonicalTarget {
                id: record.id,
                path: record.file_path,
                disk: AccountFile {
                    refresh_token: token,
                    label: record.label,
                    email: record.email,
                },
                matched_group_path: None,
            },
        },
        None => CanonicalTarget {
            id: group[0].id,
            path: group[0].path,
            disk: group[0].disk,
            matched_group_path: Some(group[0].path),
        },
    }
}

/// The first label among some files.
pub open spec fn first_label(group: Seq<DiskAccountEntry>) -> Option<String>
    decreases group.len(),
{
    if group.len() == 0 {
        None
    } else if group[0].disk.label is Some {
        group[0].disk.label
    } else {
        first_label(group.skip(1))
    }
}

/// The first address among some files.
pub open spec fn first_email(group: Seq<DiskAccountEntry>) -> Option<String>
    decreases group.len(),
{
    if group.len() == 0 {
        None
    } else if group[0].disk.email is Some {
        group[0].disk.email
    } else {
        first_email(group.skip(1))
    }
}

/// A file, with label and address from others where it has none itself.
pub open spec fn merged(base: AccountFile, group: Seq<DiskAccountEntry>) -> AccountFile {
    AccountFile {
        refresh_token: base.refresh_token,
        label: if base.label is Some {
            base.label
        } else {
            first_label(group)
        },
        email: if base.email is Some {
            base.email
        } else {
            first_email(group)
        },
    }
}

/// Is this path among those that were seen?
pub open spec fn observes(observed: Seq<AccountPath>, path: AccountPath) -> bool {
    exists|i: int| 0 <= i < observed.len() && path_view(#[trigger] observed[i]) == path_view(path)
}

/// The paths of the files that were gathered in another.
pub open spec fn superseded(
    group: Seq<DiskAccountEntry>,
    kept: Option<AccountPath>,
) -> Seq<AccountPath>
    decreases group.len(),
{
    if group.len() == 0 {
        Seq::empty()
    } else {
        let earlier = superseded(group.drop_last(), kept);
        if kept is Some && path_view(kept->0) == path_view(group.last().path) {
            earlier
        } else {
            earlier.push(group.last().path)
        }
    }
}

/// What is to be written, where the gathered file differs from the one on disk or there is none.
pub open spec fn plan_writes(
    records: Seq<AccountRecord>,
    entries: Seq<DiskAccountEntry>,
    observed: Seq<AccountPath>,
    mode: SyncMode,
    tokens: Seq<Seq<char>>,
) -> Seq<(AccountPath, AccountFile)>
    decreases tokens.len(),
{
    if tokens.len() == 0 {
        Seq::empty()
    } else {
        let earlier = plan_writes(records, entries, observed, mode, tokens.drop_last());
        let group = group_of(entries, tokens.last());
        let target = canonical(records, group, mode);
        let file = merged(target.disk, group);
        if file != target.disk || !observes(observed, target.path) {
            earlier.push((target.path, file))
        } else {
            earlier
        }
    }
}

/// Which files are to go.
pub open spec fn plan_removals(
    records: Seq<AccountRecord>,
    entries: Seq<DiskAccountEntry>,
    mode: SyncMode,
    tokens: Seq<Seq<char>>,
) -> Seq<AccountPath>
    decreases tokens.len(),
{
    if tokens.len() == 0 {
        Seq::empty()
    } else {
        let group = group_of(entries, tokens.last());
        plan_removals(records, entries, mode, tokens.drop_last()) + superseded(
            group,
            canonical(records, group, mode).matched_group_path,
        )
    }
}

/// What the record of one token is to be.
pub open spec fn plan_upsert(
    records: Seq<AccountRecord>,
    entries: Seq<DiskAccountEntry>,
    mode: SyncMode,
    token: Seq<char>,
) -> DiskSyncUpsert {
    let group = group_of(entries, token);
    let target = canonical(records, group, mode);
    DiskSyncUpsert { id: target.id, path: target.path, disk: merged(target.disk, group) }
}

/// Does a plan make the pool and the files agree, token by token?
pub open spec fn syncs(
    plan: DiskSyncPlan,
    records: Seq<AccountRecord>,
    entries: Seq<DiskAccountEntry>,
    observed: Seq<AccountPath>,
    failed: Seq<String>,
    mode: SyncMode,
) -> bool {
    let tokens = tokens_of(entries);
    &&& plan.mode == mode
    &&& plan.failed_file_ids@ == failed
    &&& plan.writes@ == plan_writes(records, entries, observed, mode, tokens)
    &&& plan.removals@ == plan_removals(records, entries, mode, tokens)
    &&& plan.upserts@ == Seq::new(
        tokens.len(),
        |i: int| plan_upsert(records, entries, mode, tokens[i]),
    )
    &&& plan.seen_ids@ == Seq::new(
        tokens.len(),
        |i: int| plan_upsert(records, entries, mode, tokens[i]).id,
    )
}

fn copy_entry(entry: &DiskAccountEntry) -> (copy: DiskAccountEntry)
    ensures
        copy == *entry,
{
    DiskAccountEntry {
        id: entry.id.clone(),
        path: copy_path(&entry.path),
        disk: copy_file(&entry.disk),
    }
}

fn insert_entry(group: &mut Vec<DiskAccountEntry>, entry: DiskAccountEntry)
    ensures
        final(group)@ == placed(old(group)@, entry),
{
    let ghost before = group@;
    let mut at: usize = group.len();
    assert(before.take(at as int) =~= before);
    assert(placed(before.take(at as int), entry) + before.skip(at as int) =~= placed(
        before,
        entry,
    ));
    while at > 0 && comes_before(entry.id.as_str(), group[at - 1].id.as_str())
        invariant
            at <= group.len(),
            group@ == before,
            placed(before.take(at as int), entry) + before.skip(at as int) == placed(before, entry),
        decreases at,
    {
        assert(before.take(at as int).drop_last() =~= before.take(at - 1));
        assert(placed(before.take(at - 1), entry) + before.skip(at - 1) =~= placed(
            before.take(at as int),
            entry,
        ) + before.skip(at as int));
        at = at - 1;
    }
    group.insert(at, entry);
    assert(before.insert(at as int, entry) =~= before.take(at as int).push(entry) + before.skip(
        at as int,
    ));
}

fn build_group(entries: &Vec<DiskAccountEntry>, token: &str) -> (group: Vec<DiskAccountEntry>)
    ensures
        group@ == group_of(entries@, token@),
{
    let mut group: Vec<DiskAccountEntry> = Vec::new();
    let mut i: usize = 0;
    while i < entries.len()
        invariant
            i <= entries.len(),
            group@ == group_of(entries@.take(i as int), token@),
        decreases entries.len() - i,
    {
        assert(entries@.take(i + 1).drop_last() =~= entries@.take(i as int));
        if same_text(entries[i].disk.refresh_token.as_str(), token) {
            insert_entry(&mut group, copy_entry(&entries[i]));
        }
        i = i + 1;
    }
    assert(entries@.take(i as int) =~= entries@);
    group
}

/// The characters of several texts.
pub open spec fn texts(list: Seq<String>) -> Seq<Seq<char>> {
    Seq::new(list.len(), |i: int| list[i]@)
}

fn distinct_tokens(entries: &Vec<DiskAccountEntry>) -> (tokens: Vec<String>)
    ensures
        texts(tokens@) == tokens_of(entries@),
{
    let mut tokens: Vec<String> = Vec::new();
    let mut i: usize = 0;
    assert(texts(tokens@) =~= Seq::empty());
    while i < entries.len()
        invariant
            i <= entries.len(),
            texts(tokens@) == tokens_of(entries@.take(i as int)),
        decreases entries.len() - i,
    {
        assert(entries@.take(i + 1).drop_last() =~= entries@.take(i as int));
        let ghost before = tokens@;
        let token: &String = &entries[i].disk.refresh_token;
        if is_listed(&tokens, token.as_str()) {
            proof {
                let j = choose|j: int| 0 <= j < tokens.len() && #[trigger] tokens@[j]@ == token@;
                assert(texts(tokens@)[j] == token@);
            }
        } else {
            proof {
                if texts(tokens@).contains(token@) {
                    let j = choose|j: int| 0 <= j < tokens.len() && texts(tokens@)[j] == token@;
                    assert(tokens@[j]@ == token@);
                }
            }
            tokens.push(token.clone());
            assert(texts(tokens@) =~= texts(before).push(token@));
        }
        i = i + 1;
    }
    assert(entries@.take(i as int) =~= entries@);
    tokens
}

fn ranks_higher(left: &AccountRecord, right: &AccountRecord) -> (higher: bool)
    ensures
        higher == outranks(*left, *right),
{
    if left.refresh_in_flight != right.refresh_in_flight {
        return left.refresh_in_flight;
    }
    if left.in_flight_requests != right.in_flight_requests {
        return left.in_flight_requests > right.in_flight_requests;
    }
    if left.access_token.is_some() != right.access_token.is_some() {
        return left.access_token.is_some();
    }
    match (left.last_selected_at, right.last_selected_at) {
        (Some(a), Some(b)) => if a.nanos != b.nanos {
            return b.nanos < a.nanos;
        },
        (Some(_), None) => {
            return true;
        },
        (None, Some(_)) => {
            return false;
        },
        (None, None) => {},
    }
    comes_before(left.id.as_str(), right.id.as_str())
}

/// No record outranks itself.
proof fn lemma_rank_irreflexive(record: AccountRecord)
    ensures
        !outranks(record, record),
{
    crate::text::text_order_is_irreflexive(record.id@);
}

/// What does not outrank a record does not outrank one that outranks it.
proof fn lemma_rank_transitive(a: AccountRecord, best: AccountRecord, new: AccountRecord)
    requires
        outranks(new, best),
        !outranks(a, best),
    ensures
        !outranks(a, new),
{
    if outranks(a, new) {
        if text_before(a.id@, new.id@) && text_before(new.id@, best.id@) {
            text_order_is_transitive(a.id@, new.id@, best.id@);
        }
    }
}

/// Only one record is most worth keeping.
proof fn lemma_one_preferred(records: Seq<AccountRecord>, token: Seq<char>, a: int, b: int)
    requires
        sorted_ids(records),
        preferred(records, token, a),
        preferred(records, token, b),
    ensures
        a == b,
{
    lemma_sorted_is_unique(records);
    assert(!outranks(records[a], records[b]));
    assert(!outranks(records[b], records[a]));
    text_order_is_total(records[a].id@, records[b].id@);
    assert(records[a].id@ == records[b].id@);
}

/// The gathered file: label and address from others where it has none itself.
pub fn merge_duplicate_account_files(
    base: &AccountFile,
    entries: &Vec<DiskAccountEntry>,
) -> (file: AccountFile)
    ensures
        file == merged(*base, entries@),
{
    let mut label: Option<String> = copy_text(&base.label);
    let mut email: Option<String> = copy_text(&base.email);
    let mut i: usize = 0;
    assert(entries@.skip(0) =~= entries@);
    while i < entries.len()
        invariant
            i <= entries.len(),
            merged(*base, entries@).label == (if label is Some {
                label
            } else {
                first_label(entries@.skip(i as int))
            }),
            merged(*base, entries@).email == (if email is Some {
                email
            } else {
                first_email(entries@.skip(i as int))
            }),
        decreases entries.len() - i,
    {
        assert(entries@.skip(i as int).skip(1) =~= entries@.skip(i + 1));
        if label.is_none() {
            label = copy_text(&entries[i].disk.label);
        }
        if email.is_none() {
            email = copy_text(&entries[i].disk.email);
        }
        i = i + 1;
    }
    AccountFile { refresh_token: base.refresh_token.clone(), label, email }
}

/// A group of files with one token is not empty, and its files have that token.
proof fn lemma_group(entries: Seq<DiskAccountEntry>, token: Seq<char>)
    ensures
        forall|i: int|
            0 <= i < group_of(entries, token).len() ==> (#[trigger] group_of(
                entries,
                token,
            )[i]).disk.refresh_token@ == token,
        tokens_of(entries).contains(token) ==> group_of(entries, token).len() > 0,
    decreases entries.len(),
{
    if entries.len() > 0 {
        lemma_group(entries.drop_last(), token);
        if entries.last().disk.refresh_token@ == token {
            lemma_placed(group_of(entries.drop_last(), token), entries.last(), token);
        } else {
            let earlier = tokens_of(entries.drop_last());
            let last = entries.last().disk.refresh_token@;
            if tokens_of(entries).contains(token) && !earlier.contains(last) {
                let i = choose|i: int| 0 <= i < earlier.push(last).len() && earlier.push(last)[i] == token;
                assert(earlier[i] == token);
            }
        }
    }
}

/// A file put in its place leaves a group of one token.
proof fn lemma_placed(group: Seq<DiskAccountEntry>, entry: DiskAccountEntry, token: Seq<char>)
    requires
        forall|i: int| 0 <= i < group.len() ==> (#[trigger] group[i]).disk.refresh_token@ == token,
        entry.disk.refresh_token@ == token,
    ensures
        placed(group, entry).len() == group.len() + 1,
        forall|i: int|
            0 <= i < placed(group, entry).len() ==> (#[trigger] placed(
                group,
                entry,
            )[i]).disk.refresh_token@ == token,
    decreases group.len(),
{
    if group.len() > 0 && text_before(entry.id@, group.last().id@) {
        lemma_placed(group.drop_last(), entry, token);
    }
}

fn find_entry<'a>(group: &'a Vec<DiskAccountEntry>, id: &str) -> (entry: Option<&'a DiskAccountEntry>)
    ensures
        match entry {
            Some(entry) => entry_with_id(group@, id@) == Some(*entry),
            None => entry_with_id(group@, id@) is None,
        },
{
    let mut i: usize = 0;
    assert(group@.skip(0) =~= group@);
    while i < group.len()
        invariant
            i <= group.len(),
            entry_with_id(group@, id@) == entry_with_id(group@.skip(i as int), id@),
        decreases group.len() - i,
    {
        assert(group@.skip(i as int).skip(1) =~= group@.skip(i + 1));
        if same_text(group[i].id.as_str(), id) {
            return Some(&group[i]);
        }
        i = i + 1;
    }
    None
}

impl AccountStore {
    /// The record with this token that is most worth keeping.
    pub fn preferred_existing_record(&self, refresh_token: &str) -> (record: Option<&AccountRecord>)
        requires
            self.wf(),
        ensures
            match record {
                Some(record) => preferred_record(self.records@, refresh_token@) == Some(*record),
                None => preferred_record(self.records@, refresh_token@) is None,
            },
    {
        let mut best: Option<usize> = None;
        let mut i: usize = 0;
        while i < self.records.len()
            invariant
                i <= self.records.len(),
                match best {
                    Some(b) => b < i && holds(self.records@[b as int], refresh_token@)
                        && forall|j: int|
                        0 <= j < i && holds(#[trigger] self.records@[j], refresh_token@)
                            ==> !outranks(self.records@[j], self.records@[b as int]),
                    None => forall|j: int|
                        0 <= j < i ==> !holds(#[trigger] self.records@[j], refresh_token@),
                },
            decreases self.records.len() - i,
        {
            let record: &AccountRecord = &self.records[i];
            proof {
                lemma_rank_irreflexive(self.records@[i as int]);
            }
            if !record.detached && same_text(record.refresh_token.as_str(), refresh_token) {
                match best {
                    Some(b) => {
                        if ranks_higher(record, &self.records[b]) {
                            proof {
                                assert forall|j: int|
                                    0 <= j < i + 1 && holds(
                                        #[trigger] self.records@[j],
                                        refresh_token@,
                                    ) implies !outranks(
                                    self.records@[j],
                                    self.records@[i as int],
                                ) by {
                                    if j < i {
                                        lemma_rank_transitive(
                                            self.records@[j],
                                            self.records@[b as int],
                                            self.records@[i as int],
                                        );
                                    }
                                }
                            }
                            best = Some(i);
                        }
                    },
                    None => {
                        best = Some(i);
                    },
                }
            }
            i = i + 1;
        }
        match best {
            Some(b) => {
                proof {
                    assert(preferred(self.records@, refresh_token@, b as int));
                    let chosen = choose|at: int| preferred(self.records@, refresh_token@, at);
                    lemma_one_preferred(self.records@, refresh_token@, chosen, b as int);
                }
                Some(&self.records[b])
            },
            None => None,
        }
    }

    /// The account that files with one token are gathered in.
    pub fn select_canonical_target(
        &self,
        group: &Vec<DiskAccountEntry>,
        mode: SyncMode,
    ) -> (target: Option<CanonicalTarget>)
        requires
            self.wf(),
        ensures
            match target {
                Some(target) => group.len() > 0 && target == canonical(
                    self.records@,
                    group@,
                    mode,
                ),
                None => group.len() == 0,
            },
    {
        if group.len() == 0 {
            return None;
        }
        let first: &DiskAccountEntry = &group[0];
        if mode == SyncMode::Rescan {
            if let Some(record) = self.preferred_existing_record(
                first.disk.refresh_token.as_str(),
            ) {
                return match find_entry(group, record.id.as_str()) {
                    Some(entry) => Some(
                        CanonicalTarget {
                            id: record.id.clone(),
                            path: copy_path(&record.file_path),
                            disk: copy_file(&entry.disk),
                            matched_group_path: Some(copy_path(&entry.path)),
                        },
                    ),
                    None => Some(
                        CanonicalTarget {
                            id: record.id.clone(),
                            path: copy_path(&record.file_path),
                            disk: AccountFile {
                                refresh_token: first.disk.refresh_token.clone(),
                                label: copy_text(&record.label),
                                email: copy_text(&record.email),
                            },
                            matched_group_path: None,
                        },
                    ),
                };
            }
        }
        Some(
            CanonicalTarget {
                id: first.id.clone(),
                path: copy_path(&first.path),
                disk: copy_file(&first.disk),
                matched_group_path: Some(copy_path(&first.path)),
            },
        )
    }
}

fn is_observed(observed: &Vec<AccountPath>, path: &AccountPath) -> (found: bool)
    ensures
        found == observes(observed@, *path),
{
    let mut i: usize = 0;
    while i < observed.len()
        invariant
            i <= observed.len(),
            forall|j: int| 0 <= j < i ==> path_view(#[trigger] observed@[j]) != path_view(*path),
        decreases observed.len() - i,
    {
        if same_path(&observed[i], path) {
            return true;
        }
        i = i + 1;
    }
    false
}

fn append_superseded(
    removals: &mut Vec<AccountPath>,
    group: &Vec<DiskAccountEntry>,
    kept: &Option<AccountPath>,
)
    ensures
        final(removals)@ == old(removals)@ + superseded(group@, *kept),
{
    let ghost before = removals@;
    let mut i: usize = 0;
    assert(before + superseded(group@.take(0), *kept) =~= before);
    while i < group.len()
        invariant
            i <= group.len(),
            removals@ == before + superseded(group@.take(i as int), *kept),
        decreases group.len() - i,
    {
        assert(group@.take(i + 1).drop_last() =~= group@.take(i as int));
        let keep: bool = match kept {
            Some(path) => same_path(path, &group[i].path),
            None => false,
        };
        if !keep {
            let ghost earlier = removals@;
            removals.push(copy_path(&group[i].path));
            assert(removals@ =~= before + superseded(group@.take(i as int), *kept).push(
                group@[i as int].path,
            ));
        }
        i = i + 1;
    }
    assert(group@.take(i as int) =~= group@);
}

/// What is to be done for the pool and the files to agree: files with one token are gathered in
/// one, and the pool takes over what they hold.
pub fn build_disk_sync_plan(
    store: &AccountStore,
    snapshot: DiskScanSnapshot,
    mode: SyncMode,
) -> (plan: DiskSyncPlan)
    requires
        store.wf(),
    ensures
        syncs(
            plan,
            store.records@,
            snapshot.entries@,
            snapshot.observed_paths@,
            snapshot.failed_file_ids@,
            mode,
        ),
{
    let tokens: Vec<String> = distinct_tokens(&snapshot.entries);
    let ghost all = tokens_of(snapshot.entries@);
    let ghost records = store.records@;
    let mut writes: Vec<(AccountPath, AccountFile)> = Vec::new();
    let mut removals: Vec<AccountPath> = Vec::new();
    let mut upserts: Vec<DiskSyncUpsert> = Vec::new();
    let mut seen_ids: Vec<String> = Vec::new();
    let mut i: usize = 0;
    while i < tokens.len()
        invariant
            store.wf(),
            i <= tokens.len(),
            records == store.records@,
            all == tokens_of(snapshot.entries@),
            texts(tokens@) == all,
            writes@ == plan_writes(
                records,
                snapshot.entries@,
                snapshot.observed_paths@,
                mode,
                all.take(i as int),
            ),
            removals@ == plan_removals(records, snapshot.entries@, mode, all.take(i as int)),
            upserts.len() == i,
            seen_ids.len() == i,
            forall|j: int|
                0 <= j < i ==> #[trigger] upserts@[j] == plan_upsert(
                    records,
                    snapshot.entries@,
                    mode,
                    all[j],
                ),
            forall|j: int|
                0 <= j < i ==> #[trigger] seen_ids@[j] == plan_upsert(
                    records,
                    snapshot.entries@,
                    mode,
                    all[j],
                ).id,
        decreases tokens.len() - i,
    {
        assert(all[i as int] == tokens@[i as int]@);
        assert(all.take(i + 1).drop_last() =~= all.take(i as int));
        let group: Vec<DiskAccountEntry> = build_group(&snapshot.entries, tokens[i].as_str());
        proof {
            lemma_group(snapshot.entries@, all[i as int]);
            assert(all.contains(all[i as int]));
        }
        if let Some(target) = store.select_canonical_target(&group, mode) {
            let file: AccountFile = merge_duplicate_account_files(&target.disk, &group);
            let differs: bool = (target.disk.label.is_none() && file.label.is_some()) || (
            target.disk.email.is_none() && file.email.is_some());
            assert(differs == (file != target.disk)) by {
                if !differs {
                    assert(file.label == target.disk.label);
                    assert(file.email == target.disk.email);
                }
            }
            if differs || !is_observed(&snapshot.observed_paths, &target.path) {
                writes.push((copy_path(&target.path), copy_file(&file)));
            }
            append_superseded(&mut removals, &group, &target.matched_group_path);
            seen_ids.push(target.id.clone());
            upserts.push(DiskSyncUpsert { id: target.id, path: target.path, disk: file });
        }
        i = i + 1;
    }
    assert(all.take(i as int) =~= all);
    assert(upserts@ =~= Seq::new(
        all.len(),
        |j: int| plan_upsert(records, snapshot.entries@, mode, all[j]),
    ));
    assert(seen_ids@ =~= Seq::new(
        all.len(),
        |j: int| plan_upsert(records, snapshot.entries@, mode, all[j]).id,
    ));
    DiskSyncPlan {
        mode,
        writes,
        removals,
        upserts,
        seen_ids,
        failed_file_ids: snapshot.failed_file_ids,
    }
}

/// The records after all files were taken over.
pub open spec fn all_upserted(
    records: Map<Seq<char>, AccountRecord>,
    upserts: Seq<DiskSyncUpsert>,
) -> Map<Seq<char>, AccountRecord>
    decreases upserts.len(),
{
    if upserts.len() == 0 {
        records
    } else {
        let last = upserts.last();
        upserted(all_upserted(records, upserts.drop_last()), last.id, last.path, last.disk)
    }
}

/// Does an account stay as it is? It does where a file was found for it, and on a later look also
/// where its file could not be read.
pub open spec fn stays(plan: DiskSyncPlan, id: Seq<char>) -> bool {
    listed(plan.seen_ids@, id) || (plan.mode == SyncMode::Rescan && listed(
        plan.failed_file_ids@,
        id,
    ))
}

/// Is a request or a refresh under way on the record?
pub open spec fn busy(record: AccountRecord) -> bool {
    record.in_flight_requests != 0 || record.refresh_in_flight
}

/// What becomes of a record: one that does not stay goes, at once or when nothing is under way.
pub open spec fn fate(plan: DiskSyncPlan, record: AccountRecord) -> Option<AccountRecord> {
    if stays(plan, record.id@) {
        Some(record)
    } else if busy(record) {
        Some(AccountRecord { detached: true, ..record })
    } else {
        None
    }
}

/// The records that are left.
pub open spec fn swept(
    plan: DiskSyncPlan,
    records: Map<Seq<char>, AccountRecord>,
) -> Map<Seq<char>, AccountRecord> {
    Map::new(
        |id: Seq<char>| records.contains_key(id) && fate(plan, records[id]) is Some,
        |id: Seq<char>| fate(plan, records[id])->0,
    )
}

/// The records that are left, in their order.
spec fn sweep(plan: DiskSyncPlan, records: Seq<AccountRecord>) -> Seq<AccountRecord>
    decreases records.len(),
{
    if records.len() == 0 {
        Seq::empty()
    } else {
        let earlier = sweep(plan, records.drop_last());
        match fate(plan, records.last()) {
            Some(record) => earlier.push(record),
            None => earlier,
        }
    }
}

/// A record that is left comes from one that was there.
proof fn lemma_origin(plan: DiskSyncPlan, records: Seq<AccountRecord>, i: int) -> (j: int)
    requires
        0 <= i < sweep(plan, records).len(),
    ensures
        0 <= j < records.len(),
        fate(plan, records[j]) == Some(sweep(plan, records)[i]),
    decreases records.len(),
{
    let earlier = sweep(plan, records.drop_last());
    if i < earlier.len() {
        lemma_origin(plan, records.drop_last(), i)
    } else {
        records.len() - 1
    }
}

/// A record that is to be left is found among those that are.
proof fn lemma_target(plan: DiskSyncPlan, records: Seq<AccountRecord>, j: int) -> (i: int)
    requires
        0 <= j < records.len(),
        fate(plan, records[j]) is Some,
    ensures
        0 <= i < sweep(plan, records).len(),
        sweep(plan, records)[i] == fate(plan, records[j])->0,
    decreases records.len(),
{
    if j < records.len() - 1 {
        lemma_target(plan, records.drop_last(), j)
    } else {
        sweep(plan, records).len() - 1
    }
}

/// The records that are left stand in the order of their ids.
proof fn lemma_sweep_sorted(plan: DiskSyncPlan, records: Seq<AccountRecord>)
    requires
        sorted_ids(records),
    ensures
        sorted_ids(sweep(plan, records)),
    decreases records.len(),
{
    if records.len() > 0 {
        let rest = records.drop_last();
        assert forall|i: int, j: int| 0 <= i < j < rest.len() implies text_before(
            #[trigger] rest[i].id@,
            #[trigger] rest[j].id@,
        ) by {
            assert(text_before(records[i].id@, records[j].id@));
        }
        lemma_sweep_sorted(plan, rest);
        let earlier = sweep(plan, rest);
        let all = sweep(plan, records);
        assert forall|i: int, k: int| 0 <= i < k < all.len() implies text_before(
            #[trigger] all[i].id@,
            #[trigger] all[k].id@,
        ) by {
            if k < earlier.len() {
                assert(text_before(earlier[i].id@, earlier[k].id@));
            } else {
                let j = lemma_origin(plan, rest, i);
                assert(text_before(records[j].id@, records[records.len() - 1].id@));
            }
        }
    }
}

/// The records that are left, by their ids.
proof fn lemma_sweep_map(plan: DiskSyncPlan, records: Seq<AccountRecord>)
    requires
        sorted_ids(records),
    ensures
        sorted_ids(sweep(plan, records)),
        records_map(sweep(plan, records)) == swept(plan, records_map(records)),
{
    lemma_sweep_sorted(plan, records);
    let left = sweep(plan, records);
    lemma_sorted_is_unique(records);
    lemma_sorted_is_unique(left);
    let map = records_map(records);
    assert forall|id: Seq<char>| #[trigger]
        records_map(left).contains_key(id) == swept(plan, map).contains_key(id) by {
        if records_map(left).contains_key(id) {
            let i = choose|i: int| has_id(left, id, i);
            let j = lemma_origin(plan, records, i);
            lemma_found(records, j);
        }
        if swept(plan, map).contains_key(id) {
            let j = choose|j: int| has_id(records, id, j);
            lemma_found(records, j);
            let i = lemma_target(plan, records, j);
            assert(has_id(left, id, i));
        }
    }
    assert forall|id: Seq<char>| records_map(left).contains_key(id) implies #[trigger]
        records_map(left)[id] == swept(plan, map)[id] by {
        let i = choose|i: int| has_id(left, id, i);
        lemma_found(left, i);
        let j = lemma_origin(plan, records, i);
        lemma_found(records, j);
    }
    assert(records_map(left) =~= swept(plan, map));
}

impl AccountStore {
    /// Makes the pool agree with the files.
    pub fn apply_disk_sync_plan(&mut self, plan: DiskSyncPlan)
        requires
            old(self).wf(),
        ensures
            final(self).wf(),
            final(self).same_frame(old(self)),
            final(self).map() == swept(plan, all_upserted(old(self).map(), plan.upserts@)),
    {
        let mut u: usize = 0;
        assert(plan.upserts@.take(0).len() == 0);
        while u < plan.upserts.len()
            invariant
                u <= plan.upserts.len(),
                self.wf(),
                self.same_frame(old(self)),
                self.map() == all_upserted(old(self).map(), plan.upserts@.take(u as int)),
            decreases plan.upserts.len() - u,
        {
            let upsert: &DiskSyncUpsert = &plan.upserts[u];
            assert(plan.upserts@.take(u + 1).drop_last() =~= plan.upserts@.take(u as int));
            self.upsert_disk_record(
                upsert.id.clone(),
                copy_path(&upsert.path),
                copy_file(&upsert.disk),
            );
            u = u + 1;
        }
        assert(plan.upserts@.take(u as int) =~= plan.upserts@);
        let ghost before = self.records@;
        let ghost mut done: int = 0;
        let mut i: usize = 0;
        assert(before.take(0) =~= Seq::<AccountRecord>::empty());
        assert(self.records@.take(0) =~= Seq::<AccountRecord>::empty());
        assert(self.records@.skip(0) =~= before.skip(0));
        while i < self.records.len()
            invariant
                i <= self.records.len(),
                0 <= done <= before.len(),
                self.same_frame(old(self)),
                self.records@.take(i as int) == sweep(plan, before.take(done)),
                self.records@.skip(i as int) == before.skip(done),
            decreases self.records.len() - i,
        {
            let ghost now = self.records@;
            assert(now[i as int] == now.skip(i as int)[0]);
            assert(before.skip(done).len() == now.skip(i as int).len());
            assert(before.skip(done)[0] == before[done]);
            assert(before.take(done + 1).drop_last() =~= before.take(done));
            let id: &str = self.records[i].id.as_str();
            let kept: bool = is_listed(&plan.seen_ids, id) || (plan.mode == SyncMode::Rescan
                && is_listed(&plan.failed_file_ids, id));
            let idle: bool = self.records[i].in_flight_requests == 0
                && !self.records[i].refresh_in_flight;
            if kept {
                assert(now.take(i + 1) =~= now.take(i as int).push(now[i as int]));
                assert(now.skip(i + 1) =~= before.skip(done + 1)) by {
                    assert(now.skip(i + 1) =~= now.skip(i as int).skip(1));
                    assert(before.skip(done + 1) =~= before.skip(done).skip(1));
                }
                i = i + 1;
            } else if idle {
                self.records.remove(i);
                assert(self.records@.take(i as int) =~= now.take(i as int));
                assert(self.records@.skip(i as int) =~= now.skip(i as int).skip(1));
                assert(before.skip(done + 1) =~= before.skip(done).skip(1));
            } else {
                let record: &mut AccountRecord = &mut self.records[i];
                record.detached = true;
                assert(self.records@.take(i + 1) =~= now.take(i as int).push(
                    self.records@[i as int],
                ));
                assert(self.records@.skip(i + 1) =~= now.skip(i as int).skip(1));
                assert(before.skip(done + 1) =~= before.skip(done).skip(1));
                i = i + 1;
            }
            proof {
                done = done + 1;
            }
        }
        proof {
            assert(self.records@.skip(i as int).len() == 0);
            assert(before.take(done) =~= before);
            assert(self.records@.take(i as int) =~= self.records@);
            lemma_sweep_map(plan, before);
        }
    }
}

}
