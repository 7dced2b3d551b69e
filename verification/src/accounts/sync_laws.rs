//! What holds of every import and of every look at the account files.
use crate::accounts::disk::{
    account_id_of, applied, holds_token, path_view, plans_insert, plans_update, DiskAccountEntry,
    DiskSyncPlan, DiskSyncUpsert, ImportAccountPlan, SyncMode,
};
use crate::accounts::selection::listed;
use crate::accounts::sync::{
    all_upserted, busy, canonical, entry_with_id, fate, first_email, first_label, group_of, merged,
    observes, placed, plan_removals, plan_upsert, plan_writes, preferred_record, superseded, swept,
    syncs, tokens_of,
};
use crate::accounts::{AccountFile, AccountPath, AccountRecord};
use vstd::prelude::*;

verus! {

/// The token of an import is known from then on, under the id that follows from it.
pub proof fn imported_tokens_are_known(
    plan: ImportAccountPlan,
    records: Map<Seq<char>, AccountRecord>,
    accounts_dir: String,
    token: Seq<char>,
    label: Option<Seq<char>>,
    email: Option<Seq<char>>,
    id: Seq<char>,
)
    requires
        plans_insert(plan, accounts_dir, token, label, email),
        !records.contains_key(account_id_of(token)),
        forall|id: Seq<char>| !holds_token(records, token, id),
    ensures
        holds_token(applied(plan, records), token, id) <==> id == account_id_of(token),
{
    if id != account_id_of(token) {
        assert(!holds_token(records, token, id));
    }
}

/// An import that is made once more changes nothing.
pub proof fn importing_twice_is_importing_once(
    first: ImportAccountPlan,
    second: ImportAccountPlan,
    records: Map<Seq<char>, AccountRecord>,
    accounts_dir: String,
    token: Seq<char>,
    label: Option<Seq<char>>,
    email: Option<Seq<char>>,
)
    requires
        plans_insert(first, accounts_dir, token, label, email),
        !records.contains_key(account_id_of(token)),
        plans_update(
            second,
            applied(first, records)[account_id_of(token)],
            label,
            email,
        ),
    ensures
        second.already_exists,
        second.disk_op is None,
        applied(second, applied(first, records)) == applied(first, records),
{
}

/// Among the tokens of some files is each that occurs in one of them, and none twice.
pub proof fn tokens_are_gathered_once(entries: Seq<DiskAccountEntry>)
    ensures
        tokens_of(entries).no_duplicates(),
        forall|i: int|
            0 <= i < entries.len() ==> tokens_of(entries).contains(
                (#[trigger] entries[i]).disk.refresh_token@,
            ),
        forall|token: Seq<char>| #[trigger]
            tokens_of(entries).contains(token) ==> exists|i: int|
                0 <= i < entries.len() && (#[trigger] entries[i]).disk.refresh_token@ == token,
    decreases entries.len(),
{
    if entries.len() > 0 {
        let rest = entries.drop_last();
        tokens_are_gathered_once(rest);
        let earlier = tokens_of(rest);
        let all = tokens_of(entries);
        let token = entries.last().disk.refresh_token@;
        assert forall|i: int| 0 <= i < entries.len() implies all.contains(
            (#[trigger] entries[i]).disk.refresh_token@,
        ) by {
            if i < rest.len() {
                assert(rest[i] == entries[i]);
                let k = earlier.index_of(rest[i].disk.refresh_token@);
                assert(all[k] == rest[i].disk.refresh_token@);
            } else if !earlier.contains(token) {
                assert(all[all.len() - 1] == token);
            }
        }
        assert forall|other: Seq<char>| #[trigger] all.contains(other) implies exists|i: int|
            0 <= i < entries.len() && (#[trigger] entries[i]).disk.refresh_token@ == other by {
            if earlier.contains(other) {
                let i = choose|i: int|
                    0 <= i < rest.len() && (#[trigger] rest[i]).disk.refresh_token@ == other;
                assert(entries[i].disk.refresh_token@ == other);
            } else {
                assert(other == token);
                assert(entries[entries.len() - 1].disk.refresh_token@ == other);
            }
        }
    }
}

proof fn lemma_placed(group: Seq<DiskAccountEntry>, entry: DiskAccountEntry, token: Seq<char>)
    requires
        forall|i: int| 0 <= i < group.len() ==> (#[trigger] group[i]).disk.refresh_token@ == token,
        entry.disk.refresh_token@ == token,
    ensures
        placed(group, entry).len() == group.len() + 1,
        placed(group, entry).contains(entry),
        forall|i: int|
            0 <= i < group.len() ==> placed(group, entry).contains(#[trigger] group[i]),
        forall|i: int|
            0 <= i < placed(group, entry).len() ==> (#[trigger] placed(group, entry)[i]).disk.refresh_token@
                == token,
    decreases group.len(),
{
    let all = placed(group, entry);
    if group.len() > 0 && crate::text::text_before(entry.id@, group.last().id@) {
        let rest = group.drop_last();
        lemma_placed(rest, entry, token);
        let less = placed(rest, entry);
        assert(all == less.push(group.last()));
        let k = less.index_of(entry);
        assert(all[k] == entry);
        assert forall|i: int| 0 <= i < group.len() implies all.contains(#[trigger] group[i]) by {
            if i < rest.len() {
                assert(rest[i] == group[i]);
                let at = less.index_of(rest[i]);
                assert(all[at] == group[i]);
            } else {
                assert(all[all.len() - 1] == group[i]);
            }
        }
    } else {
        assert(all[all.len() - 1] == entry);
        assert forall|i: int| 0 <= i < group.len() implies all.contains(#[trigger] group[i]) by {
            assert(all[i] == group[i]);
        }
    }
}

/// The files of one token are gathered together, and no other file with them.
pub proof fn files_are_gathered_by_token(entries: Seq<DiskAccountEntry>, token: Seq<char>)
    ensures
        forall|i: int|
            0 <= i < group_of(entries, token).len() ==> (#[trigger] group_of(
                entries,
                token,
            )[i]).disk.refresh_token@ == token,
        forall|i: int|
            0 <= i < entries.len() && (#[trigger] entries[i]).disk.refresh_token@ == token
                ==> group_of(entries, token).contains(entries[i]),
    decreases entries.len(),
{
    if entries.len() > 0 {
        let rest = entries.drop_last();
        files_are_gathered_by_token(rest, token);
        let earlier = group_of(rest, token);
        let all = group_of(entries, token);
        if entries.last().disk.refresh_token@ == token {
            lemma_placed(earlier, entries.last(), token);
        }
        assert forall|i: int|
            0 <= i < entries.len() && (#[trigger] entries[i]).disk.refresh_token@
                == token implies all.contains(entries[i]) by {
            if i < rest.len() {
                assert(rest[i] == entries[i]);
                let k = earlier.index_of(rest[i]);
                assert(earlier[k] == entries[i]);
            }
        }
    }
}

proof fn lemma_entry_with_id(group: Seq<DiskAccountEntry>, id: Seq<char>)
    ensures
        entry_with_id(group, id) matches Some(entry) ==> group.contains(entry),
    decreases group.len(),
{
    if group.len() > 0 && group[0].id@ != id {
        lemma_entry_with_id(group.skip(1), id);
        if let Some(entry) = entry_with_id(group, id) {
            let k = group.skip(1).index_of(entry);
            assert(group[k + 1] == entry);
        }
    }
}

/// Each file's token has its account after a look at the files.
pub proof fn every_token_has_its_account(
    plan: DiskSyncPlan,
    records: Seq<AccountRecord>,
    entries: Seq<DiskAccountEntry>,
    observed: Seq<AccountPath>,
    failed: Seq<String>,
    mode: SyncMode,
    at: int,
)
    requires
        syncs(plan, records, entries, observed, failed, mode),
        0 <= at < entries.len(),
    ensures
        exists|i: int|
            0 <= i < plan.upserts@.len() && (#[trigger] plan.upserts@[i]).disk.refresh_token@
                == entries[at].disk.refresh_token@,
{
    let token = entries[at].disk.refresh_token@;
    tokens_are_gathered_once(entries);
    files_are_gathered_by_token(entries, token);
    let i = tokens_of(entries).index_of(token);
    let group = group_of(entries, token);
    assert(group.contains(entries[at]));
    assert(group[0].disk.refresh_token@ == token);
    let target = canonical(records, group, mode);
    if mode == SyncMode::Rescan {
        if let Some(record) = preferred_record(records, group[0].disk.refresh_token@) {
            lemma_entry_with_id(group, record.id@);
        }
    }
    assert(target.disk.refresh_token@ == token);
    assert(plan.upserts@[i] == plan_upsert(records, entries, mode, token));
}

proof fn lemma_label(group: Seq<DiskAccountEntry>, at: int)
    requires
        0 <= at < group.len(),
    ensures
        group[at].disk.label is Some ==> first_label(group) is Some,
        group[at].disk.email is Some ==> first_email(group) is Some,
    decreases group.len(),
{
    if at > 0 {
        lemma_label(group.skip(1), at - 1);
        assert(group.skip(1)[at - 1] == group[at]);
    }
}

/// Where one of several files has a label or an address, so does the file that they are gathered
/// in, and it keeps its own.
pub proof fn labels_are_kept(base: AccountFile, group: Seq<DiskAccountEntry>, at: int)
    requires
        0 <= at < group.len(),
    ensures
        base.label is Some ==> merged(base, group).label == base.label,
        base.email is Some ==> merged(base, group).email == base.email,
        group[at].disk.label is Some ==> merged(base, group).label is Some,
        group[at].disk.email is Some ==> merged(base, group).email is Some,
{
    lemma_label(group, at);
}

proof fn lemma_superseded(group: Seq<DiskAccountEntry>, kept: Option<AccountPath>)
    ensures
        forall|i: int|
            0 <= i < superseded(group, kept).len() ==> kept is None || path_view(
                #[trigger] superseded(group, kept)[i],
            ) != path_view(kept->0),
        forall|i: int|
            0 <= i < group.len() ==> superseded(group, kept).contains((#[trigger] group[i]).path)
                || (kept is Some && path_view(kept->0) == path_view(group[i].path)),
    decreases group.len(),
{
    if group.len() > 0 {
        let rest = group.drop_last();
        lemma_superseded(rest, kept);
        let all = superseded(group, kept);
        assert forall|i: int| 0 <= i < group.len() implies all.contains((#[trigger] group[i]).path)
            || (kept is Some && path_view(kept->0) == path_view(group[i].path)) by {
            if i < rest.len() {
                assert(rest[i] == group[i]);
                if superseded(rest, kept).contains(rest[i].path) {
                    let k = superseded(rest, kept).index_of(rest[i].path);
                    assert(all[k] == group[i].path);
                }
            } else if !(kept is Some && path_view(kept->0) == path_view(group[i].path)) {
                assert(all[all.len() - 1] == group[i].path);
            }
        }
    }
}

/// Of the files of one token each goes but the one that is kept, and that one stays.
pub proof fn one_file_is_kept(
    records: Seq<AccountRecord>,
    group: Seq<DiskAccountEntry>,
    mode: SyncMode,
    at: int,
)
    requires
        0 <= at < group.len(),
    ensures
        ({
            let kept = canonical(records, group, mode).matched_group_path;
            let gone = superseded(group, kept);
            &&& gone.contains(group[at].path) || (kept is Some && path_view(kept->0) == path_view(
                group[at].path,
            ))
            &&& forall|i: int|
                0 <= i < gone.len() ==> kept is None || path_view(#[trigger] gone[i]) != path_view(
                    kept->0,
                )
        }),
{
    lemma_superseded(group, canonical(records, group, mode).matched_group_path);
}

/// Does one file hold this token, and is it the one of the account that has it?
pub open spec fn settled(
    records: Seq<AccountRecord>,
    entries: Seq<DiskAccountEntry>,
    observed: Seq<AccountPath>,
    mode: SyncMode,
    token: Seq<char>,
) -> bool {
    let group = group_of(entries, token);
    &&& group.len() == 1
    &&& observes(observed, group[0].path)
    &&& mode == SyncMode::Rescan ==> match preferred_record(records, token) {
        Some(record) => record.id@ == group[0].id@ && path_view(record.file_path) == path_view(
            group[0].path,
        ),
        None => true,
    }
}

proof fn lemma_settled(
    records: Seq<AccountRecord>,
    entries: Seq<DiskAccountEntry>,
    observed: Seq<AccountPath>,
    mode: SyncMode,
    tokens: Seq<Seq<char>>,
)
    requires
        forall|i: int|
            0 <= i < tokens.len() ==> settled(
                records,
                entries,
                observed,
                mode,
                #[trigger] tokens[i],
            ),
    ensures
        plan_writes(records, entries, observed, mode, tokens).len() == 0,
        plan_removals(records, entries, mode, tokens).len() == 0,
    decreases tokens.len(),
{
    if tokens.len() > 0 {
        let rest = tokens.drop_last();
        assert forall|i: int| 0 <= i < rest.len() implies settled(
            records,
            entries,
            observed,
            mode,
            #[trigger] rest[i],
        ) by {
            assert(rest[i] == tokens[i]);
        }
        lemma_settled(records, entries, observed, mode, rest);
        let token = tokens.last();
        assert(settled(records, entries, observed, mode, tokens[tokens.len() - 1]));
        files_are_gathered_by_token(entries, token);
        let group = group_of(entries, token);
        let target = canonical(records, group, mode);
        assert(group[0].disk.refresh_token@ == token);
        assert(target.disk == group[0].disk);
        assert(first_label(group.skip(1)) is None);
        assert(first_email(group.skip(1)) is None);
        assert(merged(target.disk, group) == target.disk);
        let seen = choose|i: int|
            0 <= i < observed.len() && path_view(#[trigger] observed[i]) == path_view(
                group[0].path,
            );
        assert(path_view(observed[seen]) == path_view(target.path));
        assert(superseded(group.drop_last(), target.matched_group_path).len() == 0);
        assert(superseded(group, target.matched_group_path).len() == 0);
    }
}

/// Where each token has one file, and that is the file of its account, no file is written and
/// none goes.
pub proof fn settled_files_are_left_alone(
    plan: DiskSyncPlan,
    records: Seq<AccountRecord>,
    entries: Seq<DiskAccountEntry>,
    observed: Seq<AccountPath>,
    failed: Seq<String>,
    mode: SyncMode,
)
    requires
        syncs(plan, records, entries, observed, failed, mode),
        forall|i: int|
            0 <= i < entries.len() ==> settled(
                records,
                entries,
                observed,
                mode,
                (#[trigger] entries[i]).disk.refresh_token@,
            ),
    ensures
        plan.writes@.len() == 0,
        plan.removals@.len() == 0,
{
    let tokens = tokens_of(entries);
    tokens_are_gathered_once(entries);
    assert forall|i: int| 0 <= i < tokens.len() implies settled(
        records,
        entries,
        observed,
        mode,
        #[trigger] tokens[i],
    ) by {
        assert(tokens.contains(tokens[i]));
        let k = choose|k: int|
            0 <= k < entries.len() && (#[trigger] entries[k]).disk.refresh_token@ == tokens[i];
        assert(settled(records, entries, observed, mode, entries[k].disk.refresh_token@));
    }
    lemma_settled(records, entries, observed, mode, tokens);
}

/// An account on which something is under way outlives a look at the files, with its requests,
/// its token and its block as they are.
pub proof fn accounts_in_use_outlive_their_files(plan: DiskSyncPlan, record: AccountRecord)
    requires
        busy(record),
    ensures
        ({
            let after = fate(plan, record);
            &&& after is Some
            &&& after->0 == (AccountRecord { detached: after->0.detached, ..record })
        }),
{
}

proof fn lemma_upserted(
    records: Map<Seq<char>, AccountRecord>,
    upserts: Seq<DiskSyncUpsert>,
    at: int,
)
    requires
        0 <= at < upserts.len(),
        forall|id: Seq<char>| #[trigger] records.contains_key(id) ==> records[id].id@ == id,
    ensures
        all_upserted(records, upserts).contains_key(upserts[at].id@),
        forall|id: Seq<char>| #[trigger]
            all_upserted(records, upserts).contains_key(id) ==> all_upserted(
                records,
                upserts,
            )[id].id@ == id,
    decreases upserts.len(),
{
    let rest = upserts.drop_last();
    if at < rest.len() {
        lemma_upserted(records, rest, at);
        assert(rest[at] == upserts[at]);
    } else if rest.len() > 0 {
        lemma_upserted(records, rest, 0);
    } else {
        assert(all_upserted(records, rest) == records);
    }
}

/// Each account that a look at the files finds is in the pool from then on.
pub proof fn accounts_with_files_are_in_the_pool(
    plan: DiskSyncPlan,
    before: Map<Seq<char>, AccountRecord>,
    records: Seq<AccountRecord>,
    entries: Seq<DiskAccountEntry>,
    observed: Seq<AccountPath>,
    failed: Seq<String>,
    mode: SyncMode,
    at: int,
)
    requires
        syncs(plan, records, entries, observed, failed, mode),
        0 <= at < plan.upserts@.len(),
        forall|id: Seq<char>| #[trigger] before.contains_key(id) ==> before[id].id@ == id,
    ensures
        swept(plan, all_upserted(before, plan.upserts@)).contains_key(plan.upserts@[at].id@),
{
    lemma_upserted(before, plan.upserts@, at);
    assert(plan.seen_ids@[at] == plan.upserts@[at].id);
    assert(listed(plan.seen_ids@, plan.upserts@[at].id@));
}

}
