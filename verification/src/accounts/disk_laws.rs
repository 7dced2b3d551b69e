//! What holds of account files, their names, and what is read from them.
use crate::accounts::disk::{
    account_id_of, applied, file_id, fresh_record, hex, hex_digit, holds_token, plans_import,
    plans_insert, plans_update, removed, reread, scans_as, sha256, split_name, trash_name, upserted,
    DiskAccountEntry, DiskSyncPlan, ImportAccountPlan, ScannedFile, SyncMode,
};
use crate::accounts::selection::{eligible, listed};
use crate::accounts::sync::{
    canonical, fate, group_of, holds, merged, observes, outranks, plan_writes, preferred,
    preferred_record, swept,
};
use crate::accounts::{
    letters, metadata, AccountFile, AccountPath, AccountRecord, EmptyRefreshToken, RoutingState,
};
use crate::text::{decimal, text_before, trimmed};
use crate::time::Timestamp;
use vstd::prelude::*;
use vstd::utf8::encode_utf8;

verus! {

proof fn lemma_split_at(name: Seq<char>, at: int, from: int)
    requires
        0 < at <= from < name.len(),
        name[at] == '.',
        forall|i: int| at < i <= from ==> #[trigger] name[i] != '.',
    ensures
        split_name(name, from) == Some((name.take(at), name.skip(at + 1))),
    decreases from,
{
    if at < from {
        assert(name[from] != '.');
        lemma_split_at(name, at, from - 1);
    }
}

proof fn lemma_split(name: Seq<char>, from: int)
    requires
        from < name.len(),
    ensures
        split_name(name, from) matches Some((stem, extension)) ==> stem.len() > 0 && name == stem
            + seq!['.'] + extension,
    decreases from,
{
    if from > 0 {
        if name[from] == '.' {
            assert(name =~= name.take(from) + seq!['.'] + name.skip(from + 1));
        } else {
            lemma_split(name, from - 1);
        }
    }
}

/// A file is an account's where its name is an id and the extension `json`, and then the id is what
/// stands before it, and not empty. So the file of an id is found under that id.
pub proof fn files_are_found_by_their_id(id: Seq<char>, name: Seq<char>)
    ensures
        id.len() > 0 ==> file_id(id + ".json"@) == Some(id),
        file_id(name) matches Some(found) ==> found.len() > 0 && name == found + ".json"@,
        file_id(".json"@) is None,
{
    reveal_strlit(".json");
    reveal_strlit("json");
    assert(".json"@ =~= seq!['.'] + "json"@);
    if id.len() > 0 {
        let whole = id + ".json"@;
        lemma_split_at(whole, id.len() as int, whole.len() - 1);
        assert(whole.take(id.len() as int) =~= id);
        assert(whole.skip(id.len() as int + 1) =~= "json"@);
    }
    lemma_split(name, name.len() - 1);
    if let Some(found) = file_id(name) {
        assert(name =~= found + ".json"@);
    }
    lemma_split(".json"@, 4);
    if let Some(found) = file_id(".json"@) {
        assert(".json"@.len() == found.len() + 5);
    }
}

proof fn lemma_hex(bytes: Seq<u8>)
    ensures
        hex(bytes).len() == 2 * bytes.len(),
        forall|i: int|
            0 <= i < hex(bytes).len() ==> ('0' <= #[trigger] hex(bytes)[i] && hex(bytes)[i] <= '9')
                || ('a' <= hex(bytes)[i] && hex(bytes)[i] <= 'f'),
        forall|i: int|
            #![trigger bytes[i]]
            0 <= i < bytes.len() ==> hex(bytes)[2 * i] == hex_digit(bytes[i] as int / 16)
                && hex(bytes)[2 * i + 1] == hex_digit(bytes[i] as int % 16),
    decreases bytes.len(),
{
    if bytes.len() > 0 {
        lemma_hex(bytes.drop_last());
        let last = bytes.len() - 1;
        assert forall|i: int|
            #![trigger bytes[i]]
            0 <= i < bytes.len() implies hex(bytes)[2 * i] == hex_digit(bytes[i] as int / 16)
            && hex(bytes)[2 * i + 1] == hex_digit(bytes[i] as int % 16) by {
            if i < last {
                assert(bytes.drop_last()[i] == bytes[i]);
            }
        }
    }
}

/// Bytes are written as two digits each, of a base of sixteen and in small letters, and different
/// bytes differently.
pub proof fn bytes_are_written_apart(left: Seq<u8>, right: Seq<u8>, i: int)
    ensures
        hex(left).len() == 2 * left.len(),
        0 <= i < hex(left).len() ==> ('0' <= hex(left)[i] && hex(left)[i] <= '9') || ('a' <= hex(
            left,
        )[i] && hex(left)[i] <= 'f'),
        hex(left) == hex(right) ==> left == right,
{
    lemma_hex(left);
    lemma_hex(right);
    if hex(left) == hex(right) {
        assert forall|k: int| 0 <= k < left.len() implies left[k] == right[k] by {
            assert(hex_digit(left[k] as int / 16) == hex_digit(right[k] as int / 16));
            assert(hex_digit(left[k] as int % 16) == hex_digit(right[k] as int % 16));
            lemma_digits_apart(left[k] as int / 16, right[k] as int / 16);
            lemma_digits_apart(left[k] as int % 16, right[k] as int % 16);
        }
        assert(left =~= right);
    }
}

proof fn lemma_digits_apart(a: int, b: int)
    requires
        0 <= a < 16,
        0 <= b < 16,
        hex_digit(a) == hex_digit(b),
    ensures
        a == b,
{
}

/// The id of a token is the first half of its digest, in 32 digits: two tokens share one only where
/// these halves are the same.
pub proof fn ids_come_from_digests(token: Seq<char>, other: Seq<char>)
    requires
        sha256(encode_utf8(token)).len() == 32,
        sha256(encode_utf8(other)).len() == 32,
    ensures
        account_id_of(token).len() == 32,
        account_id_of(token) == account_id_of(other) ==> forall|i: int|
            0 <= i < 16 ==> #[trigger] sha256(encode_utf8(token))[i] == sha256(encode_utf8(other))[i],
{
    let left = sha256(encode_utf8(token)).take(16);
    let right = sha256(encode_utf8(other)).take(16);
    bytes_are_written_apart(left, right, 0);
    if account_id_of(token) == account_id_of(other) {
        assert forall|i: int| 0 <= i < 16 implies #[trigger] sha256(encode_utf8(token))[i] == sha256(
            encode_utf8(other),
        )[i] by {
            assert(left[i] == right[i]);
        }
    }
}

/// A file keeps its name in the trash where that is free. Else its name tells when it came there and
/// by which attempt, and it stays an account file by its extension.
pub proof fn trash_names_are_told_apart(id: Seq<char>, attempt: u64, stamp: u128)
    requires
        id.len() > 0,
    ensures
        trash_name(id + ".json"@, 0, stamp) == id + ".json"@,
        attempt > 0 ==> trash_name(id + ".json"@, attempt, stamp) == id + "-"@ + decimal(
            stamp as nat,
        ) + "-"@ + decimal(attempt as nat) + ".json"@,
        file_id(trash_name(id + ".json"@, attempt, stamp)) is Some,
{
    reveal_strlit(".json");
    reveal_strlit("json");
    reveal_strlit(".");
    assert(".json"@ =~= "."@ + "json"@);
    let whole = id + ".json"@;
    lemma_split_at(whole, id.len() as int, whole.len() - 1);
    assert(whole.take(id.len() as int) =~= id);
    if attempt > 0 {
        let stem = id + "-"@ + decimal(stamp as nat) + "-"@ + decimal(attempt as nat);
        assert(stem + "."@ + "json"@ =~= stem + ".json"@);
        files_are_found_by_their_id(stem, whole);
    } else {
        files_are_found_by_their_id(id, whole);
    }
}

/// An account that is read from its file for the first time has what the file holds, and nothing
/// else: no token, no block, nothing under way.
pub proof fn new_accounts_are_blank(id: String, path: AccountPath, disk: AccountFile)
    ensures
        ({
            let record = fresh_record(id, path, disk);
            &&& record.id == id && record.file_path == path
            &&& record.refresh_token == disk.refresh_token
            &&& record.label == disk.label && record.email == disk.email
            &&& record.access_token is None && record.access_token_expires_at is None
            &&& record.account_id is None && record.plan_type is None
            &&& record.routing_state == RoutingState::Cold
            &&& record.blocked_reason is None && record.blocked_until is None
            &&& record.blocked_source is None
            &&& record.local_backoff_level == 0 && record.in_flight_requests == 0
            &&& !record.refresh_in_flight && !record.detached && !record.auth_invalid_tombstone
            &&& record.last_error is None && record.last_selected_at is None
        }),
{
}

/// An account that is read once more has the path, the label and the address of its file from then
/// on, and everything else as it was. One that was out of the pool is back in it, unless it lost its
/// authorization.
pub proof fn known_accounts_keep_their_state(
    record: AccountRecord,
    path: AccountPath,
    disk: AccountFile,
)
    ensures
        ({
            let after = reread(record, path, disk);
            &&& after.file_path == path && after.label == disk.label && after.email == disk.email
            &&& after.id == record.id && after.refresh_token == record.refresh_token
            &&& after.access_token == record.access_token
            &&& after.routing_state == record.routing_state
            &&& after.blocked_reason == record.blocked_reason
            &&& after.blocked_until == record.blocked_until
            &&& after.in_flight_requests == record.in_flight_requests
            &&& after.refresh_in_flight == record.refresh_in_flight
            &&& after.auth_invalid_tombstone == record.auth_invalid_tombstone
            &&& !record.auth_invalid_tombstone ==> !after.detached
            &&& record.auth_invalid_tombstone ==> after.detached == record.detached
        }),
{
}

/// Reading one file changes no other account.
pub proof fn files_change_their_own_account(
    records: Map<Seq<char>, AccountRecord>,
    id: String,
    path: AccountPath,
    disk: AccountFile,
    other: Seq<char>,
)
    ensures
        ({
            let after = upserted(records, id, path, disk);
            &&& after.contains_key(id@)
            &&& other != id@ ==> (after.contains_key(other) <==> records.contains_key(other))
            &&& other != id@ && records.contains_key(other) ==> after[other] == records[other]
            &&& records.contains_key(id@) ==> after[id@].access_token == records[id@].access_token
                && after[id@].blocked_until == records[id@].blocked_until
            &&& after[id@].label == disk.label && after[id@].email == disk.email
        }),
{
}

/// An import of a token that is known takes over a label and an address where they are given, and
/// keeps them where they are not. Only a change is written, and the token stays.
pub proof fn imports_update_what_is_given(
    plan: ImportAccountPlan,
    records: Map<Seq<char>, AccountRecord>,
    id: Seq<char>,
    label: Option<Seq<char>>,
    email: Option<Seq<char>>,
)
    requires
        records.contains_key(id),
        records[id].id@ == id,
        plans_update(plan, records[id], label, email),
    ensures
        ({
            let after = applied(plan, records);
            &&& plan.already_exists && plan.account_id@ == id
            &&& after.dom() =~= records.dom()
            &&& label is Some ==> letters(after[id].label) == label
            &&& label is None ==> letters(after[id].label) == letters(records[id].label)
            &&& email is Some ==> letters(after[id].email) == email
            &&& email is None ==> letters(after[id].email) == letters(records[id].email)
            &&& after[id].refresh_token == records[id].refresh_token
            &&& after[id].blocked_until == records[id].blocked_until
            &&& label is None && email is None ==> plan.disk_op is None
            &&& plan.disk_op is Some ==> plan.disk_op->0 is Write && plan.disk_op->0->Write_path
                == records[id].file_path && plan.disk_op->0->Write_disk.refresh_token@
                == records[id].refresh_token@
        }),
{
}

/// An import of a new token writes a file under the id of that token, and adds its account and no
/// other.
pub proof fn imports_add_one_account(
    plan: ImportAccountPlan,
    records: Map<Seq<char>, AccountRecord>,
    accounts_dir: String,
    token: Seq<char>,
    label: Option<Seq<char>>,
    email: Option<Seq<char>>,
    other: Seq<char>,
)
    requires
        plans_insert(plan, accounts_dir, token, label, email),
        !records.contains_key(account_id_of(token)),
        account_id_of(token).len() > 0,
    ensures
        ({
            let after = applied(plan, records);
            let id = account_id_of(token);
            &&& !plan.already_exists && plan.account_id@ == id
            &&& after.contains_key(id)
            &&& after[id].refresh_token@ == token
            &&& letters(after[id].label) == label && letters(after[id].email) == email
            &&& after[id].file_path.dir == accounts_dir
            &&& file_id(after[id].file_path.name@) == Some(id)
            &&& plan.disk_op is Some && plan.disk_op->0 is Write
            &&& plan.disk_op->0->Write_path == after[id].file_path
            &&& plan.disk_op->0->Write_disk.refresh_token@ == token
            &&& other != id ==> (after.contains_key(other) <==> records.contains_key(other))
            &&& other != id && records.contains_key(other) ==> after[other] == records[other]
        }),
{
    let id = account_id_of(token);
    reveal_strlit(".json");
    reveal_strlit("json");
    reveal_strlit(".");
    assert(id + "."@ + "json"@ =~= id + ".json"@);
    files_are_found_by_their_id(id, id);
}

/// Every account file that can be read and holds a token is taken in, with that token, its label and
/// its address.
pub proof fn readable_files_are_taken_in(
    files: Seq<ScannedFile>,
    accounts_dir: String,
    entries: Seq<DiskAccountEntry>,
    failed: Seq<String>,
    observed: Seq<AccountPath>,
    at: int,
)
    requires
        scans_as(files, accounts_dir, entries, failed, observed),
        0 <= at < files.len(),
        file_id(files[at].name@) is Some,
    ensures
        exists|k: int|
            0 <= k < observed.len() && (#[trigger] observed[k]).name == files[at].name
                && observed[k].dir == accounts_dir,
        files[at].disk is Some && trimmed(files[at].disk->0.refresh_token@).len() > 0 ==> exists|
            k: int,
        |
            {
                &&& 0 <= k < entries.len()
                &&& (#[trigger] entries[k]).id@ == file_id(files[at].name@)->0
                &&& entries[k].path.name == files[at].name
                &&& entries[k].disk.refresh_token@ == trimmed(files[at].disk->0.refresh_token@)
                &&& entries[k].disk.label == files[at].disk->0.label
                &&& entries[k].disk.email == files[at].disk->0.email
            },
        files[at].disk is None || trimmed(files[at].disk->0.refresh_token@).len() == 0 ==> exists|
            k: int,
        |
            0 <= k < failed.len() && (#[trigger] failed[k])@ == file_id(files[at].name@)->0,
    decreases files.len(),
{
    let last = files.len() - 1;
    let file = files.last();
    let readable = file.disk is Some && trimmed(file.disk->0.refresh_token@).len() > 0;
    let named = file_id(file.name@) is Some;
    let fewer_entries = if named && readable {
        entries.drop_last()
    } else {
        entries
    };
    let fewer_failed = if named && !readable {
        failed.drop_last()
    } else {
        failed
    };
    let fewer_observed = if named {
        observed.drop_last()
    } else {
        observed
    };
    if at == last {
        assert(observed[observed.len() - 1].name == files[at].name);
        if readable {
            assert(entries[entries.len() - 1].id@ == file_id(files[at].name@)->0);
        } else {
            assert(failed[failed.len() - 1]@ == file_id(files[at].name@)->0);
        }
    } else {
        assert(files.drop_last()[at] == files[at]);
        readable_files_are_taken_in(
            files.drop_last(),
            accounts_dir,
            fewer_entries,
            fewer_failed,
            fewer_observed,
            at,
        );
        let k = choose|k: int|
            0 <= k < fewer_observed.len() && (#[trigger] fewer_observed[k]).name == files[at].name
                && fewer_observed[k].dir == accounts_dir;
        assert(observed[k] == fewer_observed[k]);
        if files[at].disk is Some && trimmed(files[at].disk->0.refresh_token@).len() > 0 {
            let k = choose|k: int|
                {
                    &&& 0 <= k < fewer_entries.len()
                    &&& (#[trigger] fewer_entries[k]).id@ == file_id(files[at].name@)->0
                    &&& fewer_entries[k].path.name == files[at].name
                    &&& fewer_entries[k].disk.refresh_token@ == trimmed(
                        files[at].disk->0.refresh_token@,
                    )
                    &&& fewer_entries[k].disk.label == files[at].disk->0.label
                    &&& fewer_entries[k].disk.email == files[at].disk->0.email
                };
            assert(entries[k] == fewer_entries[k]);
        } else {
            let k = choose|k: int|
                0 <= k < fewer_failed.len() && (#[trigger] fewer_failed[k])@ == file_id(
                    files[at].name@,
                )->0;
            assert(failed[k] == fewer_failed[k]);
        }
    }
}

/// Of two accounts with one token the one that fetches a token goes first, then the one with more
/// requests under way, then one that has a token, then the one that was picked last, then the smaller
/// id.
pub proof fn busier_accounts_are_kept(left: AccountRecord, right: AccountRecord)
    ensures
        left.refresh_in_flight && !right.refresh_in_flight ==> outranks(left, right),
        left.refresh_in_flight == right.refresh_in_flight && left.in_flight_requests
            > right.in_flight_requests ==> outranks(left, right),
        left.refresh_in_flight == right.refresh_in_flight && left.in_flight_requests
            == right.in_flight_requests && left.access_token is Some && right.access_token is None
            ==> outranks(left, right),
        left.refresh_in_flight == right.refresh_in_flight && left.in_flight_requests
            == right.in_flight_requests && (left.access_token is Some) == (right.access_token is Some)
            && left.last_selected_at is Some && right.last_selected_at is None ==> outranks(
            left,
            right,
        ),
        left.refresh_in_flight == right.refresh_in_flight && left.in_flight_requests
            == right.in_flight_requests && (left.access_token is Some) == (right.access_token is Some)
            && left.last_selected_at is Some && right.last_selected_at is Some
            && left.last_selected_at->0.nanos > right.last_selected_at->0.nanos ==> outranks(
            left,
            right,
        ),
        left.refresh_in_flight == right.refresh_in_flight && left.in_flight_requests
            == right.in_flight_requests && (left.access_token is Some) == (right.access_token is Some)
            && left.last_selected_at == right.last_selected_at && text_before(left.id@, right.id@)
            ==> outranks(left, right),
        outranks(left, right) ==> !outranks(right, left),
{
    if outranks(left, right) {
        crate::text::text_order_is_total(left.id@, right.id@);
        crate::text::text_order_is_irreflexive(left.id@);
        if text_before(left.id@, right.id@) && text_before(right.id@, left.id@) {
            crate::text::text_order_is_transitive(left.id@, right.id@, left.id@);
        }
    }
}

/// The account that is kept for a token is in the pool, has that token, and no other such account is
/// busier.
pub proof fn no_busier_account_is_given_up(
    records: Seq<AccountRecord>,
    token: Seq<char>,
    at: int,
    other: int,
)
    requires
        preferred(records, token, at),
        0 <= other < records.len(),
        !records[other].detached,
        records[other].refresh_token@ == token,
    ensures
        !records[at].detached,
        records[at].refresh_token@ == token,
        records[other].refresh_in_flight ==> records[at].refresh_in_flight,
        records[other].refresh_in_flight == records[at].refresh_in_flight
            ==> records[at].in_flight_requests >= records[other].in_flight_requests,
{
}

/// Where files are gathered, the token stays that of the account.
pub proof fn gathered_files_keep_the_token(base: AccountFile, group: Seq<DiskAccountEntry>)
    ensures
        merged(base, group).refresh_token == base.refresh_token,
        base.label is Some ==> merged(base, group).label == base.label,
        base.email is Some ==> merged(base, group).email == base.email,
{
}

/// What becomes of an account at a look at the files: it stays where a file was found for it, or, but
/// for the first look, where its file could not be read; else it is gone as soon as nothing is under
/// way on it.
pub proof fn accounts_go_with_their_files(plan: DiskSyncPlan, record: AccountRecord)
    ensures
        listed(plan.seen_ids@, record.id@) ==> fate(plan, record) == Some(record),
        plan.mode == SyncMode::Rescan && listed(plan.failed_file_ids@, record.id@) ==> fate(
            plan,
            record,
        ) == Some(record),
        !listed(plan.seen_ids@, record.id@) && !(plan.mode == SyncMode::Rescan && listed(
            plan.failed_file_ids@,
            record.id@,
        )) ==> {
            let idle = record.in_flight_requests == 0 && !record.refresh_in_flight;
            &&& idle ==> fate(plan, record) is None
            &&& !idle ==> fate(plan, record) is Some && fate(plan, record)->0.detached && fate(
                plan,
                record,
            )->0.in_flight_requests == record.in_flight_requests
        },
{
}

/// A look at the files finds as many accounts and failures together as there are account files, and
/// nothing that no file stands for.
pub proof fn nothing_is_found_without_a_file(
    files: Seq<ScannedFile>,
    accounts_dir: String,
    entries: Seq<DiskAccountEntry>,
    failed: Seq<String>,
    observed: Seq<AccountPath>,
    k: int,
)
    requires
        scans_as(files, accounts_dir, entries, failed, observed),
    ensures
        entries.len() + failed.len() == observed.len(),
        observed.len() <= files.len(),
        0 <= k < entries.len() ==> exists|at: int|
            {
                &&& 0 <= at < files.len()
                &&& (#[trigger] files[at]).name == entries[k].path.name
                &&& file_id(files[at].name@) == Some(entries[k].id@)
                &&& files[at].disk is Some
                &&& entries[k].disk.refresh_token@ == trimmed(files[at].disk->0.refresh_token@)
                &&& entries[k].disk.refresh_token@.len() > 0
            },
    decreases files.len(),
{
    if files.len() > 0 {
        let file = files.last();
        let readable = file.disk is Some && trimmed(file.disk->0.refresh_token@).len() > 0;
        let named = file_id(file.name@) is Some;
        let fewer_entries = if named && readable {
            entries.drop_last()
        } else {
            entries
        };
        let fewer_failed = if named && !readable {
            failed.drop_last()
        } else {
            failed
        };
        let fewer_observed = if named {
            observed.drop_last()
        } else {
            observed
        };
        nothing_is_found_without_a_file(
            files.drop_last(),
            accounts_dir,
            fewer_entries,
            fewer_failed,
            fewer_observed,
            k,
        );
        if 0 <= k < entries.len() {
            if k < fewer_entries.len() {
                assert(entries[k] == fewer_entries[k]);
                let at = choose|at: int|
                    {
                        &&& 0 <= at < files.drop_last().len()
                        &&& (#[trigger] files.drop_last()[at]).name == entries[k].path.name
                        &&& file_id(files.drop_last()[at].name@) == Some(entries[k].id@)
                        &&& files.drop_last()[at].disk is Some
                        &&& entries[k].disk.refresh_token@ == trimmed(
                            files.drop_last()[at].disk->0.refresh_token@,
                        )
                        &&& entries[k].disk.refresh_token@.len() > 0
                    };
                assert(files[at] == files.drop_last()[at]);
            } else {
                assert(files[files.len() - 1].name == entries[k].path.name);
            }
        }
    }
}

/// A look at the files adds no account by what it sweeps away, and changes none but by putting it out
/// of the pool.
pub proof fn sweeping_adds_nothing(
    plan: DiskSyncPlan,
    records: Map<Seq<char>, AccountRecord>,
    id: Seq<char>,
)
    ensures
        swept(plan, records).contains_key(id) ==> records.contains_key(id),
        swept(plan, records).contains_key(id) ==> swept(plan, records)[id].access_token
            == records[id].access_token && swept(plan, records)[id].blocked_until
            == records[id].blocked_until && swept(plan, records)[id].in_flight_requests
            == records[id].in_flight_requests,
        records.contains_key(id) && (records[id].in_flight_requests > 0
            || records[id].refresh_in_flight) ==> swept(plan, records).contains_key(id),
        records.contains_key(id) && listed(plan.seen_ids@, records[id].id@) ==> swept(
            plan,
            records,
        ).contains_key(id) && swept(plan, records)[id] == records[id],
{
}

proof fn lemma_outranking_goes_on(a: AccountRecord, b: AccountRecord, c: AccountRecord)
    requires
        !outranks(b, a),
        !outranks(c, b),
    ensures
        !outranks(c, a),
{
    crate::text::text_order_is_total(a.id@, b.id@);
    crate::text::text_order_is_total(b.id@, c.id@);
    crate::text::text_order_is_irreflexive(a.id@);
    if text_before(c.id@, a.id@) {
        if text_before(a.id@, b.id@) {
            crate::text::text_order_is_transitive(c.id@, a.id@, b.id@);
        }
    }
}

proof fn lemma_some_preferred(records: Seq<AccountRecord>, token: Seq<char>, n: int) -> (at: int)
    requires
        0 <= n <= records.len(),
        exists|i: int| 0 <= i < n && holds(#[trigger] records[i], token),
    ensures
        0 <= at < n,
        holds(records[at], token),
        forall|i: int|
            0 <= i < n && holds(#[trigger] records[i], token) ==> !outranks(records[i], records[at]),
    decreases n,
{
    let last = n - 1;
    crate::text::text_order_is_irreflexive(records[last].id@);
    if exists|i: int| 0 <= i < last && holds(#[trigger] records[i], token) {
        let at = lemma_some_preferred(records, token, last);
        if holds(records[last], token) && outranks(records[last], records[at]) {
            busier_accounts_are_kept(records[last], records[at]);
            assert forall|i: int| 0 <= i < n && holds(#[trigger] records[i], token) implies !outranks(
                records[i],
                records[last],
            ) by {
                if i < last {
                    lemma_outranking_goes_on(records[last], records[at], records[i]);
                }
            }
            last
        } else {
            at
        }
    } else {
        last
    }
}

/// Where accounts in the pool have a token, one of them is kept for it, and where none has, none is.
pub proof fn known_tokens_keep_an_account(records: Seq<AccountRecord>, token: Seq<char>)
    ensures
        preferred_record(records, token) is Some <==> exists|i: int|
            0 <= i < records.len() && !(#[trigger] records[i]).detached
                && records[i].refresh_token@ == token,
        preferred_record(records, token) matches Some(record) ==> !record.detached
            && record.refresh_token@ == token,
{
    if exists|i: int|
        0 <= i < records.len() && !(#[trigger] records[i]).detached && records[i].refresh_token@
            == token {
        let i = choose|i: int|
            0 <= i < records.len() && !(#[trigger] records[i]).detached && records[i].refresh_token@
                == token;
        assert(holds(records[i], token));
        let at = lemma_some_preferred(records, token, records.len() as int);
        assert(preferred(records, token, at));
    }
}

/// Files of one token are gathered in the account that is known for it. At the first look, or where
/// none is known, they are gathered in the first of them.
pub proof fn files_are_gathered_in_the_known_account(
    records: Seq<AccountRecord>,
    group: Seq<DiskAccountEntry>,
)
    requires
        group.len() > 0,
    ensures
        ({
            let first = canonical(records, group, SyncMode::Startup);
            &&& first.id == group[0].id && first.path == group[0].path && first.disk
                == group[0].disk
            &&& first.matched_group_path == Some(group[0].path)
        }),
        ({
            let known = preferred_record(records, group[0].disk.refresh_token@);
            let target = canonical(records, group, SyncMode::Rescan);
            &&& known is Some ==> target.id == known->0.id && target.path == known->0.file_path
            &&& known is None ==> target == canonical(records, group, SyncMode::Startup)
        }),
{
}

/// A file is written where what it is to hold differs from what it holds, or where it was not there.
pub proof fn changed_files_are_written(
    records: Seq<AccountRecord>,
    entries: Seq<DiskAccountEntry>,
    observed: Seq<AccountPath>,
    mode: SyncMode,
    tokens: Seq<Seq<char>>,
    i: int,
)
    requires
        0 <= i < tokens.len(),
    ensures
        ({
            let group = group_of(entries, tokens[i]);
            let target = canonical(records, group, mode);
            let file = merged(target.disk, group);
            let writes = plan_writes(records, entries, observed, mode, tokens);
            file != target.disk || !observes(observed, target.path) ==> exists|k: int|
                0 <= k < writes.len() && #[trigger] writes[k] == (target.path, file)
        }),
    decreases tokens.len(),
{
    let group = group_of(entries, tokens[i]);
    let target = canonical(records, group, mode);
    let file = merged(target.disk, group);
    let writes = plan_writes(records, entries, observed, mode, tokens);
    let earlier = plan_writes(records, entries, observed, mode, tokens.drop_last());
    if file != target.disk || !observes(observed, target.path) {
        if i < tokens.len() - 1 {
            assert(tokens.drop_last()[i] == tokens[i]);
            changed_files_are_written(records, entries, observed, mode, tokens.drop_last(), i);
            let k = choose|k: int|
                0 <= k < earlier.len() && #[trigger] earlier[k] == (target.path, file);
            assert(writes[k] == earlier[k]);
        } else {
            assert(writes[writes.len() - 1] == (target.path, file));
        }
    }
}

/// The stem of a name in the trash is all of the name before its last dot.
pub proof fn trash_names_keep_the_stem(
    stem: Seq<char>,
    extension: Seq<char>,
    attempt: u64,
    stamp: u128,
)
    requires
        stem.len() > 0,
        attempt > 0,
        forall|i: int| 0 <= i < extension.len() ==> #[trigger] extension[i] != '.',
    ensures
        trash_name(stem + "."@ + extension, attempt, stamp) == stem + "-"@ + decimal(stamp as nat)
            + "-"@ + decimal(attempt as nat) + ".json"@,
{
    reveal_strlit(".json");
    reveal_strlit("json");
    reveal_strlit(".");
    let whole = stem + "."@ + extension;
    assert(whole[stem.len() as int] == '.');
    assert forall|i: int| stem.len() < i <= whole.len() - 1 implies #[trigger] whole[i] != '.' by {
        assert(whole[i] == extension[i - stem.len() - 1]);
    }
    lemma_split_at(whole, stem.len() as int, whole.len() - 1);
    assert(whole.take(stem.len() as int) =~= stem);
    let long = stem + "-"@ + decimal(stamp as nat) + "-"@ + decimal(attempt as nat);
    assert(long + "."@ + "json"@ =~= long + ".json"@);
}

/// An import needs a token that is more than spaces, and nothing else. It is the import of the token
/// without the spaces around it: into the account that has it, else into a new one under its id.
pub proof fn imports_need_a_token(
    records: Map<Seq<char>, AccountRecord>,
    accounts_dir: String,
    refresh_token: Seq<char>,
    label: Option<Seq<char>>,
    email: Option<Seq<char>>,
    result: Result<ImportAccountPlan, EmptyRefreshToken>,
    id: Seq<char>,
)
    requires
        plans_import(records, accounts_dir, refresh_token, label, email, result),
        forall|key: Seq<char>| #[trigger]
            records.contains_key(key) ==> records[key].id@ == key,
    ensures
        result is Err <==> trimmed(refresh_token).len() == 0,
        result matches Ok(plan) ==> {
            let token = trimmed(refresh_token);
            let holder = plan.account_id@;
            &&& plan.already_exists ==> records.contains_key(holder) && !records[holder].detached
                && records[holder].refresh_token@ == token
            &&& !plan.already_exists ==> holder == account_id_of(token)
            &&& records.contains_key(id) && !records[id].detached && records[id].refresh_token@
                == token ==> plan.already_exists
        },
{
    if let Ok(plan) = result {
        let token = trimmed(refresh_token);
        if records.contains_key(id) && !records[id].detached && records[id].refresh_token@ == token {
            assert(holds_token(records, token, id));
        }
        if exists|key: Seq<char>| holds_token(records, token, key) {
            let key = choose|key: Seq<char>| #[trigger]
                holds_token(records, token, key) && plans_update(
                    plan,
                    records[key],
                    metadata(label),
                    metadata(email),
                );
            assert(records.contains_key(key));
        }
    }
}

/// An account that is removed is gone at once where nothing is under way on it. Else it takes no more
/// requests, and those under way go on. No other account changes.
pub proof fn removed_accounts_leave(
    records: Map<Seq<char>, AccountRecord>,
    id: Seq<char>,
    other: Seq<char>,
    now: Timestamp,
)
    ensures
        ({
            let after = removed(records, id);
            let record = records[id];
            &&& records.contains_key(id) && record.in_flight_requests == 0
                && !record.refresh_in_flight ==> !after.contains_key(id)
            &&& records.contains_key(id) && record.in_flight_requests > 0 ==> after.contains_key(id)
                && !eligible(after[id], now) && after[id].in_flight_requests
                == record.in_flight_requests && after[id].access_token == record.access_token
            &&& !records.contains_key(id) ==> after == records
            &&& other != id ==> (after.contains_key(other) <==> records.contains_key(other))
            &&& other != id && records.contains_key(other) ==> after[other] == records[other]
        }),
{
}

}
