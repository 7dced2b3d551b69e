//! The records of the pool as a map from ids.
use super::{AccountRecord, AccountStore};
use crate::text::{
    comes_before, same_text, text_before, text_order_is_irreflexive, text_order_is_total,
    text_order_is_transitive,
};
use vstd::prelude::*;

verus! {

/// Does the record at `at` have this id?
pub open spec fn has_id(records: Seq<AccountRecord>, id: Seq<char>, at: int) -> bool {
    0 <= at < records.len() && records[at].id@ == id
}

/// The records by their ids.
pub open spec fn records_map(records: Seq<AccountRecord>) -> Map<Seq<char>, AccountRecord> {
    Map::new(
        |id: Seq<char>| exists|at: int| has_id(records, id, at),
        |id: Seq<char>| records[choose|at: int| has_id(records, id, at)],
    )
}

/// No two records have one id.
pub open spec fn unique_ids(records: Seq<AccountRecord>) -> bool {
    forall|i: int, j: int|
        0 <= i < records.len() && 0 <= j < records.len() && #[trigger] records[i].id@
            == #[trigger] records[j].id@ ==> i == j
}

/// The records stand in the order of their ids.
pub open spec fn sorted_ids(records: Seq<AccountRecord>) -> bool {
    forall|i: int, j: int|
        0 <= i < j < records.len() ==> text_before(#[trigger] records[i].id@, #[trigger] records[j].id@)
}

/// In the order of ids no two records have one id.
pub proof fn lemma_sorted_is_unique(records: Seq<AccountRecord>)
    requires
        sorted_ids(records),
    ensures
        unique_ids(records),
{
    assert forall|i: int, j: int|
        0 <= i < records.len() && 0 <= j < records.len() && #[trigger] records[i].id@
            == #[trigger] records[j].id@ implies i == j by {
        text_order_is_irreflexive(records[i].id@);
        if i < j {
            assert(text_before(records[i].id@, records[j].id@));
        } else if j < i {
            assert(text_before(records[j].id@, records[i].id@));
        }
    }
}

/// Is the record of use no longer, with nothing under way on it?
pub open spec fn idle_detached(record: AccountRecord) -> bool {
    record.detached && record.in_flight_requests == 0 && !record.refresh_in_flight
}

/// The map with this record under the id; without it where it is of use no longer.
pub open spec fn put(
    records: Map<Seq<char>, AccountRecord>,
    id: Seq<char>,
    record: AccountRecord,
) -> Map<Seq<char>, AccountRecord> {
    if idle_detached(record) {
        records.remove(id)
    } else {
        records.insert(id, record)
    }
}

/// A record is found under its id.
pub proof fn lemma_found(records: Seq<AccountRecord>, at: int)
    requires
        unique_ids(records),
        0 <= at < records.len(),
    ensures
        records_map(records).contains_key(records[at].id@),
        records_map(records)[records[at].id@] == records[at],
{
    assert(has_id(records, records[at].id@, at));
}

/// A record in place of one with its id.
pub proof fn lemma_replaced(records: Seq<AccountRecord>, at: int, record: AccountRecord)
    requires
        unique_ids(records),
        0 <= at < records.len(),
        record.id@ == records[at].id@,
    ensures
        unique_ids(records.update(at, record)),
        records_map(records.update(at, record)) == records_map(records).insert(record.id@, record),
{
    let changed = records.update(at, record);
    assert forall|i: int, j: int|
        0 <= i < changed.len() && 0 <= j < changed.len() && #[trigger] changed[i].id@
            == #[trigger] changed[j].id@ implies i == j by {
        assert(records[i].id@ == records[j].id@);
    }
    assert forall|id: Seq<char>| #[trigger]
        records_map(changed).contains_key(id) == records_map(records).insert(
            record.id@,
            record,
        ).contains_key(id) by {
        if records_map(changed).contains_key(id) {
            let i = choose|i: int| has_id(changed, id, i);
            assert(has_id(records, id, i));
        }
        if records_map(records).contains_key(id) {
            let i = choose|i: int| has_id(records, id, i);
            assert(has_id(changed, id, i));
        }
        if id == record.id@ {
            assert(has_id(changed, id, at));
        }
    }
    assert forall|id: Seq<char>| records_map(changed).contains_key(id) implies #[trigger]
        records_map(changed)[id] == records_map(records).insert(record.id@, record)[id] by {
        let i = choose|i: int| has_id(changed, id, i);
        lemma_found(changed, i);
        if i != at {
            assert(has_id(records, id, i));
            lemma_found(records, i);
            assert(id != record.id@);
        }
    }
    assert(records_map(changed) =~= records_map(records).insert(record.id@, record));
}

/// A record taken out.
pub proof fn lemma_removed(records: Seq<AccountRecord>, at: int)
    requires
        unique_ids(records),
        0 <= at < records.len(),
    ensures
        unique_ids(records.remove(at)),
        records_map(records.remove(at)) == records_map(records).remove(records[at].id@),
{
    let changed = records.remove(at);
    assert forall|i: int| 0 <= i < changed.len() implies #[trigger] changed[i] == records[if i < at {
        i
    } else {
        i + 1
    }] by {}
    assert forall|i: int, j: int|
        0 <= i < changed.len() && 0 <= j < changed.len() && #[trigger] changed[i].id@
            == #[trigger] changed[j].id@ implies i == j by {
        let k = if i < at {
            i
        } else {
            i + 1
        };
        let l = if j < at {
            j
        } else {
            j + 1
        };
        assert(records[k].id@ == records[l].id@);
    }
    assert forall|id: Seq<char>| #[trigger]
        records_map(changed).contains_key(id) == records_map(records).remove(
            records[at].id@,
        ).contains_key(id) by {
        if records_map(changed).contains_key(id) {
            let i = choose|i: int| has_id(changed, id, i);
            let k = if i < at {
                i
            } else {
                i + 1
            };
            assert(has_id(records, id, k));
            if id == records[at].id@ {
                assert(records[k].id@ == records[at].id@);
            }
        }
        if records_map(records).contains_key(id) && id != records[at].id@ {
            let i = choose|i: int| has_id(records, id, i);
            let k = if i < at {
                i
            } else {
                i - 1
            };
            assert(has_id(changed, id, k));
        }
    }
    assert forall|id: Seq<char>| records_map(changed).contains_key(id) implies #[trigger]
        records_map(changed)[id] == records_map(records).remove(records[at].id@)[id] by {
        let i = choose|i: int| has_id(changed, id, i);
        let k = if i < at {
            i
        } else {
            i + 1
        };
        lemma_found(changed, i);
        lemma_found(records, k);
    }
    assert(records_map(changed) =~= records_map(records).remove(records[at].id@));
}

/// A record put in between.
pub proof fn lemma_added(records: Seq<AccountRecord>, at: int, record: AccountRecord)
    requires
        sorted_ids(records),
        0 <= at <= records.len(),
        forall|i: int| 0 <= i < at ==> text_before(#[trigger] records[i].id@, record.id@),
        forall|i: int| at <= i < records.len() ==> text_before(record.id@, #[trigger] records[i].id@),
    ensures
        sorted_ids(records.insert(at, record)),
        !records_map(records).contains_key(record.id@),
        records_map(records.insert(at, record)) == records_map(records).insert(record.id@, record),
{
    let changed = records.insert(at, record);
    lemma_sorted_is_unique(records);
    assert forall|i: int, j: int| 0 <= i < j < changed.len() implies text_before(
        #[trigger] changed[i].id@,
        #[trigger] changed[j].id@,
    ) by {
        let k = if i < at {
            i
        } else {
            i - 1
        };
        let l = if j < at {
            j
        } else {
            j - 1
        };
        if i != at && j != at {
            assert(text_before(records[k].id@, records[l].id@));
        } else if i == at {
            assert(text_before(record.id@, records[l].id@));
        } else {
            assert(text_before(records[k].id@, record.id@));
        }
    }
    lemma_sorted_is_unique(changed);
    assert(changed.remove(at) =~= records);
    lemma_removed(changed, at);
    lemma_found(changed, at);
    assert(records_map(changed) =~= records_map(records).insert(record.id@, record));
}

/// The records after a change that leaves the ids alone.
pub proof fn lemma_all_changed(
    records: Seq<AccountRecord>,
    changed: Seq<AccountRecord>,
    change: spec_fn(AccountRecord) -> AccountRecord,
)
    requires
        sorted_ids(records),
        records.len() == changed.len(),
        forall|i: int| 0 <= i < records.len() ==> #[trigger] changed[i] == change(records[i]),
        forall|record: AccountRecord| #[trigger] change(record).id == record.id,
    ensures
        sorted_ids(changed),
        records_map(changed) == records_map(records).map_values(change),
{
    assert forall|i: int, j: int| 0 <= i < j < changed.len() implies text_before(
        #[trigger] changed[i].id@,
        #[trigger] changed[j].id@,
    ) by {
        assert(text_before(records[i].id@, records[j].id@));
    }
    lemma_sorted_is_unique(records);
    lemma_sorted_is_unique(changed);
    assert forall|id: Seq<char>| #[trigger]
        records_map(changed).contains_key(id) == records_map(records).contains_key(id) by {
        if records_map(changed).contains_key(id) {
            let i = choose|i: int| has_id(changed, id, i);
            assert(has_id(records, id, i));
        }
        if records_map(records).contains_key(id) {
            let i = choose|i: int| has_id(records, id, i);
            assert(has_id(changed, id, i));
        }
    }
    assert forall|id: Seq<char>| records_map(changed).contains_key(id) implies #[trigger]
        records_map(changed)[id] == change(records_map(records)[id]) by {
        let i = choose|i: int| has_id(changed, id, i);
        lemma_found(changed, i);
        lemma_found(records, i);
    }
    assert(records_map(changed) =~= records_map(records).map_values(change));
}

/// A record in place of one with its id keeps the order.
pub proof fn lemma_replaced_sorted(records: Seq<AccountRecord>, at: int, record: AccountRecord)
    requires
        sorted_ids(records),
        0 <= at < records.len(),
        record.id@ == records[at].id@,
    ensures
        sorted_ids(records.update(at, record)),
        records_map(records.update(at, record)) == records_map(records).insert(record.id@, record),
        records_map(records).contains_key(record.id@),
        records_map(records)[record.id@] == records[at],
{
    let changed = records.update(at, record);
    assert forall|i: int, j: int| 0 <= i < j < changed.len() implies text_before(
        #[trigger] changed[i].id@,
        #[trigger] changed[j].id@,
    ) by {
        assert(text_before(records[i].id@, records[j].id@));
    }
    lemma_sorted_is_unique(records);
    lemma_replaced(records, at, record);
    lemma_found(records, at);
}

/// A record taken out keeps the order.
pub proof fn lemma_removed_sorted(records: Seq<AccountRecord>, at: int)
    requires
        sorted_ids(records),
        0 <= at < records.len(),
    ensures
        sorted_ids(records.remove(at)),
        records_map(records.remove(at)) == records_map(records).remove(records[at].id@),
{
    let changed = records.remove(at);
    assert forall|i: int, j: int| 0 <= i < j < changed.len() implies text_before(
        #[trigger] changed[i].id@,
        #[trigger] changed[j].id@,
    ) by {
        let k = if i < at {
            i
        } else {
            i + 1
        };
        let l = if j < at {
            j
        } else {
            j + 1
        };
        assert(text_before(records[k].id@, records[l].id@));
    }
    lemma_sorted_is_unique(records);
    lemma_removed(records, at);
}

impl AccountStore {
    /// The records by their ids.
    pub open spec fn map(&self) -> Map<Seq<char>, AccountRecord> {
        records_map(self.records@)
    }

    /// The records stand in the order of their ids, so no two have one id.
    pub open spec fn wf(&self) -> bool {
        sorted_ids(self.records@)
    }

    /// Do two stores have one directory and one place in the rotation?
    pub open spec fn same_frame(&self, other: &AccountStore) -> bool {
        self.accounts_dir == other.accounts_dir && self.round_robin_cursor
            == other.round_robin_cursor
    }

    /// An empty pool.
    pub fn new(accounts_dir: String) -> (store: AccountStore)
        ensures
            store.wf(),
            store.accounts_dir == accounts_dir,
            store.records@.len() == 0,
            store.map() == Map::<Seq<char>, AccountRecord>::empty(),
            store.round_robin_cursor == 0,
    {
        let store = AccountStore { accounts_dir, records: Vec::new(), round_robin_cursor: 0 };
        assert(store.map() =~= Map::<Seq<char>, AccountRecord>::empty());
        store
    }

    /// Where the record with this id stands.
    pub fn position(&self, id: &str) -> (found: Option<usize>)
        requires
            self.wf(),
        ensures
            match found {
                Some(at) => at < self.records.len() && self.records@[at as int].id@ == id@
                    && self.map().contains_key(id@) && self.map()[id@] == self.records@[at as int],
                None => !self.map().contains_key(id@),
            },
    {
        let mut at: usize = 0;
        while at < self.records.len()
            invariant
                self.wf(),
                at <= self.records.len(),
                forall|i: int| 0 <= i < at ==> #[trigger] self.records@[i].id@ != id@,
            decreases self.records.len() - at,
        {
            if same_text(self.records[at].id.as_str(), id) {
                proof {
                    lemma_sorted_is_unique(self.records@);
                    lemma_found(self.records@, at as int);
                }
                return Some(at);
            }
            at = at + 1;
        }
        None
    }

    /// Takes the record at `at` out where it is of use no longer.
    pub fn remove_if_idle(&mut self, at: usize)
        requires
            old(self).wf(),
            at < old(self).records.len(),
        ensures
            final(self).wf(),
            final(self).same_frame(old(self)),
            final(self).map() == put(
                old(self).map(),
                old(self).records@[at as int].id@,
                old(self).records@[at as int],
            ),
    {
        let remove: bool = self.records[at].detached && self.records[at].in_flight_requests == 0
            && !self.records[at].refresh_in_flight;
        proof {
            lemma_sorted_is_unique(self.records@);
            lemma_found(self.records@, at as int);
            lemma_removed_sorted(self.records@, at as int);
            assert(self.map().insert(self.records@[at as int].id@, self.records@[at as int])
                =~= self.map());
        }
        if remove {
            self.records.remove(at);
        }
    }

    /// Takes a record out where it is of use no longer.
    pub fn maybe_remove_detached(&mut self, account_id: &str)
        requires
            old(self).wf(),
        ensures
            final(self).wf(),
            final(self).same_frame(old(self)),
            final(self).map() == if old(self).map().contains_key(account_id@) {
                put(old(self).map(), account_id@, old(self).map()[account_id@])
            } else {
                old(self).map()
            },
    {
        match self.position(account_id) {
            Some(at) => self.remove_if_idle(at),
            None => {},
        }
    }

    /// Puts a record with a new id in its place.
    pub fn add(&mut self, record: AccountRecord)
        requires
            old(self).wf(),
            !old(self).map().contains_key(record.id@),
        ensures
            final(self).wf(),
            final(self).same_frame(old(self)),
            final(self).map() == old(self).map().insert(record.id@, record),
    {
        let mut at: usize = 0;
        while at < self.records.len() && comes_before(
            self.records[at].id.as_str(),
            record.id.as_str(),
        )
            invariant
                at <= self.records.len(),
                forall|i: int| 0 <= i < at ==> text_before(#[trigger] self.records@[i].id@, record.id@),
            decreases self.records.len() - at,
        {
            at = at + 1;
        }
        proof {
            let records = self.records@;
            assert forall|i: int| at <= i < records.len() implies text_before(
                record.id@,
                #[trigger] records[i].id@,
            ) by {
                text_order_is_total(record.id@, records[at as int].id@);
                assert(has_id(records, records[at as int].id@, at as int));
                if i > at {
                    assert(text_before(records[at as int].id@, records[i].id@));
                    text_order_is_transitive(record.id@, records[at as int].id@, records[i].id@);
                }
            }
            lemma_added(records, at as int, record);
        }
        self.records.insert(at, record);
    }
}

}
