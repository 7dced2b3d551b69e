//! Which accounts can take a request, and why none can.
use super::lifecycle::after_expiry;
use super::store::{
    has_id, lemma_found, lemma_replaced_sorted, lemma_sorted_is_unique, records_map, sorted_ids,
};
use super::{
    block_active, block_before, compare_block_priority, has_active_block_at, needs_refresh, shown,
    skew_fits, token_needs_refresh, AccountRecord, AccountSelection, AccountStore, AccountView,
    BlockedReason, PoolBlockSummary, RoutingState, SelectionFailure,
};
use crate::config::RoutingPolicy;
use crate::router::{next_cursor, picked, select_candidate, RouteCandidate};
use crate::text::{same_text, text_before};
use crate::time::{in_calendar, utc_now, Delay, Timestamp};
use vstd::prelude::*;

verus! {

/// Is this id among the excluded?
pub open spec fn listed(ids: Seq<String>, id: Seq<char>) -> bool {
    exists|i: int| 0 <= i < ids.len() && #[trigger] ids[i]@ == id
}

/// Can the record take a request at `now`?
pub open spec fn eligible(record: AccountRecord, now: Timestamp) -> bool {
    &&& !record.detached
    &&& !record.refresh_in_flight
    &&& record.routing_state != RoutingState::AuthInvalid
    &&& match record.blocked_until {
        Some(until) => until.nanos <= now.nanos,
        None => true,
    }
}

/// What routing knows of a record.
pub open spec fn candidate_of(record: AccountRecord) -> RouteCandidate {
    RouteCandidate {
        account_id: record.id,
        in_flight_requests: record.in_flight_requests,
        last_selected_at: record.last_selected_at,
    }
}

/// Are these the records that can take a request, in the order of their ids?
pub open spec fn are_candidates(
    records: Map<Seq<char>, AccountRecord>,
    excluded: Seq<String>,
    now: Timestamp,
    candidates: Seq<RouteCandidate>,
) -> bool {
    &&& forall|i: int|
        0 <= i < candidates.len() ==> {
            let id = (#[trigger] candidates[i]).account_id@;
            &&& records.contains_key(id)
            &&& eligible(records[id], now)
            &&& !listed(excluded, id)
            &&& candidates[i] == candidate_of(records[id])
        }
    &&& forall|id: Seq<char>| #[trigger]
        records.contains_key(id) && eligible(records[id], now) && !listed(excluded, id)
            ==> exists|i: int|
            0 <= i < candidates.len() && #[trigger] candidates[i].account_id@ == id
    &&& forall|i: int, j: int|
        0 <= i < j < candidates.len() ==> text_before(
            #[trigger] candidates[i].account_id@,
            #[trigger] candidates[j].account_id@,
        )
}

/// The record after it was picked.
pub open spec fn after_selection(
    record: AccountRecord,
    now: Timestamp,
    skew_seconds: i64,
) -> AccountRecord {
    let taken = AccountRecord {
        in_flight_requests: if record.in_flight_requests == u32::MAX {
            u32::MAX
        } else {
            (record.in_flight_requests + 1) as u32
        },
        last_selected_at: Some(now),
        ..record
    };
    if needs_refresh(record, now, skew_seconds) {
        AccountRecord {
            routing_state: RoutingState::Warming,
            refresh_in_flight: true,
            ..taken
        }
    } else {
        taken
    }
}

/// The records once the blocks that are over at `now` have been lifted.
pub open spec fn unexpired(
    records: Map<Seq<char>, AccountRecord>,
    now: Timestamp,
) -> Map<Seq<char>, AccountRecord> {
    records.map_values(|record: AccountRecord| after_expiry(record, now))
}

/// Does this pick follow from the pool before it?
pub open spec fn selects(
    before: AccountStore,
    after: AccountStore,
    policy: RoutingPolicy,
    skew_seconds: i64,
    excluded: Seq<String>,
    now: Timestamp,
    candidates: Seq<RouteCandidate>,
    result: Result<AccountSelection, SelectionFailure>,
) -> bool {
    let records = unexpired(before.map(), now);
    &&& are_candidates(records, excluded, now, candidates)
    &&& after.accounts_dir == before.accounts_dir
    &&& match result {
        Ok(selection) => {
            let id = selection.account_id@;
            &&& candidates.len() > 0
            &&& picked(policy, candidates, before.round_robin_cursor, id)
            &&& selection.refresh_token == records[id].refresh_token
            &&& selection.needs_refresh == needs_refresh(records[id], now, skew_seconds)
            &&& after.map() == records.insert(id, after_selection(records[id], now, skew_seconds))
            &&& after.round_robin_cursor == next_cursor(policy, before.round_robin_cursor)
        },
        Err(SelectionFailure::NoEligibleAccount) => {
            &&& candidates.len() == 0
            &&& after.map() == records
            &&& after.round_robin_cursor == before.round_robin_cursor
        },
    }
}

/// Could the account take requests if nothing kept it from them for a while?
pub open spec fn routeable(
    records: Map<Seq<char>, AccountRecord>,
    excluded: Seq<String>,
    id: Seq<char>,
) -> bool {
    records.contains_key(id) && !records[id].detached && records[id].routing_state
        != RoutingState::AuthInvalid && !listed(excluded, id)
}

/// Is the account free at `now`?
pub open spec fn free(record: AccountRecord, now: Timestamp) -> bool {
    !record.refresh_in_flight && !block_active(record, now)
}

/// What blocks a record, and how long.
pub open spec fn block_of(record: AccountRecord) -> (BlockedReason, Option<Timestamp>) {
    (record.blocked_reason->0, record.blocked_until)
}

/// The time left until a block ends.
pub open spec fn time_left(until: Option<Timestamp>, now: Timestamp) -> Option<Delay> {
    match until {
        Some(until) => if until.nanos >= now.nanos {
            Some(Delay { nanos: (until.nanos - now.nanos) as u128 })
        } else {
            None
        },
        None => None,
    }
}

/// Does this summary say why no account can take a request? There is none where an account could,
/// where none ever could, and where no block is known. A refresh under way is waited for; else the
/// block that goes before all others is named.
pub open spec fn summarizes(
    records: Map<Seq<char>, AccountRecord>,
    excluded: Seq<String>,
    now: Timestamp,
    summary: Option<PoolBlockSummary>,
) -> bool {
    let some_free = exists|id: Seq<char>| #[trigger]
        routeable(records, excluded, id) && free(records[id], now);
    let some_refreshing = exists|id: Seq<char>| #[trigger]
        routeable(records, excluded, id) && records[id].refresh_in_flight;
    let some_blocked = exists|id: Seq<char>| #[trigger]
        routeable(records, excluded, id) && records[id].blocked_reason is Some;
    if some_free {
        summary is None
    } else if some_refreshing {
        summary == Some(
            PoolBlockSummary {
                blocked_reason: BlockedReason::TemporarilyUnavailable,
                blocked_until: Some(Timestamp { nanos: (now.nanos + 1_000_000_000) as i128 }),
                retry_after: Some(Delay { nanos: 1_000_000_000 }),
            },
        )
    } else if some_blocked {
        exists|id: Seq<char>|
            {
                &&& #[trigger] routeable(records, excluded, id)
                &&& records[id].blocked_reason is Some
                &&& forall|other: Seq<char>| #[trigger]
                    routeable(records, excluded, other) && records[other].blocked_reason is Some
                        ==> !block_before(block_of(records[other]), block_of(records[id]))
                &&& summary == Some(
                    PoolBlockSummary {
                        blocked_reason: block_of(records[id]).0,
                        blocked_until: block_of(records[id]).1,
                        retry_after: time_left(block_of(records[id]).1, now),
                    },
                )
            }
    } else {
        summary is None
    }
}

/// Is this a list of all records, in the order of their ids?
pub open spec fn lists(records: Map<Seq<char>, AccountRecord>, views: Seq<AccountView>) -> bool {
    &&& forall|i: int|
        0 <= i < views.len() ==> records.contains_key((#[trigger] views[i]).id@) && views[i]
            == shown(records[views[i].id@])
    &&& forall|id: Seq<char>| #[trigger]
        records.contains_key(id) ==> exists|i: int|
            0 <= i < views.len() && #[trigger] views[i].id@ == id
    &&& forall|i: int, j: int|
        0 <= i < j < views.len() ==> text_before(#[trigger] views[i].id@, #[trigger] views[j].id@)
}

/// Is this id among the excluded?
pub fn is_listed(ids: &Vec<String>, id: &str) -> (found: bool)
    ensures
        found == listed(ids@, id@),
{
    let mut i: usize = 0;
    while i < ids.len()
        invariant
            i <= ids.len(),
            forall|j: int| 0 <= j < i ==> #[trigger] ids@[j]@ != id@,
        decreases ids.len() - i,
    {
        if same_text(ids[i].as_str(), id) {
            return true;
        }
        i = i + 1;
    }
    false
}

/// Can the record take a request at `now`?
pub fn is_eligible_at(record: &AccountRecord, now: Timestamp) -> (can: bool)
    ensures
        can == eligible(*record, now),
{
    let over: bool = match record.blocked_until {
        Some(until) => until.nanos <= now.nanos,
        None => true,
    };
    !record.detached && !record.refresh_in_flight && record.routing_state
        != RoutingState::AuthInvalid && over
}

impl AccountStore {
    /// All accounts in the order of their ids, with the blocks that are over at `now` lifted.
    pub fn list_at(&mut self, now: Timestamp) -> (views: Vec<AccountView>)
        requires
            old(self).wf(),
        ensures
            final(self).wf(),
            final(self).same_frame(old(self)),
            final(self).map() == unexpired(old(self).map(), now),
            lists(unexpired(old(self).map(), now), views@),
    {
        self.refresh_expired_blocks_at(now);
        let mut views: Vec<AccountView> = Vec::new();
        let mut i: usize = 0;
        while i < self.records.len()
            invariant
                i <= self.records.len(),
                views.len() == i,
                forall|j: int| 0 <= j < i ==> #[trigger] views@[j] == shown(self.records@[j]),
            decreases self.records.len() - i,
        {
            views.push(AccountView::from(&self.records[i]));
            i = i + 1;
        }
        proof {
            let records = self.records@;
            lemma_sorted_is_unique(records);
            assert forall|j: int| 0 <= j < views.len() implies self.map().contains_key(
                (#[trigger] views@[j]).id@,
            ) && views@[j] == shown(self.map()[views@[j].id@]) by {
                lemma_found(records, j);
            }
            assert forall|id: Seq<char>| #[trigger] self.map().contains_key(id) implies exists|j: int|
                0 <= j < views.len() && #[trigger] views@[j].id@ == id by {
                let j = choose|j: int| has_id(records, id, j);
                assert(views@[j].id@ == id);
            }
            assert forall|j: int, k: int| 0 <= j < k < views.len() implies text_before(
                #[trigger] views@[j].id@,
                #[trigger] views@[k].id@,
            ) by {
                assert(text_before(records[j].id@, records[k].id@));
            }
        }
        views
    }

    /// All accounts in the order of their ids.
    pub fn list(&mut self) -> (views: Vec<AccountView>)
        requires
            old(self).wf(),
        ensures
            final(self).wf(),
            final(self).same_frame(old(self)),
            exists|now: Timestamp| #[trigger]
                in_calendar(now) && final(self).map() == unexpired(old(self).map(), now),
            lists(final(self).map(), views@),
    {
        let now: Timestamp = utc_now();
        self.list_at(now)
    }

    /// The accounts that can take a request at `now`, in the order of their ids.
    pub fn build_route_candidates_at(
        &self,
        excluded_accounts: &Vec<String>,
        now: Timestamp,
    ) -> (candidates: Vec<RouteCandidate>)
        requires
            self.wf(),
        ensures
            are_candidates(self.map(), excluded_accounts@, now, candidates@),
    {
        let mut candidates: Vec<RouteCandidate> = Vec::new();
        let ghost mut places: Seq<int> = Seq::empty();
        let mut i: usize = 0;
        while i < self.records.len()
            invariant
                i <= self.records.len(),
                places.len() == candidates.len(),
                forall|j: int|
                    0 <= j < places.len() ==> 0 <= #[trigger] places[j] < i && candidates@[j]
                        == candidate_of(self.records@[places[j]]) && eligible(
                        self.records@[places[j]],
                        now,
                    ) && !listed(excluded_accounts@, self.records@[places[j]].id@),
                forall|j: int, k: int|
                    0 <= j < k < places.len() ==> #[trigger] places[j] < #[trigger] places[k],
                forall|p: int|
                    0 <= p < i && eligible(#[trigger] self.records@[p], now) && !listed(
                        excluded_accounts@,
                        self.records@[p].id@,
                    ) ==> exists|j: int| 0 <= j < places.len() && #[trigger] places[j] == p,
            decreases self.records.len() - i,
        {
            let record: &AccountRecord = &self.records[i];
            if is_eligible_at(record, now) && !is_listed(excluded_accounts, record.id.as_str()) {
                candidates.push(
                    RouteCandidate {
                        account_id: record.id.clone(),
                        in_flight_requests: record.in_flight_requests,
                        last_selected_at: record.last_selected_at,
                    },
                );
                let ghost earlier = places;
                proof {
                    places = places.push(i as int);
                    assert(places[places.len() - 1] == i);
                    assert forall|p: int|
                        0 <= p < i + 1 && eligible(#[trigger] self.records@[p], now) && !listed(
                            excluded_accounts@,
                            self.records@[p].id@,
                        ) implies exists|j: int| 0 <= j < places.len() && #[trigger] places[j] == p by {
                        if p < i {
                            let j = choose|j: int| 0 <= j < earlier.len() && #[trigger] earlier[j] == p;
                            assert(places[j] == p);
                        }
                    }
                }
            }
            i = i + 1;
        }
        proof {
            let records = self.records@;
            lemma_sorted_is_unique(records);
            assert forall|j: int| 0 <= j < candidates.len() implies {
                let id = (#[trigger] candidates@[j]).account_id@;
                &&& self.map().contains_key(id)
                &&& eligible(self.map()[id], now)
                &&& !listed(excluded_accounts@, id)
                &&& candidates@[j] == candidate_of(self.map()[id])
            } by {
                lemma_found(records, places[j]);
            }
            assert forall|id: Seq<char>| #[trigger]
                self.map().contains_key(id) && eligible(self.map()[id], now) && !listed(
                    excluded_accounts@,
                    id,
                ) implies exists|j: int|
                0 <= j < candidates.len() && #[trigger] candidates@[j].account_id@ == id by {
                let p = choose|p: int| has_id(records, id, p);
                lemma_found(records, p);
                let j = choose|j: int| 0 <= j < places.len() && #[trigger] places[j] == p;
                assert(candidates@[j].account_id@ == id);
            }
            assert forall|j: int, k: int| 0 <= j < k < candidates.len() implies text_before(
                #[trigger] candidates@[j].account_id@,
                #[trigger] candidates@[k].account_id@,
            ) by {
                assert(places[j] < places[k]);
                assert(text_before(records[places[j]].id@, records[places[k]].id@));
            }
        }
        candidates
    }

    /// Picks an account for a request at `now`.
    pub fn select_account_at(
        &mut self,
        policy: RoutingPolicy,
        refresh_skew_seconds: i64,
        excluded_accounts: &Vec<String>,
        now: Timestamp,
    ) -> (result: Result<AccountSelection, SelectionFailure>)
        requires
            old(self).wf(),
            in_calendar(now),
            skew_fits(refresh_skew_seconds),
        ensures
            final(self).wf(),
            exists|candidates: Seq<RouteCandidate>| #[trigger]
                selects(
                    *old(self),
                    *final(self),
                    policy,
                    refresh_skew_seconds,
                    excluded_accounts@,
                    now,
                    candidates,
                    result,
                ),
    {
        self.refresh_expired_blocks_at(now);
        let candidates: Vec<RouteCandidate> = self.build_route_candidates_at(
            excluded_accounts,
            now,
        );
        let ghost records = self.map();
        let ghost before = self.records@;
        let mut cursor: usize = self.round_robin_cursor;
        let selected: Option<String> = select_candidate(policy, &candidates, &mut cursor);
        match selected {
            Some(account_id) => {
                proof {
                    if policy == RoutingPolicy::RoundRobin {
                        let i = old(self).round_robin_cursor as int % candidates@.len() as int;
                        assert(candidates@[i].account_id@ == account_id@);
                    }
                    assert(records.contains_key(account_id@));
                }
                self.round_robin_cursor = cursor;
                match self.position(account_id.as_str()) {
                    Some(at) => {
                        let ghost next = after_selection(
                            before[at as int],
                            now,
                            refresh_skew_seconds,
                        );
                        let record: &mut AccountRecord = &mut self.records[at];
                        record.in_flight_requests = record.in_flight_requests.saturating_add(1);
                        record.last_selected_at = Some(now);
                        let needs: bool = token_needs_refresh(record, now, refresh_skew_seconds);
                        if needs {
                            record.routing_state = RoutingState::Warming;
                            record.refresh_in_flight = true;
                        }
                        let refresh_token: String = record.refresh_token.clone();
                        let result: Result<AccountSelection, SelectionFailure> = Ok(
                            AccountSelection { account_id, refresh_token, needs_refresh: needs },
                        );
                        proof {
                            lemma_replaced_sorted(before, at as int, next);
                            assert(self.records@ =~= before.update(at as int, next));
                            assert(selects(
                                *old(self),
                                *self,
                                policy,
                                refresh_skew_seconds,
                                excluded_accounts@,
                                now,
                                candidates@,
                                result,
                            ));
                        }
                        result
                    },
                    None => {
                        assert(false);
                        Err(SelectionFailure::NoEligibleAccount)
                    },
                }
            },
            None => {
                let result: Result<AccountSelection, SelectionFailure> = Err(
                    SelectionFailure::NoEligibleAccount,
                );
                assert(selects(
                    *old(self),
                    *self,
                    policy,
                    refresh_skew_seconds,
                    excluded_accounts@,
                    now,
                    candidates@,
                    result,
                ));
                result
            },
        }
    }

    /// Picks an account for a request.
    pub fn select_account(
        &mut self,
        policy: RoutingPolicy,
        refresh_skew_seconds: i64,
        excluded_accounts: &Vec<String>,
    ) -> (result: Result<AccountSelection, SelectionFailure>)
        requires
            old(self).wf(),
            skew_fits(refresh_skew_seconds),
        ensures
            final(self).wf(),
            exists|now: Timestamp, candidates: Seq<RouteCandidate>| #[trigger]
                in_calendar(now) && #[trigger] selects(
                    *old(self),
                    *final(self),
                    policy,
                    refresh_skew_seconds,
                    excluded_accounts@,
                    now,
                    candidates,
                    result,
                ),
    {
        let now: Timestamp = utc_now();
        self.select_account_at(policy, refresh_skew_seconds, excluded_accounts, now)
    }

    /// Why no account can take a request at `now`.
    pub fn summarize_selection_failure_at(
        &mut self,
        excluded_accounts: &Vec<String>,
        now: Timestamp,
    ) -> (summary: Option<PoolBlockSummary>)
        requires
            old(self).wf(),
            in_calendar(now),
        ensures
            final(self).wf(),
            final(self).same_frame(old(self)),
            final(self).map() == unexpired(old(self).map(), now),
            summarizes(unexpired(old(self).map(), now), excluded_accounts@, now, summary),
    {
        self.refresh_expired_blocks_at(now);
        let ghost records = self.records@;
        let ghost map = self.map();
        let mut refreshing: bool = false;
        let mut best: Option<usize> = None;
        proof {
            lemma_sorted_is_unique(records);
        }
        let mut i: usize = 0;
        while i < self.records.len()
            invariant
                i <= self.records.len(),
                self.records@ == records,
                map == records_map(records),
                map == unexpired(old(self).map(), now),
                self.same_frame(old(self)),
                sorted_ids(records),
                forall|j: int|
                    0 <= j < i && routeable(map, excluded_accounts@, #[trigger] records[j].id@)
                        ==> !free(records[j], now),
                refreshing ==> exists|j: int|
                    0 <= j < i && routeable(map, excluded_accounts@, #[trigger] records[j].id@)
                        && records[j].refresh_in_flight,
                !refreshing ==> forall|j: int|
                    0 <= j < i && routeable(map, excluded_accounts@, #[trigger] records[j].id@)
                        ==> !records[j].refresh_in_flight,
                match best {
                    Some(b) => b < i && routeable(map, excluded_accounts@, records[b as int].id@)
                        && records[b as int].blocked_reason is Some && !records[b as int].refresh_in_flight
                        && forall|j: int|
                        0 <= j < i && routeable(map, excluded_accounts@, #[trigger] records[j].id@)
                            && records[j].blocked_reason is Some && !records[j].refresh_in_flight
                            ==> !block_before(block_of(records[j]), block_of(records[b as int])),
                    None => forall|j: int|
                        0 <= j < i && routeable(map, excluded_accounts@, #[trigger] records[j].id@)
                            && !records[j].refresh_in_flight ==> records[j].blocked_reason is None,
                },
            decreases self.records.len() - i,
        {
            let record: &AccountRecord = &self.records[i];
            proof {
                lemma_sorted_is_unique(records);
                lemma_found(records, i as int);
            }
            if !record.detached && record.routing_state != RoutingState::AuthInvalid && !is_listed(
                excluded_accounts,
                record.id.as_str(),
            ) {
                assert(routeable(map, excluded_accounts@, records[i as int].id@));
                if !record.refresh_in_flight && !has_active_block_at(record, now) {
                    assert(free(map[records[i as int].id@], now));
                    return None;
                }
                if record.refresh_in_flight {
                    refreshing = true;
                } else if let Some(reason) = record.blocked_reason {
                    let block: (BlockedReason, Option<Timestamp>) = (reason, record.blocked_until);
                    match best {
                        Some(b) => {
                            let other: &AccountRecord = &self.records[b];
                            if let Some(other_reason) = other.blocked_reason {
                                if compare_block_priority(
                                    block,
                                    (other_reason, other.blocked_until),
                                ) {
                                    best = Some(i);
                                }
                            }
                        },
                        None => {
                            best = Some(i);
                        },
                    }
                }
            }
            i = i + 1;
        }
        proof {
            assert forall|id: Seq<char>| #[trigger]
                routeable(map, excluded_accounts@, id) implies !free(map[id], now) by {
                let j = choose|j: int| has_id(records, id, j);
                lemma_found(records, j);
            }
            assert forall|id: Seq<char>| #[trigger] routeable(map, excluded_accounts@, id)
                && !refreshing implies !map[id].refresh_in_flight by {
                let j = choose|j: int| has_id(records, id, j);
                lemma_found(records, j);
            }
        }
        if refreshing {
            proof {
                let j = choose|j: int|
                    0 <= j < i && routeable(map, excluded_accounts@, #[trigger] records[j].id@)
                        && records[j].refresh_in_flight;
                lemma_found(records, j);
                assert(routeable(map, excluded_accounts@, records[j].id@)
                    && map[records[j].id@].refresh_in_flight);
            }
            return Some(
                PoolBlockSummary {
                    blocked_reason: BlockedReason::TemporarilyUnavailable,
                    blocked_until: Some(Timestamp { nanos: now.nanos + 1_000_000_000 }),
                    retry_after: Some(Delay::from_secs(1)),
                },
            );
        }
        match best {
            Some(b) => {
                proof {
                    lemma_found(records, b as int);
                    assert forall|other: Seq<char>| #[trigger]
                        routeable(map, excluded_accounts@, other) && map[other].blocked_reason is Some implies !block_before(
                        block_of(map[other]),
                        block_of(map[records[b as int].id@]),
                    ) by {
                        let j = choose|j: int| has_id(records, other, j);
                        lemma_found(records, j);
                    }
                    assert(routeable(map, excluded_accounts@, records[b as int].id@));
                }
                let record: &AccountRecord = &self.records[b];
                match record.blocked_reason {
                    Some(reason) => {
                        let retry_after: Option<Delay> = match record.blocked_until {
                            Some(until) => if until.nanos >= now.nanos {
                                Some(Delay { nanos: left_between(now, until) })
                            } else {
                                None
                            },
                            None => None,
                        };
                        Some(
                            PoolBlockSummary {
                                blocked_reason: reason,
                                blocked_until: record.blocked_until,
                                retry_after,
                            },
                        )
                    },
                    None => None,
                }
            },
            None => {
                proof {
                    assert forall|id: Seq<char>| #[trigger]
                        routeable(map, excluded_accounts@, id) implies map[id].blocked_reason is None by {
                        let j = choose|j: int| has_id(records, id, j);
                        lemma_found(records, j);
                    }
                }
                None
            },
        }
    }

    /// Why no account can take a request.
    pub fn summarize_selection_failure(&mut self, excluded_accounts: &Vec<String>) -> (summary:
        Option<PoolBlockSummary>)
        requires
            old(self).wf(),
        ensures
            final(self).wf(),
            final(self).same_frame(old(self)),
            exists|now: Timestamp|
                {
                    &&& #[trigger] in_calendar(now)
                    &&& final(self).map() == unexpired(old(self).map(), now)
                    &&& summarizes(final(self).map(), excluded_accounts@, now, summary)
                },
    {
        let now: Timestamp = utc_now();
        self.summarize_selection_failure_at(excluded_accounts, now)
    }
}

/// The nanoseconds between two instants.
fn left_between(now: Timestamp, until: Timestamp) -> (nanos: u128)
    requires
        in_calendar(now),
        until.nanos >= now.nanos,
    ensures
        nanos == until.nanos - now.nanos,
{
    if now.nanos >= 0 {
        (until.nanos - now.nanos) as u128
    } else if until.nanos < 0 {
        (until.nanos - now.nanos) as u128
    } else {
        (until.nanos as u128) + ((-now.nanos) as u128)
    }
}

}
