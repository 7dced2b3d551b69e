//! Which of several accounts takes a request.
use crate::config::RoutingPolicy;
use crate::text::{
    comes_before, text_before, text_order_is_irreflexive, text_order_is_total,
    text_order_is_transitive,
};
use crate::time::Timestamp;
use vstd::prelude::*;

verus! {

/// An account that could take a request.
#[derive(Debug, Clone)]
pub struct RouteCandidate {
    pub account_id: String,
    pub in_flight_requests: u32,
    pub last_selected_at: Option<Timestamp>,
}

/// Was the first selected before the second? One that never was comes first.
pub open spec fn selected_before(left: Option<Timestamp>, right: Option<Timestamp>) -> bool {
    match (left, right) {
        (Some(a), Some(b)) => a.nanos < b.nanos,
        (None, Some(_)) => true,
        _ => false,
    }
}

/// Does the first candidate go before the second under a policy that ranks them?
pub open spec fn goes_before(
    policy: RoutingPolicy,
    left: RouteCandidate,
    right: RouteCandidate,
) -> bool {
    match policy {
        RoutingPolicy::LeastInFlight => left.in_flight_requests < right.in_flight_requests || (
        left.in_flight_requests == right.in_flight_requests && (selected_before(
            left.last_selected_at,
            right.last_selected_at,
        ) || (left.last_selected_at == right.last_selected_at && text_before(
            left.account_id@,
            right.account_id@,
        )))),
        _ => text_before(left.account_id@, right.account_id@),
    }
}

/// Is this the candidate that a policy picks? The rotation goes by the cursor; the other policies
/// pick a candidate that no other goes before.
pub open spec fn picked(
    policy: RoutingPolicy,
    candidates: Seq<RouteCandidate>,
    cursor: usize,
    id: Seq<char>,
) -> bool {
    match policy {
        RoutingPolicy::RoundRobin => candidates[cursor as int % candidates.len() as int].account_id@
            == id,
        _ => exists|i: int|
            {
                &&& 0 <= i < candidates.len()
                &&& #[trigger] candidates[i].account_id@ == id
                &&& forall|j: int|
                    0 <= j < candidates.len() ==> !goes_before(
                        policy,
                        #[trigger] candidates[j],
                        candidates[i],
                    )
            },
    }
}

/// The place in the rotation after a pick.
pub open spec fn next_cursor(policy: RoutingPolicy, cursor: usize) -> usize {
    if policy == RoutingPolicy::RoundRobin && cursor < usize::MAX {
        (cursor + 1) as usize
    } else {
        cursor
    }
}

fn ranks_before(policy: RoutingPolicy, left: &RouteCandidate, right: &RouteCandidate) -> (before:
    bool)
    ensures
        before == goes_before(policy, *left, *right),
{
    let by_id: bool = comes_before(left.account_id.as_str(), right.account_id.as_str());
    match policy {
        RoutingPolicy::LeastInFlight => {
            if left.in_flight_requests != right.in_flight_requests {
                return left.in_flight_requests < right.in_flight_requests;
            }
            match (left.last_selected_at, right.last_selected_at) {
                (Some(a), Some(b)) => a.nanos < b.nanos || (a.nanos == b.nanos && by_id),
                (None, Some(_)) => true,
                (Some(_), None) => false,
                (None, None) => by_id,
            }
        },
        _ => by_id,
    }
}

/// The ranking of candidates is transitive against those that do not go before.
proof fn lemma_ranking(
    policy: RoutingPolicy,
    a: RouteCandidate,
    best: RouteCandidate,
    new: RouteCandidate,
)
    requires
        goes_before(policy, new, best),
        !goes_before(policy, a, best),
    ensures
        !goes_before(policy, a, new),
{
    if goes_before(policy, a, new) {
        if text_before(a.account_id@, new.account_id@) && text_before(
            new.account_id@,
            best.account_id@,
        ) {
            text_order_is_transitive(a.account_id@, new.account_id@, best.account_id@);
        }
    }
}

/// No candidate goes before itself.
proof fn lemma_not_before_itself(policy: RoutingPolicy, a: RouteCandidate)
    ensures
        !goes_before(policy, a, a),
{
    text_order_is_irreflexive(a.account_id@);
}

/// Picks an account. There is none exactly where there is no candidate.
pub fn select_candidate(
    policy: RoutingPolicy,
    candidates: &Vec<RouteCandidate>,
    round_robin_cursor: &mut usize,
) -> (selected: Option<String>)
    ensures
        match selected {
            Some(id) => candidates.len() > 0 && picked(
                policy,
                candidates@,
                *old(round_robin_cursor),
                id@,
            ) && *final(round_robin_cursor) == next_cursor(policy, *old(round_robin_cursor)),
            None => candidates.len() == 0 && *final(round_robin_cursor) == *old(
                round_robin_cursor,
            ),
        },
{
    if candidates.len() == 0 {
        return None;
    }
    match policy {
        RoutingPolicy::RoundRobin => {
            let index: usize = *round_robin_cursor % candidates.len();
            *round_robin_cursor = round_robin_cursor.saturating_add(1);
            Some(candidates[index].account_id.clone())
        },
        _ => {
            let mut best: usize = 0;
            let mut i: usize = 1;
            proof {
                lemma_not_before_itself(policy, candidates@[0]);
            }
            while i < candidates.len()
                invariant
                    best < i <= candidates.len(),
                    forall|j: int|
                        0 <= j < i ==> !goes_before(
                            policy,
                            #[trigger] candidates@[j],
                            candidates@[best as int],
                        ),
                decreases candidates.len() - i,
            {
                proof {
                    lemma_not_before_itself(policy, candidates@[i as int]);
                }
                if ranks_before(policy, &candidates[i], &candidates[best]) {
                    proof {
                        assert forall|j: int| 0 <= j < i + 1 implies !goes_before(
                            policy,
                            #[trigger] candidates@[j],
                            candidates@[i as int],
                        ) by {
                            if j < i {
                                lemma_ranking(
                                    policy,
                                    candidates@[j],
                                    candidates@[best as int],
                                    candidates@[i as int],
                                );
                            }
                        }
                    }
                    best = i;
                }
                i = i + 1;
            }
            Some(candidates[best].account_id.clone())
        },
    }
}

/// Where a ranking decides, only one id can be picked.
pub proof fn pick_is_unique(
    policy: RoutingPolicy,
    candidates: Seq<RouteCandidate>,
    cursor: usize,
    a: Seq<char>,
    b: Seq<char>,
)
    requires
        picked(policy, candidates, cursor, a),
        picked(policy, candidates, cursor, b),
    ensures
        a == b,
{
    if policy != RoutingPolicy::RoundRobin {
        let i = choose|i: int|
            {
                &&& 0 <= i < candidates.len()
                &&& #[trigger] candidates[i].account_id@ == a
                &&& forall|j: int|
                    0 <= j < candidates.len() ==> !goes_before(
                        policy,
                        #[trigger] candidates[j],
                        candidates[i],
                    )
            };
        let k = choose|i: int|
            {
                &&& 0 <= i < candidates.len()
                &&& #[trigger] candidates[i].account_id@ == b
                &&& forall|j: int|
                    0 <= j < candidates.len() ==> !goes_before(
                        policy,
                        #[trigger] candidates[j],
                        candidates[i],
                    )
            };
        assert(!goes_before(policy, candidates[i], candidates[k]));
        assert(!goes_before(policy, candidates[k], candidates[i]));
        text_order_is_total(a, b);
    }
}

}
