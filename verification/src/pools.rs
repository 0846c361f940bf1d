//! The pools that the miner knows, and which of them it mines for.

use vstd::prelude::*;

verus! {

/// A pool that the miner may mine for.
#[derive(Debug)]
pub struct PoolCandidate {
    pub label: &'static str,
    pub host: &'static str,
    pub port: u16,
}

/// What a [`PoolCandidate`] holds.
pub struct PoolCandidateView {
    pub label: Seq<char>,
    pub host: Seq<char>,
    pub port: u16,
}

impl View for PoolCandidate {
    type V = PoolCandidateView;

    open spec fn view(&self) -> PoolCandidateView {
        PoolCandidateView { label: self.label@, host: self.host@, port: self.port }
    }
}

/// What several candidates hold.
pub open spec fn candidate_views(candidates: Seq<PoolCandidate>) -> Seq<PoolCandidateView> {
    Seq::new(candidates.len(), |i: int| candidates[i]@)
}

/// The regional endpoints of Solo CKPool.
pub open spec fn known_pools() -> Seq<PoolCandidateView> {
    seq![
        PoolCandidateView { label: "US West"@, host: "uwsolo.ckpool.org"@, port: 3333 },
        PoolCandidateView { label: "US East"@, host: "uesolo.ckpool.org"@, port: 3333 },
        PoolCandidateView { label: "Germany"@, host: "eusolo.ckpool.org"@, port: 3333 },
        PoolCandidateView { label: "Singapore"@, host: "sgsolo.ckpool.org"@, port: 3333 },
        PoolCandidateView { label: "Australia"@, host: "ausolo.ckpool.org"@, port: 3333 },
    ]
}

/// Whether the pool at `i` answered, and faster than any pool before it and as
/// fast as any after it.
pub open spec fn is_first_fastest(latencies: Seq<Option<u128>>, i: int) -> bool {
    &&& 0 <= i < latencies.len()
    &&& latencies[i] is Some
    &&& forall|j: int|
        #![trigger latencies[j]]
        0 <= j < latencies.len() && latencies[j] is Some ==> latencies[i]->0 <= latencies[j]->0
            && (j < i ==> latencies[i]->0 < latencies[j]->0)
}

/// Whether no pool answered.
pub open spec fn none_answered(latencies: Seq<Option<u128>>) -> bool {
    forall|j: int| 0 <= j < latencies.len() ==> #[trigger] latencies[j] is None
}

/// Whether the pool at `i` is the one to mine for: the first of the fastest, or
/// the first of all where none answered.
pub open spec fn is_best_pool(latencies: Seq<Option<u128>>, i: int) -> bool {
    ||| is_first_fastest(latencies, i)
    ||| none_answered(latencies) && i == 0
}

/// The regional endpoints of Solo CKPool.
pub fn pool_candidates() -> (candidates: Vec<PoolCandidate>)
    ensures
        candidate_views(candidates@) == known_pools(),
{
    let mut candidates: Vec<PoolCandidate> = Vec::new();
    candidates.push(PoolCandidate { label: "US West", host: "uwsolo.ckpool.org", port: 3333 });
    candidates.push(PoolCandidate { label: "US East", host: "uesolo.ckpool.org", port: 3333 });
    candidates.push(PoolCandidate { label: "Germany", host: "eusolo.ckpool.org", port: 3333 });
    candidates.push(PoolCandidate { label: "Singapore", host: "sgsolo.ckpool.org", port: 3333 });
    candidates.push(PoolCandidate { label: "Australia", host: "ausolo.ckpool.org", port: 3333 });
    assert(candidate_views(candidates@) =~= known_pools());
    candidates
}

/// Picks the pool with the lowest latency, of which the first where several have
/// it, or the first pool where none answered. `latencies` holds, for each
/// candidate, how many nanoseconds the connection took, if it was made.
pub fn pick_best_pool(candidates: &[PoolCandidate], latencies: &[Option<u128>]) -> (best: (
    String,
    u16,
    &'static str,
))
    requires
        candidates@.len() > 0,
        latencies@.len() == candidates@.len(),
    ensures
        exists|i: int|
            #![trigger candidates@[i]]
            0 <= i < candidates@.len() && is_best_pool(latencies@, i) && best.0@
                == candidates@[i].host@ && best.1 == candidates@[i].port && best.2@
                == candidates@[i].label@,
{
    let mut best: usize = 0;
    let mut shortest: Option<u128> = None;
    let mut i: usize = 0;
    while i < latencies.len()
        invariant
            i <= latencies@.len(),
            latencies@.len() > 0,
            best < latencies@.len(),
            is_best_pool(latencies@.take(i as int), best as int),
            shortest is None <==> none_answered(latencies@.take(i as int)),
            shortest is Some ==> best < i && shortest == latencies@[best as int],
        decreases latencies@.len() - i,
    {
        let ghost seen = latencies@.take(i as int);
        let ghost next = latencies@.take(i + 1);
        let ghost previous = best as int;
        assert(next =~= seen.push(latencies@[i as int]));
        match latencies[i] {
            Some(elapsed) => {
                let faster: bool = match shortest {
                    Some(time) => elapsed < time,
                    None => true,
                };
                if faster {
                    best = i;
                    shortest = Some(elapsed);
                }
                proof {
                    assert(next[i as int] is Some);
                    if faster {
                        assert forall|j: int|
                            0 <= j < next.len() && #[trigger] next[j] is Some implies next[i as int]->0
                            <= next[j]->0 && (j < i ==> next[i as int]->0 < next[j]->0) by {
                            if j < i {
                                assert(seen[j] == next[j]);
                            }
                        }
                        assert(is_first_fastest(next, i as int));
                    } else {
                        assert(is_first_fastest(seen, previous));
                        assert forall|j: int|
                            0 <= j < next.len() && #[trigger] next[j] is Some implies next[previous]->0
                            <= next[j]->0 && (j < previous ==> next[previous]->0 < next[j]->0) by {
                            if j < i {
                                assert(seen[j] == next[j]);
                            }
                        }
                        assert(is_first_fastest(next, previous));
                    }
                }
            },
            None => {
                proof {
                    assert forall|j: int| 0 <= j < i implies seen[j] == next[j] by {}
                    if shortest is Some {
                        assert(seen[previous] is Some);
                        assert(next[previous] is Some);
                        assert forall|j: int|
                            0 <= j < next.len() && #[trigger] next[j] is Some implies next[previous]->0
                            <= next[j]->0 && (j < previous ==> next[previous]->0 < next[j]->0) by {
                            assert(seen[j] == next[j]);
                        }
                        assert(is_first_fastest(next, previous));
                    } else {
                        assert(none_answered(next));
                    }
                }
            },
        }
        i = i + 1;
    }
    assert(latencies@.take(i as int) =~= latencies@);
    let candidate: &PoolCandidate = &candidates[best];
    assert(candidates@[best as int] == *candidate);
    (candidate.host.to_owned(), candidate.port, candidate.label)
}

/// At most one pool is the one to mine for, so the choice does not depend on
/// anything but the latencies.
pub proof fn law_best_pool_is_unique(latencies: Seq<Option<u128>>, i: int, j: int)
    requires
        is_best_pool(latencies, i),
        is_best_pool(latencies, j),
    ensures
        i == j,
{
    if is_first_fastest(latencies, i) {
        assert(latencies[i] is Some);
        assert(is_first_fastest(latencies, j));
        assert(latencies[j] is Some);
    }
}

/// The pool to mine for answered wherever any did, no slower than any that did,
/// and before every other that was as fast. Where none answered it is the first.
pub proof fn law_the_fastest_pool_is_chosen(latencies: Seq<Option<u128>>, i: int, j: int)
    requires
        is_best_pool(latencies, i),
        0 <= j < latencies.len(),
    ensures
        latencies[j] is Some ==> {
            &&& 0 <= i < latencies.len()
            &&& latencies[i] is Some
            &&& latencies[i]->0 <= latencies[j]->0
            &&& latencies[i]->0 == latencies[j]->0 ==> i <= j
        },
        (forall|k: int| 0 <= k < latencies.len() ==> #[trigger] latencies[k] is None) ==> i == 0,
{
}

/// Of any pools there is one to mine for.
pub proof fn law_some_pool_is_chosen(latencies: Seq<Option<u128>>)
    requires
        latencies.len() > 0,
    ensures
        exists|i: int| 0 <= i < latencies.len() && is_best_pool(latencies, i),
    decreases latencies.len(),
{
    if none_answered(latencies) {
        assert(is_best_pool(latencies, 0));
    } else {
        let shorter = latencies.drop_last();
        let last = latencies.len() - 1;
        if none_answered(shorter) {
            assert forall|j: int| 0 <= j < last implies latencies[j] is None by {
                assert(shorter[j] is None);
            }
            assert(latencies[last] is Some);
            assert(is_first_fastest(latencies, last));
            assert(is_best_pool(latencies, last));
        } else {
            law_some_pool_is_chosen(shorter);
            let i = choose|i: int| 0 <= i < shorter.len() && is_best_pool(shorter, i);
            assert(is_first_fastest(shorter, i));
            assert forall|j: int| 0 <= j < last implies shorter[j] == latencies[j] by {}
            if latencies[last] is Some && latencies[last]->0 < latencies[i]->0 {
                assert(is_first_fastest(latencies, last));
                assert(is_best_pool(latencies, last));
            } else {
                assert(latencies[i] is Some);
                assert(is_first_fastest(latencies, i));
                assert(is_best_pool(latencies, i));
            }
        }
    }
}

/// What is picked is the host, the port and the label of one candidate, and no
/// candidate that answered was faster, nor as fast and before it.
pub proof fn law_the_picked_pool_is_the_fastest(
    candidates: &[PoolCandidate],
    latencies: &[Option<u128>],
    best: (String, u16, &'static str),
) -> (i: int)
    requires
        candidates@.len() > 0,
        latencies@.len() == candidates@.len(),
        call_ensures(pick_best_pool, (candidates, latencies), best),
    ensures
        0 <= i < candidates@.len(),
        best.0@ == candidates@[i].host@,
        best.1 == candidates@[i].port,
        best.2@ == candidates@[i].label@,
        forall|j: int|
            0 <= j < latencies@.len() && #[trigger] latencies@[j] is Some ==> latencies@[i] is Some
                && latencies@[i]->0 <= latencies@[j]->0 && (latencies@[i]->0 == latencies@[j]->0
                ==> i <= j),
        (forall|j: int| 0 <= j < latencies@.len() ==> #[trigger] latencies@[j] is None) ==> i == 0,
{
    let i = choose|i: int|
        #![trigger candidates@[i]]
        0 <= i < candidates@.len() && is_best_pool(latencies@, i) && best.0@ == candidates@[i].host@
            && best.1 == candidates@[i].port && best.2@ == candidates@[i].label@;
    assert forall|j: int| 0 <= j < latencies@.len() && #[trigger] latencies@[j] is Some implies (
    latencies@[i] is Some && latencies@[i]->0 <= latencies@[j]->0 && (latencies@[i]->0
        == latencies@[j]->0 ==> i <= j)) by {
        law_the_fastest_pool_is_chosen(latencies@, i, j);
    }
    law_the_fastest_pool_is_chosen(latencies@, i, 0);
    i
}

} // verus!
