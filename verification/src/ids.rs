//! The ids the main thread hands out for everything a game creates: shapes,
//! colliders, spawners, borders and spawned objects all draw from one
//! counter, so no two of them ever share an id. The physics engine reports
//! collisions by these ids.
use vstd::prelude::*;

verus! {

/// The source of ids: the next id to hand out.
pub struct UuidCounter {
    next: u128,
}

impl UuidCounter {
    /// The id the next allocation hands out.
    pub closed spec fn next_id(&self) -> u128 {
        self.next
    }

    /// A counter that starts at 0.
    pub fn new() -> (counter: Self)
        ensures
            counter.next_id() == 0,
    {
        UuidCounter { next: 0 }
    }

    /// The id the next allocation hands out.
    pub fn peek(&self) -> (id: u128)
        ensures
            id == self.next_id(),
    {
        self.next
    }

    /// Hands out the next id.
    pub fn allocate(&mut self) -> (id: u128)
        requires
            old(self).next_id() < u128::MAX,
        ensures
            id == old(self).next_id(),
            final(self).next_id() == id + 1,
    {
        let id = self.next;
        self.next = self.next + 1;
        id
    }
}

/// Whether `ids` were handed out by a run of `allocate` calls on one
/// counter, `counters` being the counter's next id before each call and
/// after the last: each call hands out the next id and moves it on by one.
pub open spec fn allocation_run(counters: Seq<u128>, ids: Seq<u128>) -> bool {
    &&& counters.len() == ids.len() + 1
    &&& forall|i: int|
        0 <= i < ids.len() ==> #[trigger] ids[i] == counters[i] && counters[i + 1] == ids[i] + 1
}

/// In a run of allocations, the `i`-th id is the counter's first id plus `i`.
proof fn lemma_run_counts_up(counters: Seq<u128>, ids: Seq<u128>, i: int)
    requires
        allocation_run(counters, ids),
        0 <= i <= ids.len(),
    ensures
        counters[i] == counters[0] + i,
    decreases i,
{
    if i > 0 {
        lemma_run_counts_up(counters, ids, i - 1);
        assert(ids[i - 1] == counters[i - 1]);
    }
}

/// Law: the ids handed out by a run of allocations on one counter all
/// differ, each later one being greater, and all are below the counter
/// once the run is over, so no later allocation hands any of them out again.
pub proof fn law_ids_are_fresh(counters: Seq<u128>, ids: Seq<u128>)
    requires
        allocation_run(counters, ids),
    ensures
        forall|i: int, j: int| 0 <= i < j < ids.len() ==> ids[i] < ids[j],
        forall|i: int| 0 <= i < ids.len() ==> ids[i] < counters.last(),
{
    assert forall|i: int| 0 <= i <= ids.len() implies #[trigger] counters[i] == counters[0] + i by {
        lemma_run_counts_up(counters, ids, i);
    }
    assert forall|i: int| 0 <= i < ids.len() implies #[trigger] ids[i] == counters[0] + i by {
        assert(ids[i] == counters[i]);
    }
    assert(counters.last() == counters[ids.len() as int]);
}

} // verus!
