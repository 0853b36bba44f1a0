//! Node identifier allocation for the device directory.
//!
//! The directory assigns each newly commissioned device the next node
//! identifier after the largest one stored. The allocation itself must be
//! computed against a snapshot of the stored identifiers that already
//! contains every earlier allocation — the directory serializes conflicting
//! writes — and then two allocations can never collide.

use vstd::prelude::*;

verus! {

/// The largest stored identifier, or 0 when nothing is stored; never below
/// zero, so allocation starts at 1.
pub open spec fn spec_max_node_id(ids: Seq<i32>) -> int
    decreases ids.len(),
{
    if ids.len() == 0 {
        0
    } else {
        let rest = spec_max_node_id(ids.drop_last());
        if ids.last() as int > rest {
            ids.last() as int
        } else {
            rest
        }
    }
}

/// The identifier the directory hands to the next commissioned device.
pub open spec fn spec_alloc_node_id(ids: Seq<i32>) -> int {
    spec_max_node_id(ids) + 1
}

/// The maximum dominates every stored identifier.
pub proof fn lemma_max_node_id_ge(ids: Seq<i32>, t: int)
    requires
        0 <= t < ids.len(),
    ensures
        spec_max_node_id(ids) >= ids[t],
    decreases ids.len(),
{
    if t < ids.len() - 1 {
        lemma_max_node_id_ge(ids.drop_last(), t);
    }
}

/// Computes the next node identifier from the stored ones.
pub fn allocate_node_id(existing: &Vec<i32>) -> (r: i32)
    requires
        forall|t: int| 0 <= t < existing@.len() ==> existing@[t] < i32::MAX,
    ensures
        r as int == spec_alloc_node_id(existing@),
        r >= 1,
        forall|t: int| 0 <= t < existing@.len() ==> existing@[t] < r,
{
    let n = existing.len();
    let mut m: i32 = 0;
    let mut i: usize = 0;
    while i < n
        invariant
            n == existing@.len(),
            0 <= i <= n,
            m as int == spec_max_node_id(existing@.take(i as int)),
            0 <= m < i32::MAX,
            forall|t: int| 0 <= t < existing@.len() ==> existing@[t] < i32::MAX,
        decreases n - i,
    {
        proof {
            assert(existing@.take(i + 1).drop_last() =~= existing@.take(i as int));
            assert(existing@.take(i + 1).last() == existing@[i as int]);
        }
        let v = existing[i];
        if v > m {
            m = v;
        }
        i += 1;
    }
    proof {
        assert(existing@.take(n as int) =~= existing@);
        assert forall|t: int| 0 <= t < existing@.len() implies existing@[t] < m + 1 by {
            lemma_max_node_id_ge(existing@, t);
        }
    }
    m + 1
}

/// Once the first allocated identifier is stored in the directory, the next
/// allocation differs from it: concurrent commissioning, serialized by the
/// directory, can never hand out the same node identifier twice.
pub proof fn lemma_allocation_unique(before: Seq<i32>, after: Seq<i32>, first: i32, second: i32)
    requires
        first as int == spec_alloc_node_id(before),
        after.contains(first),
        second as int == spec_alloc_node_id(after),
    ensures
        second > first,
        second != first,
{
    let t = choose|t: int| 0 <= t < after.len() && after[t] == first;
    lemma_max_node_id_ge(after, t);
}

} // verus!
