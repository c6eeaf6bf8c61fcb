//! A measure of how much of the node index space a search has left to visit.
use vstd::prelude::*;

verus! {

/// The number of values below `k` that `visited` lacks.
pub open spec fn unvisited_below(visited: Set<usize>, k: nat) -> nat
    decreases k,
{
    if k == 0 {
        0
    } else {
        unvisited_below(visited, (k - 1) as nat) + if visited.contains((k - 1) as usize) {
            0nat
        } else {
            1nat
        }
    }
}

/// One more than the largest node index.
pub open spec fn index_space() -> nat {
    usize::MAX as nat + 1
}

/// Marking a node as visited never adds unvisited nodes, and marking a
/// new one removes one.
pub broadcast proof fn lemma_visit_shrinks(visited: Set<usize>, x: usize, k: nat)
    ensures
        #[trigger] unvisited_below(visited.insert(x), k) <= unvisited_below(visited, k),
        x < k && !visited.contains(x) ==> unvisited_below(visited.insert(x), k)
            < unvisited_below(visited, k),
    decreases k,
{
    if k > 0 {
        lemma_visit_shrinks(visited, x, (k - 1) as nat);
    }
}

} // verus!
