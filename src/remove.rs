//! Deciding what removing a deployed target takes.
use vstd::prelude::*;

verus! {

/// What removing one target takes.
#[derive(Debug, Clone, Copy, PartialEq, Eq)]
pub struct RemovalPlan {
    /// The target itself is removed.
    pub remove_target: bool,
    /// How many of its ancestor directories, innermost first, are removed
    /// after it.
    pub prune: usize,
}

/// Whether the `k`-th ancestor directory of a removed target (innermost
/// first) is left empty, where `others[m]` counts the entries of the `m`-th
/// ancestor besides the target or the ancestor below it.
pub open spec fn left_empty(others: Seq<usize>, k: int) -> bool
    decreases k,
{
    if k < 0 || k >= others.len() {
        false
    } else if k == 0 {
        others[0] == 0
    } else {
        others[k] == 0 && left_empty(others, k - 1)
    }
}

/// Plans the removal of a target: nothing when it is absent; else the
/// target, then each ancestor directory that is left empty, up to the first
/// one that is not. `others` is as in `left_empty`.
pub fn plan_removal(target_exists: bool, others: &Vec<usize>) -> (r: RemovalPlan)
    ensures
        r.remove_target == target_exists,
        r.prune <= others@.len(),
        forall|k: int|
            0 <= k < others@.len() ==> (k < r.prune <==> target_exists && #[trigger] left_empty(
                others@,
                k,
            )),
{
    if !target_exists {
        return RemovalPlan { remove_target: false, prune: 0 };
    }
    let mut n: usize = 0;
    while n < others.len() && others[n] == 0
        invariant
            n <= others@.len(),
            forall|k: int| 0 <= k < n ==> #[trigger] left_empty(others@, k),
        decreases others@.len() - n,
    {
        proof {
            if n > 0 {
                assert(left_empty(others@, n - 1));
            }
        }
        n = n + 1;
    }
    proof {
        assert forall|k: int| n <= k < others@.len() implies !#[trigger] left_empty(others@, k) by {
            lemma_not_empty_above(others@, n as int, k);
        }
    }
    RemovalPlan { remove_target: true, prune: n }
}

proof fn lemma_not_empty_above(others: Seq<usize>, n: int, k: int)
    requires
        0 <= n <= k < others.len(),
        others[n] != 0,
    ensures
        !left_empty(others, k),
    decreases k - n,
{
    if k > n {
        lemma_not_empty_above(others, n, k - 1);
    }
}

/// Removing a target prunes exactly the chain of directories it leaves
/// empty: with `d` empty directories above it before the first one that
/// holds something else, all `d` go and nothing above them does.
pub proof fn cascade_removal(others: Seq<usize>, d: int, p: RemovalPlan)
    requires
        0 <= d <= others.len(),
        forall|m: int| 0 <= m < d ==> others[m] == 0,
        d < others.len() ==> others[d] != 0,
        p.remove_target,
        p.prune <= others.len(),
        forall|k: int|
            0 <= k < others.len() ==> (k < p.prune <==> p.remove_target && #[trigger] left_empty(
                others,
                k,
            )),
    ensures
        p.prune == d,
{
    assert forall|k: int| 0 <= k < d implies #[trigger] left_empty(others, k) by {
        lemma_empty_below(others, d, k);
    }
    if d < others.len() {
        lemma_not_empty_above(others, d, d);
    }
    if p.prune < d {
        assert(left_empty(others, p.prune as int));
    }
}

proof fn lemma_empty_below(others: Seq<usize>, d: int, k: int)
    requires
        0 <= k < d <= others.len(),
        forall|m: int| 0 <= m < d ==> others[m] == 0,
    ensures
        left_empty(others, k),
    decreases k,
{
    if k > 0 {
        lemma_empty_below(others, d, k - 1);
    }
}

} // verus!
