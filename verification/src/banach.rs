//! Banach spaces: the index windows that decide the completeness and Cauchy
//! tests on a finite sequence `x_0, …, x_{n-1}`.
//!
//! Both tests look at the tail of the sequence only. The distances themselves
//! are measured in the space's norm; what is decided here is which of those
//! comparisons count.

use vstd::prelude::*;

verus! {

/// The completeness test on a sequence of `n = steps_exceed.len() + 1`
/// elements, where `steps_exceed[i]` says that `x_i` and `x_{i+1}` lie
/// further apart than the step tolerance: every step from index `n / 2` on
/// must stay within the tolerance.
pub open spec fn tail_steps_settle(steps_exceed: Seq<bool>) -> bool {
    let n = steps_exceed.len() + 1;
    forall|i: int| n / 2 <= i < n - 1 ==> !#[trigger] steps_exceed[i]
}

/// The Cauchy test on a sequence of `n = far.len()` elements, where
/// `far[i][j]` says that `x_i` and `x_j` lie further apart than the
/// tolerance: every pair `n / 2 < i < j < n` must stay within it.
pub open spec fn tail_pairs_close(far: Seq<Vec<bool>>) -> bool {
    let n = far.len();
    forall|i: int, j: int| n / 2 < i < j < n ==> !#[trigger] far[i]@[j]
}

/// Decide the completeness test from the consecutive-step comparisons
/// (`steps_exceed[i]`: the distance from `x_i` to `x_{i+1}` exceeds the
/// tolerance). A sequence with fewer than two elements has no steps and
/// passes.
pub fn completeness_holds(steps_exceed: &Vec<bool>) -> (ok: bool)
    ensures
        ok == tail_steps_settle(steps_exceed@),
        steps_exceed@.len() == 0 ==> ok,
        forall|i: int|
            (steps_exceed@.len() + 1) / 2 <= i < steps_exceed@.len() && #[trigger] steps_exceed@[i]
                ==> !ok,
        (forall|i: int|
            (steps_exceed@.len() + 1) / 2 <= i < steps_exceed@.len() ==> !#[trigger] steps_exceed@[i])
            ==> ok,
{
    let steps = steps_exceed.len();
    let start = steps - steps / 2;
    let mut i = start;
    while i < steps
        invariant
            steps == steps_exceed@.len(),
            start == (steps + 1) / 2,
            start <= i <= steps || (steps < start && i == start),
            forall|k: int| start <= k < i ==> !#[trigger] steps_exceed@[k],
        decreases steps - i,
    {
        if steps_exceed[i] {
            return false;
        }
        i = i + 1;
    }
    true
}

/// Decide the Cauchy test from the pairwise comparisons (`far[i][j]`: the
/// distance from `x_i` to `x_j` exceeds the tolerance). Only pairs in the
/// second half of the sequence count.
pub fn cauchy_holds(far: &Vec<Vec<bool>>) -> (ok: bool)
    requires
        forall|i: int| 0 <= i < far@.len() ==> #[trigger] far@[i]@.len() == far@.len(),
    ensures
        ok == tail_pairs_close(far@),
        forall|i: int, j: int|
            far@.len() / 2 < i < j < far@.len() && #[trigger] far@[i]@[j] ==> !ok,
        (forall|i: int, j: int| far@.len() / 2 < i < j < far@.len() ==> !#[trigger] far@[i]@[j])
            ==> ok,
{
    let n = far.len();
    let mut i: usize = 0;
    while i < n
        invariant
            n == far@.len(),
            i <= n,
            forall|k: int| 0 <= k < far@.len() ==> #[trigger] far@[k]@.len() == far@.len(),
            forall|a: int, b: int| n / 2 < a < i && a < b < n ==> !#[trigger] far@[a]@[b],
        decreases n - i,
    {
        if i > n / 2 {
            let row = &far[i];
            let mut j: usize = i + 1;
            while j < n
                invariant
                    n == far@.len(),
                    n / 2 < i < n,
                    i < j <= n || j == i + 1,
                    *row == far@[i as int],
                    row@.len() == n,
                    forall|b: int| i < b < j ==> !#[trigger] row@[b],
                decreases n - j,
            {
                if row[j] {
                    return false;
                }
                j = j + 1;
            }
        }
        i = i + 1;
    }
    true
}

/// Completeness ignores the first half: the steps before index `n / 2` of a
/// sequence of `n` elements never change the decision.
pub proof fn law_completeness_ignores_head(s1: Seq<bool>, s2: Seq<bool>)
    requires
        s1.len() == s2.len(),
        forall|i: int| (s1.len() + 1) / 2 <= i < s1.len() ==> #[trigger] s1[i] == s2[i],
    ensures
        tail_steps_settle(s1) == tail_steps_settle(s2),
{
    if tail_steps_settle(s1) {
        assert forall|i: int| (s2.len() + 1) / 2 <= i < s2.len() implies !#[trigger] s2[i] by {
            assert(s1[i] == s2[i]);
        }
    }
    if tail_steps_settle(s2) {
        assert forall|i: int| (s1.len() + 1) / 2 <= i < s1.len() implies !#[trigger] s1[i] by {
            assert(s1[i] == s2[i]);
        }
    }
}

/// Every step from index `n / 2` up to the last one counts: one of them
/// exceeding the tolerance fails the completeness test (in particular the
/// last step, `steps_exceed[n − 2]`).
pub proof fn law_completeness_tail_step_fails(steps_exceed: Seq<bool>, i: int)
    requires
        (steps_exceed.len() + 1) / 2 <= i < steps_exceed.len(),
        steps_exceed[i],
    ensures
        !tail_steps_settle(steps_exceed),
{
}

/// When no step from index `n / 2` on exceeds the tolerance, the completeness
/// test passes, whatever the earlier steps.
pub proof fn law_completeness_tail_within_passes(steps_exceed: Seq<bool>)
    requires
        forall|i: int| (steps_exceed.len() + 1) / 2 <= i < steps_exceed.len() ==> !#[trigger] steps_exceed[i],
    ensures
        tail_steps_settle(steps_exceed),
{
}

/// Any pair `n / 2 < i < j < n` lying too far apart fails the Cauchy test,
/// neighbours or not.
pub proof fn law_cauchy_far_pair_fails(far: Seq<Vec<bool>>, i: int, j: int)
    requires
        far.len() / 2 < i < j < far.len(),
        far[i]@[j],
    ensures
        !tail_pairs_close(far),
{
}

/// When no pair `n / 2 < i < j < n` lies too far apart, the Cauchy test
/// passes, whatever the pairs that involve the first half.
pub proof fn law_cauchy_tail_close_passes(far: Seq<Vec<bool>>)
    requires
        forall|i: int, j: int| far.len() / 2 < i < j < far.len() ==> !#[trigger] far[i]@[j],
    ensures
        tail_pairs_close(far),
{
}

/// The Cauchy test ignores the first half: two tables that agree on the pairs
/// `n / 2 < i < j < n` give the same decision.
pub proof fn law_cauchy_ignores_head(f1: Seq<Vec<bool>>, f2: Seq<Vec<bool>>)
    requires
        f1.len() == f2.len(),
        forall|i: int, j: int|
            f1.len() / 2 < i < j < f1.len() ==> #[trigger] f1[i]@[j] == #[trigger] f2[i]@[j],
    ensures
        tail_pairs_close(f1) == tail_pairs_close(f2),
{
    if tail_pairs_close(f1) {
        assert forall|i: int, j: int| f2.len() / 2 < i < j < f2.len() implies !#[trigger] f2[i]@[j] by {
            assert(f1[i]@[j] == f2[i]@[j]);
        }
    }
    if tail_pairs_close(f2) {
        assert forall|i: int, j: int| f1.len() / 2 < i < j < f1.len() implies !#[trigger] f1[i]@[j] by {
            assert(f1[i]@[j] == f2[i]@[j]);
        }
    }
}

} // verus!
