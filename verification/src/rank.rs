//! Rank profiles: what the rank, the nullity and the cokernel of an operator
//! are read from.
//!
//! An `m × n` operator has `min(m, n)` singular values. Each of them is either
//! negligible (below the numerical threshold) or not. The rank counts the
//! singular values that are not negligible; by the rank–nullity theorem the
//! kernel has dimension `n − rank` and the cokernel `m − rank`.

use vstd::prelude::*;

verus! {

/// The smaller of two dimensions: the number of singular values of an
/// `m × n` operator.
pub open spec fn min_dim(m: nat, n: nat) -> nat {
    if m <= n {
        m
    } else {
        n
    }
}

/// The number of `true` entries of `flags`.
pub open spec fn count_set(flags: Seq<bool>) -> nat
    decreases flags.len(),
{
    if flags.len() == 0 {
        0
    } else {
        count_set(flags.drop_last()) + if flags.last() {
            1nat
        } else {
            0nat
        }
    }
}

/// A count of set entries never exceeds the length.
pub proof fn lemma_count_set_bounded(flags: Seq<bool>)
    ensures
        count_set(flags) <= flags.len(),
    decreases flags.len(),
{
    if flags.len() > 0 {
        lemma_count_set_bounded(flags.drop_last());
    }
}

/// The entries of `flags` that are set (the negligible singular values).
pub open spec fn set_entries(flags: Seq<bool>) -> Seq<bool> {
    flags.filter(|b: bool| b)
}

/// The entries of `flags` that are clear (the singular values that count
/// towards the rank).
pub open spec fn clear_entries(flags: Seq<bool>) -> Seq<bool> {
    flags.filter(|b: bool| !b)
}

/// Counting set entries agrees with filtering them out of the whole sequence,
/// and the clear entries make up the rest.
pub proof fn lemma_count_set_by_filter(flags: Seq<bool>)
    ensures
        count_set(flags) == set_entries(flags).len(),
        clear_entries(flags).len() + count_set(flags) == flags.len(),
    decreases flags.len(),
{
    reveal_with_fuel(Seq::filter, 1);
    if flags.len() > 0 {
        lemma_count_set_by_filter(flags.drop_last());
    }
}

/// No entry is set exactly when the count of set entries is 0.
pub proof fn lemma_count_set_zero_iff(flags: Seq<bool>)
    ensures
        count_set(flags) == 0 <==> forall|i: int| 0 <= i < flags.len() ==> !#[trigger] flags[i],
    decreases flags.len(),
{
    if flags.len() > 0 {
        let init = flags.drop_last();
        lemma_count_set_zero_iff(init);
        lemma_count_set_bounded(init);
        if count_set(flags) == 0 {
            assert forall|i: int| 0 <= i < flags.len() implies !#[trigger] flags[i] by {
                if i < flags.len() - 1 {
                    assert(init[i] == flags[i]);
                }
            }
        }
        if forall|i: int| 0 <= i < flags.len() ==> !#[trigger] flags[i] {
            assert forall|i: int| 0 <= i < init.len() implies !#[trigger] init[i] by {
                assert(init[i] == flags[i]);
            }
            assert(!flags[flags.len() - 1]);
        }
    }
}

/// Changing one entry changes the count by the difference it makes.
proof fn lemma_count_set_update(flags: Seq<bool>, k: int, b: bool)
    requires
        0 <= k < flags.len(),
    ensures
        count_set(flags.update(k, b)) + (if flags[k] {
            1int
        } else {
            0int
        }) == count_set(flags) + (if b {
            1int
        } else {
            0int
        }),
    decreases flags.len(),
{
    let t = flags.update(k, b);
    if k == flags.len() - 1 {
        assert(t.drop_last() =~= flags.drop_last());
    } else {
        assert(t.drop_last() =~= flags.drop_last().update(k, b));
        lemma_count_set_update(flags.drop_last(), k, b);
    }
}

/// The shape of an operator together with, for each of its singular values,
/// whether it is negligible.
#[derive(Debug)]
pub struct RankProfile {
    nrows: usize,
    ncols: usize,
    negligible: Vec<bool>,
}

impl RankProfile {
    /// Number of rows of the operator.
    pub closed spec fn rows(&self) -> nat {
        self.nrows as nat
    }

    /// Number of columns of the operator.
    pub closed spec fn cols(&self) -> nat {
        self.ncols as nat
    }

    /// For each singular value, whether it is negligible.
    pub closed spec fn flags(&self) -> Seq<bool> {
        self.negligible@
    }

    /// A profile has exactly one flag per singular value. Every profile
    /// satisfies this.
    #[verifier::type_invariant]
    pub open spec fn wf(&self) -> bool {
        self.flags().len() == min_dim(self.rows(), self.cols())
    }

    /// Rank: the singular values that are not negligible.
    pub open spec fn spec_rank(&self) -> int {
        self.flags().len() - count_set(self.flags())
    }

    /// Dimension of the kernel: `n − rank` for an `m × n` operator.
    pub open spec fn spec_nullity(&self) -> int {
        self.cols() - self.spec_rank()
    }

    /// Dimension of the cokernel: `m − rank` for an `m × n` operator.
    pub open spec fn spec_cokernel(&self) -> int {
        self.rows() - self.spec_rank()
    }

    /// Fredholm index: dim ker − dim coker.
    pub open spec fn spec_index(&self) -> int {
        self.spec_nullity() - self.spec_cokernel()
    }

    /// Build the profile of an `nrows × ncols` operator from one flag per
    /// singular value.
    pub fn new(nrows: usize, ncols: usize, negligible: Vec<bool>) -> (p: Self)
        requires
            negligible@.len() == min_dim(nrows as nat, ncols as nat),
        ensures
            p.wf(),
            p.rows() == nrows,
            p.cols() == ncols,
            p.flags() == negligible@,
    {
        RankProfile { nrows, ncols, negligible }
    }

    /// Number of rows.
    pub fn nrows(&self) -> (m: usize)
        ensures
            m == self.rows(),
            self.wf(),
    {
        proof {
            use_type_invariant(self);
        }
        self.nrows
    }

    /// Number of columns.
    pub fn ncols(&self) -> (n: usize)
        ensures
            n == self.cols(),
            self.wf(),
    {
        proof {
            use_type_invariant(self);
        }
        self.ncols
    }

    /// Rank: how many singular values are not negligible.
    pub fn rank(&self) -> (r: usize)
        ensures
            r == self.spec_rank(),
            r == clear_entries(self.flags()).len(),
            self.wf(),
    {
        proof {
            use_type_invariant(self);
            lemma_count_set_by_filter(self.flags());
        }
        let mut count: usize = 0;
        let mut i: usize = 0;
        while i < self.negligible.len()
            invariant
                i <= self.negligible@.len(),
                count == count_set(self.negligible@.take(i as int)),
                count <= i,
            decreases self.negligible@.len() - i,
        {
            proof {
                assert(self.negligible@.take(i as int + 1).drop_last() =~= self.negligible@.take(
                    i as int,
                ));
            }
            if self.negligible[i] {
                count = count + 1;
            }
            i = i + 1;
        }
        proof {
            assert(self.negligible@.take(i as int) =~= self.negligible@);
        }
        self.negligible.len() - count
    }

    /// Dimension of the kernel: `n − rank` for an `m × n` operator.
    pub fn nullity(&self) -> (k: usize)
        ensures
            k == self.spec_nullity(),
            k == self.cols() - clear_entries(self.flags()).len(),
    {
        let r = self.rank();
        proof {
            lemma_count_set_bounded(self.flags());
        }
        self.ncols - r
    }

    /// Dimension of the cokernel: `m − rank` for an `m × n` operator.
    pub fn cokernel_dimension(&self) -> (c: usize)
        ensures
            c == self.spec_cokernel(),
            c == self.rows() - clear_entries(self.flags()).len(),
    {
        let r = self.rank();
        proof {
            lemma_count_set_bounded(self.flags());
        }
        self.nrows - r
    }
}

impl Clone for RankProfile {
    fn clone(&self) -> (c: Self)
        ensures
            c.rows() == self.rows(),
            c.cols() == self.cols(),
            c.flags() == self.flags(),
    {
        proof {
            use_type_invariant(self);
        }
        let mut negligible: Vec<bool> = Vec::new();
        let mut i: usize = 0;
        while i < self.negligible.len()
            invariant
                i <= self.negligible@.len(),
                negligible@ == self.negligible@.take(i as int),
            decreases self.negligible@.len() - i,
        {
            negligible.push(self.negligible[i]);
            proof {
                assert(self.negligible@.take(i as int + 1) =~= self.negligible@.take(i as int).push(
                    self.negligible@[i as int],
                ));
            }
            i = i + 1;
        }
        proof {
            assert(self.negligible@.take(i as int) =~= self.negligible@);
        }
        RankProfile { nrows: self.nrows, ncols: self.ncols, negligible }
    }
}

/// For every shape, the rank is the number of singular values that are not
/// negligible, the nullity is `n` minus that number and the cokernel `m`
/// minus it.
pub proof fn law_rank_counts_significant(p: RankProfile)
    ensures
        p.spec_rank() == clear_entries(p.flags()).len(),
        p.spec_nullity() == p.cols() - clear_entries(p.flags()).len(),
        p.spec_cokernel() == p.rows() - clear_entries(p.flags()).len(),
{
    lemma_count_set_by_filter(p.flags());
}

/// One singular value turning from negligible to significant, all else
/// equal, raises the rank by exactly one and lowers the nullity and the
/// cokernel by one each.
pub proof fn law_rank_grows_by_one_significant_value(p: RankProfile, q: RankProfile, k: int)
    requires
        p.rows() == q.rows(),
        p.cols() == q.cols(),
        p.flags().len() == q.flags().len(),
        0 <= k < p.flags().len(),
        p.flags()[k],
        !q.flags()[k],
        forall|i: int| 0 <= i < p.flags().len() && i != k ==> #[trigger] p.flags()[i] == q.flags()[i],
    ensures
        q.spec_rank() == p.spec_rank() + 1,
        q.spec_nullity() == p.spec_nullity() - 1,
        q.spec_cokernel() == p.spec_cokernel() - 1,
{
    assert(q.flags() =~= p.flags().update(k, false));
    lemma_count_set_update(p.flags(), k, false);
}

/// Rank–nullity: `rank + nullity = n` for an `m × n` operator, and the rank
/// is at most `min(m, n)`, so the nullity and the cokernel are never negative.
pub proof fn law_rank_plus_nullity(p: RankProfile)
    requires
        p.wf(),
    ensures
        p.spec_rank() + p.spec_nullity() == p.cols(),
        0 <= p.spec_rank() <= min_dim(p.rows(), p.cols()),
        p.cols() - min_dim(p.rows(), p.cols()) <= p.spec_nullity() <= p.cols(),
{
    lemma_count_set_bounded(p.flags());
}

/// The cokernel dimension lies between `m − min(m, n)` and `m`, and
/// `rank + coker = m`.
pub proof fn law_cokernel_bounds(p: RankProfile)
    requires
        p.wf(),
    ensures
        p.rows() - min_dim(p.rows(), p.cols()) <= p.spec_cokernel() <= p.rows(),
        p.spec_rank() + p.spec_cokernel() == p.rows(),
{
    lemma_count_set_bounded(p.flags());
}

/// On a square operator the kernel dimension is the number of negligible
/// singular values, all of them counted, and it is 0 exactly when none is
/// negligible.
pub proof fn law_square_nullity_counts_negligible(p: RankProfile)
    requires
        p.wf(),
        p.rows() == p.cols(),
    ensures
        p.spec_nullity() == set_entries(p.flags()).len(),
        p.spec_nullity() <= p.cols() <= usize::MAX,
        p.spec_nullity() == 0 <==> forall|i: int| 0 <= i < p.flags().len() ==> !#[trigger] p.flags()[i],
{
    lemma_count_set_by_filter(p.flags());
    lemma_count_set_zero_iff(p.flags());
    lemma_count_set_bounded(p.flags());
}

} // verus!
