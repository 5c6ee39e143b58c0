//! Fredholm theory: the index and the Fredholm alternative.

use crate::rank::{
    law_cokernel_bounds, law_rank_plus_nullity, law_square_nullity_counts_negligible, clear_entries, set_entries,
    RankProfile,
};
use vstd::prelude::*;

verus! {

/// Result of the Fredholm alternative.
#[derive(Debug, Clone, PartialEq, Eq, Structural)]
pub enum FredholmAlternative {
    /// (I - K) is invertible, unique solution for every y.
    UniqueSolution,
    /// (I - K) has nontrivial kernel.
    NontrivialKernel { nullity: usize },
}

/// Fredholm properties of an operator, read from its rank profile.
#[derive(Debug, Clone)]
pub struct FredholmAnalysis {
    /// The rank profile of the operator being analysed.
    pub operator: RankProfile,
}

impl FredholmAnalysis {
    /// Create a new Fredholm analysis for the operator with the given profile.
    pub fn new(op: RankProfile) -> (a: Self)
        ensures
            a.operator == op,
    {
        Self { operator: op }
    }

    /// The Fredholm index: `index(A) = dim ker(A) − dim coker(A)`, where for
    /// an `m × n` operator `dim coker(A) = m − rank(A)`.
    pub fn index(&self) -> (i: i64)
        requires
            self.operator.rows() <= i64::MAX,
            self.operator.cols() <= i64::MAX,
        ensures
            i == self.operator.spec_index(),
            i == self.operator.spec_nullity() - self.operator.spec_cokernel(),
    {
        let nullity = self.operator.nullity();
        let cokernel = self.operator.cokernel_dimension();
        proof {
            use_type_invariant(&self.operator);
            law_rank_plus_nullity(self.operator);
            law_cokernel_bounds(self.operator);
        }
        nullity as i64 - cokernel as i64
    }

    /// Every operator between finite-dimensional spaces is Fredholm.
    pub fn is_fredholm(&self) -> (b: bool)
        ensures
            b,
    {
        true
    }

    /// Whether the operator is Fredholm of index 0.
    pub fn is_index_zero(&self) -> (b: bool)
        requires
            self.operator.rows() <= i64::MAX,
            self.operator.cols() <= i64::MAX,
        ensures
            b == (self.operator.spec_index() == 0),
    {
        self.index() == 0
    }

    /// The Fredholm alternative for `K` (this operator, which must be square):
    /// either `(I − K)x = y` has a unique solution for every `y`, or
    /// `(I − K)x = 0` has a nontrivial solution. `shifted` is the rank profile
    /// of `I − K`.
    pub fn fredholm_alternative(&self, shifted: &RankProfile) -> (alt: FredholmAlternative)
        requires
            self.operator.rows() == self.operator.cols(),
            shifted.rows() == self.operator.rows(),
            shifted.cols() == self.operator.cols(),
        ensures
            alt == classify_alternative(shifted.spec_nullity() as nat),
            (alt is UniqueSolution) <==> forall|i: int|
                0 <= i < shifted.flags().len() ==> !#[trigger] shifted.flags()[i],
            alt is NontrivialKernel ==> alt->nullity == set_entries(shifted.flags()).len(),
    {
        proof {
            use_type_invariant(shifted);
            law_square_nullity_counts_negligible(*shifted);
        }
        let nullity = shifted.nullity();
        if nullity == 0 {
            FredholmAlternative::UniqueSolution
        } else {
            FredholmAlternative::NontrivialKernel { nullity }
        }
    }

    /// Rank of the operator.
    pub fn rank(&self) -> (r: usize)
        ensures
            r == self.operator.spec_rank(),
            r == clear_entries(self.operator.flags()).len(),
    {
        self.operator.rank()
    }

    /// Nullity (dimension of the kernel).
    pub fn nullity(&self) -> (k: usize)
        ensures
            k == self.operator.spec_nullity(),
            k == self.operator.cols() - clear_entries(self.operator.flags()).len(),
    {
        self.operator.nullity()
    }

    /// Cokernel dimension: `m − rank(A)` for an `m × n` operator.
    pub fn cokernel_dimension(&self) -> (c: usize)
        ensures
            c == self.operator.spec_cokernel(),
            c == self.operator.rows() - clear_entries(self.operator.flags()).len(),
    {
        self.operator.cokernel_dimension()
    }
}

/// Which branch of the Fredholm alternative a kernel of dimension `k` for
/// `I − K` gives.
pub open spec fn classify_alternative(k: nat) -> FredholmAlternative {
    if k == 0 {
        FredholmAlternative::UniqueSolution
    } else {
        FredholmAlternative::NontrivialKernel { nullity: k as usize }
    }
}

/// The index depends on the shape alone: `index = n − m` for an `m × n`
/// operator.
pub proof fn law_index_from_shape(p: RankProfile)
    requires
        p.wf(),
    ensures
        p.spec_index() == p.cols() - p.rows(),
{
}

/// Every square operator has Fredholm index 0.
pub proof fn law_square_index_zero(p: RankProfile)
    requires
        p.wf(),
        p.rows() == p.cols(),
    ensures
        p.spec_index() == 0,
{
    law_index_from_shape(p);
}

/// Stability of the index: two operators of the same shape (for instance an
/// operator and any compact perturbation of it) have the same index.
pub proof fn law_index_stable(p: RankProfile, q: RankProfile)
    requires
        p.wf(),
        q.wf(),
        p.rows() == q.rows(),
        p.cols() == q.cols(),
    ensures
        p.spec_index() == q.spec_index(),
{
    law_index_from_shape(p);
    law_index_from_shape(q);
}

/// The index is 0 exactly for square operators, positive exactly for wide
/// ones (more columns than rows) and negative exactly for tall ones.
pub proof fn law_index_sign(p: RankProfile)
    requires
        p.wf(),
    ensures
        (p.spec_index() == 0) <==> p.rows() == p.cols(),
        (p.spec_index() > 0) <==> p.rows() < p.cols(),
        (p.spec_index() < 0) <==> p.rows() > p.cols(),
{
    law_index_from_shape(p);
}

/// The alternative is exclusive: exactly one branch holds, the unique-solution
/// branch when `I − K` has a trivial kernel, and otherwise the nontrivial
/// kernel branch, which carries the (positive) dimension of that kernel.
pub proof fn law_alternative_exclusive(k: nat)
    requires
        k <= usize::MAX,
    ensures
        (classify_alternative(k) is UniqueSolution) <==> k == 0,
        (classify_alternative(k) is NontrivialKernel) <==> k > 0,
        classify_alternative(k) is NontrivialKernel ==> classify_alternative(k)->nullity == k,
{
}

/// The Fredholm alternative on a square `I − K`: the unique-solution branch
/// holds exactly when no singular value of `I − K` is negligible, and
/// otherwise the kernel branch reports how many are, all of them counted.
pub proof fn law_alternative_reads_every_singular_value(shifted: RankProfile)
    requires
        shifted.wf(),
        shifted.rows() == shifted.cols(),
    ensures
        (classify_alternative(shifted.spec_nullity() as nat) is UniqueSolution) <==> forall|i: int|
            0 <= i < shifted.flags().len() ==> !#[trigger] shifted.flags()[i],
        classify_alternative(shifted.spec_nullity() as nat) is NontrivialKernel ==> classify_alternative(
            shifted.spec_nullity() as nat,
        )->nullity == set_entries(shifted.flags()).len(),
{
    law_square_nullity_counts_negligible(shifted);
}

} // verus!
