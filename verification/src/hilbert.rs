//! Hilbert spaces, identified by their dimension.

use vstd::prelude::*;

verus! {

/// A finite-dimensional Hilbert space with the standard inner product.
#[derive(Debug, Clone)]
pub struct HilbertSpace {
    pub dim: usize,
}

impl HilbertSpace {
    /// Create a Hilbert space of given dimension.
    pub fn new(dim: usize) -> (space: Self)
        ensures
            space.dim == dim,
    {
        Self { dim }
    }

    /// The dimension of the space.
    pub fn dimension(&self) -> (d: usize)
        ensures
            d == self.dim,
    {
        self.dim
    }
}

} // verus!
