# lau-functional-analysis

Functional analysis on finite-dimensional spaces: Banach and Hilbert spaces,
bounded, compact and Fredholm operators, spectral decompositions, discrete
Sobolev spaces and agent feature spaces.

- `src/` is the verified core, checked by Verus: Hilbert space dimensions,
  rank profiles (rank, nullity, cokernel read from the singular values), the
  Fredholm index and alternative with their laws, the stable descending
  rankings used for spectra, nearest neighbours and clustering, and the index
  windows of the Cauchy and completeness tests.
- `app/` is the numerical layer over `f64` built on nalgebra, serialisable
  with serde; it computes with floating point and hands the exact decisions to
  the core.
- `tests/` exercises the core, partly on values computed with nalgebra.
