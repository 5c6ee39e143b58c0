//! Functional analysis on finite-dimensional spaces: the exact, integer-valued
//! part of the theory. Hilbert spaces by their dimension, rank profiles of
//! operators read off their singular values, Fredholm indices and the Fredholm
//! alternative, the rankings used for spectra and nearest neighbours, and the
//! index windows that decide the Cauchy and completeness tests.

pub mod banach;
pub mod fredholm;
pub mod hilbert;
pub mod ordering;
pub mod rank;
