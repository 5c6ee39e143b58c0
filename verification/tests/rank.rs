use lau_functional_analysis::rank::RankProfile;
use nalgebra::DMatrix;

fn profile(m: &DMatrix<f64>) -> RankProfile {
    let svd = m.clone().svd(false, false);
    let flags: Vec<bool> = svd.singular_values.iter().map(|s| !(*s >= 1e-10)).collect();
    RankProfile::new(m.nrows(), m.ncols(), flags)
}

#[test]
fn operator_test_rank() {
    let m = DMatrix::from_row_slice(3, 3, &[1.0, 0.0, 0.0, 0.0, 2.0, 0.0, 0.0, 0.0, 0.0]);
    let op = profile(&m);
    assert_eq!(op.rank(), 2);
}

#[test]
fn operator_test_nullity() {
    let m = DMatrix::from_row_slice(3, 3, &[1.0, 0.0, 0.0, 0.0, 2.0, 0.0, 0.0, 0.0, 0.0]);
    let op = profile(&m);
    assert_eq!(op.nullity(), 1);
}

#[test]
fn rank_plus_nullity_is_column_count() {
    let op = RankProfile::new(4, 6, vec![true, false, true, true]);
    assert_eq!(op.rank(), 1);
    assert_eq!(op.nullity(), 5);
    assert_eq!(op.rank() + op.nullity(), 6);
    assert_eq!(op.cokernel_dimension(), 3);
    assert_eq!(op.nrows(), 4);
    assert_eq!(op.ncols(), 6);
}

#[test]
fn finite_rank_outer_product_has_rank_one() {
    // 2 (e1 ⊗ e1)
    let m = DMatrix::from_row_slice(2, 2, &[2.0, 0.0, 0.0, 0.0]);
    let op = profile(&m);
    assert_eq!(op.rank(), 1);
    assert_eq!(op.nullity(), 1);
}

#[test]
fn wide_operator_nullity_counts_missing_columns() {
    let m = DMatrix::from_row_slice(2, 3, &[1.0, 0.0, 0.0, 0.0, 1.0, 0.0]);
    let op = profile(&m);
    assert_eq!(op.rank(), 2);
    assert_eq!(op.nullity(), 1);
    let copy = op.clone();
    assert_eq!(copy.nullity(), 1);
    assert_eq!(copy.ncols(), 3);
}

#[test]
fn empty_operator_profile() {
    let op = RankProfile::new(0, 3, vec![]);
    assert_eq!(op.rank(), 0);
    assert_eq!(op.nullity(), 3);
    assert_eq!(op.cokernel_dimension(), 0);
}
