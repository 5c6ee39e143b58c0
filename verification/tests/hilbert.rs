use lau_functional_analysis::hilbert::HilbertSpace;

#[test]
fn test_hilbert_dimension() {
    let h = HilbertSpace::new(10);
    assert_eq!(h.dimension(), 10);
}

#[test]
fn hilbert_new_keeps_dimension() {
    let h = HilbertSpace::new(0);
    assert_eq!(h.dim, 0);
    assert_eq!(h.dimension(), 0);
    let h = HilbertSpace::new(3);
    assert_eq!(h.dim, 3);
}
