use lau_functional_analysis::ordering::{last_argmax, order_by_key_descending, top_k};

// Keys that order like the floating-point values they stand for.
fn key(x: f64) -> i64 {
    assert!(!x.is_nan());
    let x = if x == 0.0 { 0.0 } else { x };
    let bits = x.to_bits() as i64;
    if bits < 0 {
        bits ^ i64::MAX
    } else {
        bits
    }
}

fn cosine(a: &[f64], b: &[f64]) -> f64 {
    let ip: f64 = a.iter().zip(b).map(|(x, y)| x * y).sum();
    let na = a.iter().map(|x| x * x).sum::<f64>().sqrt();
    let nb = b.iter().map(|x| x * x).sum::<f64>().sqrt();
    if na < 1e-12 || nb < 1e-12 {
        0.0
    } else {
        ip / (na * nb)
    }
}

#[test]
fn order_is_descending_and_stable() {
    let keys = vec![3, 7, 3, -1, 7];
    assert_eq!(order_by_key_descending(&keys), vec![1, 4, 0, 2, 3]);
}

#[test]
fn order_of_empty_keys_is_empty() {
    let keys: Vec<i64> = vec![];
    assert_eq!(order_by_key_descending(&keys), Vec::<usize>::new());
    assert_eq!(top_k(&keys, 3), Vec::<usize>::new());
    assert_eq!(last_argmax(&keys), 0);
}

#[test]
fn top_k_takes_the_best() {
    let keys = vec![5, 9, 1, 9, 4];
    assert_eq!(top_k(&keys, 2), vec![1, 3]);
    assert_eq!(top_k(&keys, 0), Vec::<usize>::new());
    assert_eq!(top_k(&keys, 10), vec![1, 3, 0, 4, 2]);
}

#[test]
fn last_argmax_prefers_the_last_tie() {
    assert_eq!(last_argmax(&vec![2, 8, 8, 1]), 2);
    assert_eq!(last_argmax(&vec![8, 2, 1]), 0);
    assert_eq!(last_argmax(&vec![i64::MIN]), 0);
}

#[test]
fn float_keys_keep_float_order() {
    let xs = [-3.5, -0.0, 0.0, 1e-300, 2.0, -1e300, f64::INFINITY];
    for a in xs.iter() {
        for b in xs.iter() {
            assert_eq!(a < b, key(*a) < key(*b));
            assert_eq!(a == b, key(*a) == key(*b));
        }
    }
}

#[test]
fn test_nearest_neighbors() {
    let agents = [vec![1.0, 0.0, 0.0], vec![0.0, 1.0, 0.0], vec![0.9, 0.1, 0.0]];
    let query = [1.0, 0.0, 0.0];
    let keys: Vec<i64> = agents.iter().map(|a| key(cosine(&query, a))).collect();
    let nn = top_k(&keys, 2);
    assert_eq!(nn.len(), 2);
    // First should be agent "a" (identical)
    assert_eq!(nn[0], 0);
    assert_eq!(nn[1], 2);
}

#[test]
fn test_compact_eigenvalues() {
    let m = nalgebra::DMatrix::from_row_slice(2, 2, &[3.0, 0.0, 0.0, 1.0]);
    let eigs: Vec<f64> = m.symmetric_eigen().eigenvalues.iter().cloned().collect();
    let keys: Vec<i64> = eigs.iter().map(|x| key(x.abs())).collect();
    let order = order_by_key_descending(&keys);
    let sorted: Vec<f64> = order.iter().map(|&i| eigs[i]).collect();
    assert!((sorted[0] - 3.0).abs() < 1e-10);
    assert!((sorted[1] - 1.0).abs() < 1e-10);
}

#[test]
fn eigenvalues_sorted_by_magnitude() {
    let eigs = [-5.0_f64, 2.0, 5.0, -0.5];
    let keys: Vec<i64> = eigs.iter().map(|x| key(x.abs())).collect();
    // -5 and 5 tie on magnitude and keep their order
    assert_eq!(order_by_key_descending(&keys), vec![0, 2, 1, 3]);
}

#[test]
fn test_cluster_by_projection() {
    let agents = [vec![1.0, 0.0], vec![0.9, 0.1], vec![0.0, 1.0], vec![0.1, 0.9]];
    let prototypes = [vec![1.0, 0.0], vec![0.0, 1.0]];
    let clusters: Vec<usize> = agents
        .iter()
        .map(|a| {
            let keys: Vec<i64> = prototypes.iter().map(|p| key(cosine(a, p))).collect();
            last_argmax(&keys)
        })
        .collect();
    assert_eq!(clusters[0], 0);
    assert_eq!(clusters[1], 0);
    assert_eq!(clusters[2], 1);
    assert_eq!(clusters[3], 1);
}
