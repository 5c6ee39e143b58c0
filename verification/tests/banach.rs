use lau_functional_analysis::banach::{cauchy_holds, completeness_holds};

fn dist(a: &[f64], b: &[f64]) -> f64 {
    a.iter().zip(b).map(|(x, y)| (x - y) * (x - y)).sum::<f64>().sqrt()
}

fn harmonic(count: usize) -> Vec<Vec<f64>> {
    (1..=count).map(|n| vec![1.0 / n as f64, 1.0 / n as f64]).collect()
}

fn step_flags(seq: &[Vec<f64>], tol: f64) -> Vec<bool> {
    (0..seq.len().saturating_sub(1)).map(|i| dist(&seq[i], &seq[i + 1]) > tol).collect()
}

fn pair_flags(seq: &[Vec<f64>], tol: f64) -> Vec<Vec<bool>> {
    let n = seq.len();
    (0..n)
        .map(|i| (0..n).map(|j| j > i && dist(&seq[i], &seq[j]) > tol).collect())
        .collect()
}

#[test]
fn test_banach_completeness() {
    // x_n = (1/n, 1/n)
    let seq = harmonic(100);
    assert!(completeness_holds(&step_flags(&seq, 0.1)));
}

#[test]
fn test_is_cauchy() {
    let seq = harmonic(50);
    assert!(cauchy_holds(&pair_flags(&seq, 0.5)));
}

#[test]
fn short_sequences_are_complete() {
    assert!(completeness_holds(&vec![]));
    assert!(cauchy_holds(&vec![]));
    assert!(cauchy_holds(&vec![vec![false]]));
}

#[test]
fn only_the_tail_steps_count() {
    // 5 elements, 4 steps: steps 2 and 3 are checked
    assert!(completeness_holds(&vec![true, true, false, false]));
    assert!(!completeness_holds(&vec![false, false, true, false]));
    assert!(!completeness_holds(&vec![false, false, false, true]));
    // 2 elements, 1 step: the window n/2 .. n-1 is empty
    assert!(completeness_holds(&vec![true]));
    // 3 elements, 2 steps: step 1 is checked
    assert!(completeness_holds(&vec![true, false]));
    assert!(!completeness_holds(&vec![false, true]));
}

#[test]
fn only_the_tail_pairs_count() {
    // 5 elements: pairs (3, 4) only
    let mut far = vec![vec![false; 5]; 5];
    far[0][4] = true;
    far[2][3] = true;
    assert!(cauchy_holds(&far));
    far[3][4] = true;
    assert!(!cauchy_holds(&far));
}

#[test]
fn diverging_sequence_fails_both_tests() {
    let seq: Vec<Vec<f64>> = (0..10).map(|n| vec![n as f64, 0.0]).collect();
    assert!(!completeness_holds(&step_flags(&seq, 0.1)));
    assert!(!cauchy_holds(&pair_flags(&seq, 0.5)));
}
