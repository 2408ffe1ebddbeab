use boed::optimization::best_candidate_index;
use boed::{BoedError, DesignOptimizer, ExpectedInformationGain, FloatKey, MonteCarloEstimator};

fn keys(values: &[f64]) -> Vec<FloatKey> {
    values.iter().map(|v| FloatKey::from_bits(v.to_bits())).collect()
}

#[test]
fn optimizer_keeps_its_parts() {
    let optimizer = DesignOptimizer::new(MonteCarloEstimator::new(128), ExpectedInformationGain);
    assert_eq!(optimizer.estimator(), MonteCarloEstimator::new(128));
    let _utility: &ExpectedInformationGain = optimizer.utility();
}

#[test]
fn empty_candidate_set_is_refused_first() {
    let optimizer = DesignOptimizer::new(MonteCarloEstimator::new(0), ExpectedInformationGain);
    assert_eq!(optimizer.check_candidates(0), Err(BoedError::EmptyCandidateSet));
    assert_eq!(optimizer.check_candidates(3), Err(BoedError::ZeroSamples));
    let ready = DesignOptimizer::new(MonteCarloEstimator::new(4), ExpectedInformationGain);
    assert_eq!(ready.check_candidates(3), Ok(()));
}

#[test]
fn best_candidate_is_the_first_of_greatest_utility() {
    assert_eq!(best_candidate_index(&keys(&[0.1, 0.7, 0.3, 0.7])), Some(1));
    assert_eq!(best_candidate_index(&keys(&[-2.0, -1.0, -3.0])), Some(1));
    assert_eq!(best_candidate_index(&keys(&[5.0])), Some(0));
}

#[test]
fn no_candidate_means_no_choice() {
    assert_eq!(best_candidate_index(&[]), None);
}

#[test]
fn nan_utilities_never_win_after_the_first() {
    assert_eq!(best_candidate_index(&keys(&[0.1, f64::NAN, 0.05])), Some(0));
    assert_eq!(best_candidate_index(&keys(&[0.1, f64::NAN, 0.5])), Some(2));
}

#[test]
fn a_nan_first_candidate_is_kept() {
    assert_eq!(best_candidate_index(&keys(&[f64::NAN, 1.0, 2.0])), Some(0));
}

#[test]
fn exact_threshold_information_gain_picks_the_middle_split() {
    // the exact expected information gain of probing a threshold with
    // a uniform prior over [0.2, 0.4, 0.6, 0.8] at each candidate
    let support = [0.2, 0.4, 0.6, 0.8];
    let candidates = [0.1, 0.3, 0.5, 0.7, 0.9];
    let eig: Vec<f64> = candidates
        .iter()
        .map(|d| {
            let p_true =
                support.iter().filter(|t| *d <= **t).count() as f64 / support.len() as f64;
            [1.0 - p_true, p_true]
                .into_iter()
                .filter(|p| *p > 0.0)
                .map(|p| -p * p.ln())
                .sum()
        })
        .collect();
    let best = best_candidate_index(&keys(&eig)).unwrap();
    assert_eq!(candidates[best], 0.5);
}
