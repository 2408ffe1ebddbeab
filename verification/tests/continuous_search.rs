use boed::continuous::{round_best_index, BracketEnd, GridPoint, RoundOutcome};
use boed::{BoedError, ContinuousDesignOptimizer, ContinuousDesignSpace, FloatBits, ExpectedInformationGain, FloatKey, MonteCarloEstimator};

fn key(x: f64) -> FloatKey {
    FloatKey::from_bits(x.to_bits())
}

fn optimizer(grid: usize, rounds: usize) -> ContinuousDesignOptimizer<ExpectedInformationGain> {
    ContinuousDesignOptimizer::new(MonteCarloEstimator::new(8), ExpectedInformationGain)
        .with_grid_size(grid)
        .with_refinement_rounds(rounds)
}

/// Runs the search with `utility` as the expected utility of each design,
/// doing the interval arithmetic of the search.
fn search(
    opt: &ContinuousDesignOptimizer<ExpectedInformationGain>,
    lower: f64,
    upper: f64,
    utility: impl Fn(f64) -> f64,
) -> (f64, f64, (f64, f64), usize) {
    opt.check_settings().unwrap();
    let grid = opt.grid_size();
    let (mut lo, mut hi) = (lower, upper);
    let mut best = (lo, f64::NEG_INFINITY);
    let mut progress = opt.start_search();
    while !progress.is_finished() {
        let step = (hi - lo) / (grid - 1) as f64;
        let designs: Vec<f64> = (0..grid)
            .map(|i| match opt.grid_point(i) {
                GridPoint::Upper => hi,
                GridPoint::Offset(k) => lo + step * k as f64,
            })
            .collect();
        let utilities: Vec<f64> = designs.iter().map(|d| utility(*d)).collect();
        let keys: Vec<FloatKey> = utilities.iter().map(|u| key(*u)).collect();
        let RoundOutcome {
            best_index,
            next_interval,
        } = opt.finish_round(&mut progress, &keys, step == 0.0);
        best = match best_index {
            Some(i) => (designs[i], utilities[i]),
            None => (lo, f64::NEG_INFINITY),
        };
        if let Some((a, b)) = next_interval {
            let new_lo = match a {
                BracketEnd::Keep => lo,
                BracketEnd::Offset(k) => lo + step * k as f64,
            };
            let new_hi = match b {
                BracketEnd::Keep => hi,
                BracketEnd::Offset(k) => lo + step * k as f64,
            };
            lo = new_lo;
            hi = new_hi;
        }
    }
    (best.0, best.1, (lo, hi), progress.evaluations())
}

#[test]
fn bounds_must_be_finite_and_ordered() {
    let space = |l: f64, u: f64| ContinuousDesignSpace::new(FloatBits(l.to_bits()), FloatBits(u.to_bits()));
    let ok = space(0.0, 1.0).unwrap();
    assert_eq!(ok.lower(), FloatBits(0.0f64.to_bits()));
    assert_eq!(ok.upper(), FloatBits(1.0f64.to_bits()));
    assert!(space(-3.0, -2.5).is_ok());
    for (lower, upper) in [
        (1.0, 1.0),
        (2.0, 1.0),
        (0.0, -0.0),
        (f64::NAN, 1.0),
        (0.0, f64::INFINITY),
        (f64::NEG_INFINITY, 0.0),
    ] {
        assert_eq!(space(lower, upper), Err(BoedError::InvalidContinuousBounds));
    }
}

#[test]
fn new_optimizer_has_nine_points_and_six_rounds() {
    let opt = ContinuousDesignOptimizer::new(MonteCarloEstimator::new(128), ExpectedInformationGain);
    assert_eq!(opt.grid_size(), 9);
    assert_eq!(opt.refinement_rounds(), 6);
    assert_eq!(opt.estimator().sample_count(), 128);
    let _utility: &ExpectedInformationGain = opt.utility();
}

#[test]
fn builders_change_one_setting_each() {
    let opt = optimizer(5, 2);
    assert_eq!(opt.grid_size(), 5);
    assert_eq!(opt.refinement_rounds(), 2);
    let opt = opt.with_grid_size(11);
    assert_eq!(opt.grid_size(), 11);
    assert_eq!(opt.refinement_rounds(), 2);
}

#[test]
fn settings_are_checked_in_order() {
    assert_eq!(optimizer(2, 0).check_settings(), Err(BoedError::InvalidRefinementGrid));
    assert_eq!(optimizer(3, 0).check_settings(), Err(BoedError::InvalidRefinementRounds));
    let no_samples = ContinuousDesignOptimizer::new(MonteCarloEstimator::new(0), ExpectedInformationGain);
    assert_eq!(no_samples.check_settings(), Err(BoedError::ZeroSamples));
    assert_eq!(optimizer(3, 1).check_settings(), Ok(()));
}

#[test]
fn last_grid_point_is_the_upper_end() {
    let opt = optimizer(4, 1);
    assert_eq!(opt.grid_point(0), GridPoint::Offset(0));
    assert_eq!(opt.grid_point(2), GridPoint::Offset(2));
    assert_eq!(opt.grid_point(3), GridPoint::Upper);
}

#[test]
fn next_interval_is_the_neighbourhood_of_the_best_point() {
    let opt = optimizer(9, 1);
    assert_eq!(opt.next_bracket(0), (BracketEnd::Keep, BracketEnd::Offset(1)));
    assert_eq!(opt.next_bracket(4), (BracketEnd::Offset(3), BracketEnd::Offset(5)));
    assert_eq!(opt.next_bracket(8), (BracketEnd::Offset(7), BracketEnd::Keep));
}

#[test]
fn round_best_beats_negative_infinity_only() {
    let keys = |v: &[f64]| v.iter().map(|x| key(*x)).collect::<Vec<_>>();
    assert_eq!(round_best_index(&keys(&[0.0, 2.0, 1.0, 2.0])), Some(1));
    assert_eq!(round_best_index(&keys(&[f64::NEG_INFINITY, f64::NAN])), None);
    assert_eq!(round_best_index(&keys(&[f64::NAN, -1.0])), Some(1));
    assert_eq!(round_best_index(&[]), None);
}

#[test]
fn search_counts_rounds_and_evaluations() {
    let opt = optimizer(5, 3);
    let mut progress = opt.start_search();
    assert_eq!(progress.rounds_done(), 0);
    assert!(!progress.is_finished());
    let flat = vec![key(0.0); 5];
    let outcome = opt.finish_round(&mut progress, &flat, false);
    assert_eq!(outcome.best_index, Some(0));
    assert_eq!(outcome.next_interval, Some((BracketEnd::Keep, BracketEnd::Offset(1))));
    assert_eq!(progress.rounds_done(), 1);
    assert_eq!(progress.evaluations(), 5);
    assert!(!progress.is_finished());
    opt.finish_round(&mut progress, &flat, false);
    opt.finish_round(&mut progress, &flat, false);
    assert_eq!(progress.evaluations(), 15);
    assert!(progress.is_finished());
}

#[test]
fn zero_step_ends_the_search_and_keeps_the_interval() {
    let opt = optimizer(3, 4);
    let mut progress = opt.start_search();
    let outcome = opt.finish_round(&mut progress, &[key(1.0), key(3.0), key(2.0)], true);
    assert_eq!(outcome.best_index, Some(1));
    assert_eq!(outcome.next_interval, None);
    assert!(progress.is_finished());
    assert_eq!(progress.rounds_done(), 1);
}

#[test]
fn refinement_finds_a_quadratic_peak() {
    let opt = optimizer(9, 6);
    let (design, utility, (lo, hi), evaluations) =
        search(&opt, 0.0, 1.0, |d| -(d - 0.37) * (d - 0.37));
    assert!((design - 0.37).abs() < 0.02);
    assert!(utility <= 0.0);
    assert!(lo <= design && design <= hi);
    assert_eq!(evaluations, 54);
}

#[test]
fn refinement_of_an_increasing_utility_reaches_the_upper_end() {
    let opt = optimizer(9, 6);
    let (design, _, (_, hi), _) = search(&opt, 0.0, 2.0, |d| d);
    assert_eq!(design, 2.0);
    assert_eq!(hi, 2.0);
}

#[test]
fn a_full_search_evaluates_every_round() {
    let opt = optimizer(9, 5);
    let (_, _, _, evaluations) = search(&opt, 0.0, 1.0, |d| -(d - 0.6) * (d - 0.6));
    assert_eq!(evaluations, 45);
    let mut progress = opt.start_search();
    let flat = vec![key(1.0); 9];
    for _ in 0..5 {
        opt.finish_round(&mut progress, &flat, false);
    }
    assert!(progress.is_finished());
    assert!(!progress.stopped_early());
    assert_eq!(progress.evaluations(), 45);
}

#[test]
fn a_zero_step_is_reported_as_an_early_stop() {
    let opt = optimizer(3, 4);
    let mut progress = opt.start_search();
    assert!(!progress.stopped_early());
    opt.finish_round(&mut progress, &[key(1.0), key(3.0), key(2.0)], false);
    assert!(!progress.stopped_early());
    opt.finish_round(&mut progress, &[key(1.0), key(3.0), key(2.0)], true);
    assert!(progress.is_finished());
    assert!(progress.stopped_early());
    assert_eq!(progress.evaluations(), 6);
}

#[test]
fn the_round_best_is_at_least_the_new_interval_ends() {
    let opt = optimizer(5, 2);
    let mut progress = opt.start_search();
    let utilities = [1.0, 4.0, 2.0, 4.0, f64::NAN];
    let keys: Vec<FloatKey> = utilities.iter().map(|u| key(*u)).collect();
    let outcome = opt.finish_round(&mut progress, &keys, false);
    assert_eq!(outcome.best_index, Some(1));
    assert_eq!(outcome.next_interval, Some((BracketEnd::Offset(0), BracketEnd::Offset(2))));
    assert!(utilities[0] <= utilities[1] && utilities[2] <= utilities[1]);
}
