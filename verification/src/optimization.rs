use vstd::prelude::*;

use crate::error::BoedError;
use crate::estimator::MonteCarloEstimator;
use crate::float_order::{is_first_maximum, FloatKey};

verus! {

/// Optimizes expected utility over a finite set of candidate designs.
#[derive(Debug, Clone)]
pub struct DesignOptimizer<U> {
    estimator: MonteCarloEstimator,
    utility: U,
}

impl<U> DesignOptimizer<U> {
    /// The estimator that scores each candidate.
    pub closed spec fn spec_estimator(self) -> MonteCarloEstimator {
        self.estimator
    }

    /// The utility that the estimator averages.
    pub closed spec fn spec_utility(self) -> U {
        self.utility
    }

    pub fn new(estimator: MonteCarloEstimator, utility: U) -> (o: Self)
        ensures
            o.spec_estimator() == estimator,
            o.spec_utility() == utility,
    {
        Self { estimator, utility }
    }

    pub fn estimator(&self) -> (e: MonteCarloEstimator)
        ensures
            e == self.spec_estimator(),
    {
        self.estimator
    }

    pub fn utility(&self) -> (u: &U)
        ensures
            *u == self.spec_utility(),
    {
        &self.utility
    }

    /// What an optimization over `candidate_count` candidates fails with
    /// before any utility is known: an empty candidate set, else an estimator
    /// without samples (the error of the first evaluation).
    pub fn check_candidates(&self, candidate_count: usize) -> (r: Result<(), BoedError>)
        ensures
            candidate_count == 0 ==> r == Err::<(), BoedError>(BoedError::EmptyCandidateSet),
            candidate_count > 0 && self.spec_estimator().samples() == 0 ==> r == Err::<
                (),
                BoedError,
            >(BoedError::ZeroSamples),
            candidate_count > 0 && self.spec_estimator().samples() > 0 ==> r is Ok,
    {
        if candidate_count == 0 {
            return Err(BoedError::EmptyCandidateSet);
        }
        self.estimator.check_samples()
    }
}

/// The candidate that the finite optimizer returns, given the expected
/// utility of every candidate in order: the first candidate is kept unless a
/// later one has a strictly greater utility, so the result is the first
/// candidate of greatest utility, or the first candidate when its utility is
/// NaN (a NaN compares greater than nothing and nothing compares greater than
/// it). `None` exactly when there is no candidate.
pub fn best_candidate_index(utilities: &[FloatKey]) -> (r: Option<usize>)
    ensures
        utilities@.len() == 0 <==> r is None,
        utilities@.len() > 0 && utilities@[0] is NotANumber ==> r == Some(0usize),
        utilities@.len() > 0 && utilities@[0] is Ordered ==> r is Some && is_first_maximum(
            utilities@,
            r->0 as int,
        ),
{
    if utilities.len() == 0 {
        return None;
    }
    let mut best: usize = 0;
    let mut i: usize = 1;
    while i < utilities.len()
        invariant
            1 <= i <= utilities@.len(),
            best < i,
            utilities@[0] is NotANumber ==> best == 0,
            utilities@[0] is Ordered ==> is_first_maximum(utilities@.subrange(0, i as int), best as int),
        decreases utilities@.len() - i,
    {
        if utilities[best].lt(&utilities[i]) {
            best = i;
        }
        proof {
            let prev = utilities@.subrange(0, i as int);
            let next = utilities@.subrange(0, i + 1);
            assert(forall|j: int| 0 <= j < i ==> next[j] == prev[j]);
            if utilities@[0] is Ordered {
                assert(is_first_maximum(next, best as int)) by {
                    assert(next[i as int] == utilities@[i as int]);
                }
            }
        }
        i = i + 1;
    }
    proof {
        assert(utilities@.subrange(0, utilities@.len() as int) =~= utilities@);
    }
    Some(best)
}

} // verus!
