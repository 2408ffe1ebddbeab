use vstd::prelude::*;

use crate::config::FloatBits;
use crate::error::BoedError;
use crate::estimator::MonteCarloEstimator;
use crate::float_order::{
    bits_finite, ieee_lt, is_finite_bits, is_first_maximum, key_le, key_lt, neg_infinity_key,
    FloatKey,
};

verus! {

/// Whether `lower..upper` (given as `f64::to_bits` patterns) is a valid bounded
/// one-dimensional design interval: both ends finite and `lower < upper`.
pub open spec fn valid_bounds(lower: u64, upper: u64) -> bool {
    bits_finite(lower) && bits_finite(upper) && ieee_lt(lower, upper)
}

/// A bounded one-dimensional continuous design space `[lower, upper]`, its
/// ends given by their bit patterns; both are finite and `lower < upper`.
/// Spaces are `==` when their ends are, as doubles.
#[derive(Debug, Clone, Copy, PartialEq)]
pub struct ContinuousDesignSpace {
    lower: FloatBits,
    upper: FloatBits,
}

impl ContinuousDesignSpace {
    pub closed spec fn spec_lower(self) -> FloatBits {
        self.lower
    }

    pub closed spec fn spec_upper(self) -> FloatBits {
        self.upper
    }

    #[verifier::type_invariant]
    closed spec fn bounded(self) -> bool {
        valid_bounds(self.lower.0, self.upper.0)
    }

    /// The space `[lower, upper]`: `InvalidContinuousBounds` unless both ends
    /// are finite and `lower < upper`.
    pub fn new(lower: FloatBits, upper: FloatBits) -> (r: Result<Self, BoedError>)
        ensures
            r is Ok <==> valid_bounds(lower.0, upper.0),
            r matches Ok(space) ==> space.spec_lower() == lower && space.spec_upper() == upper,
            r is Err ==> r == Err::<Self, BoedError>(BoedError::InvalidContinuousBounds),
    {
        if !is_finite_bits(lower.0) || !is_finite_bits(upper.0) {
            return Err(BoedError::InvalidContinuousBounds);
        }
        let lo = FloatKey::from_bits(lower.0);
        let hi = FloatKey::from_bits(upper.0);
        proof {
            crate::float_order::lemma_key_order_is_ieee_order(lower.0, upper.0);
        }
        if !lo.lt(&hi) {
            return Err(BoedError::InvalidContinuousBounds);
        }
        Ok(ContinuousDesignSpace { lower, upper })
    }

    /// The lower end; every space has finite ordered ends.
    pub fn lower(&self) -> (b: FloatBits)
        ensures
            b == self.spec_lower(),
            valid_bounds(self.spec_lower().0, self.spec_upper().0),
    {
        proof {
            use_type_invariant(self);
        }
        self.lower
    }

    /// The upper end.
    pub fn upper(&self) -> (b: FloatBits)
        ensures
            b == self.spec_upper(),
            valid_bounds(self.spec_lower().0, self.spec_upper().0),
    {
        proof {
            use_type_invariant(self);
        }
        self.upper
    }
}

/// A point of a round's grid over the current interval `[lower, upper]`.
#[derive(Debug, Clone, Copy, PartialEq, Eq)]
pub enum GridPoint {
    /// `lower + step * k`, where `step = (upper - lower) / (grid_size - 1)`.
    Offset(usize),
    /// The upper end of the interval itself.
    Upper,
}

/// An end of the next round's interval.
#[derive(Debug, Clone, Copy, PartialEq, Eq)]
pub enum BracketEnd {
    /// The end stays where it is.
    Keep,
    /// The end moves to grid point `lower + step * k` of the finished round.
    Offset(usize),
}

/// The grid position of a bracket end: an offset, or `keep` when it stays.
pub open spec fn bracket_position(end: BracketEnd, keep: int) -> int {
    match end {
        BracketEnd::Keep => keep,
        BracketEnd::Offset(k) => k as int,
    }
}

/// How far a coarse-to-fine search has come.
#[derive(Debug, Clone, Copy, PartialEq, Eq)]
pub struct RefinementProgress {
    rounds_done: usize,
    evaluations: usize,
    finished: bool,
    stopped_early: bool,
}

impl RefinementProgress {
    pub closed spec fn spec_rounds_done(self) -> usize {
        self.rounds_done
    }

    pub closed spec fn spec_evaluations(self) -> usize {
        self.evaluations
    }

    pub closed spec fn spec_finished(self) -> bool {
        self.finished
    }

    pub closed spec fn spec_stopped_early(self) -> bool {
        self.stopped_early
    }

    /// The number of completed rounds.
    pub fn rounds_done(&self) -> (n: usize)
        ensures
            n == self.spec_rounds_done(),
    {
        self.rounds_done
    }

    /// The number of designs evaluated so far.
    pub fn evaluations(&self) -> (n: usize)
        ensures
            n == self.spec_evaluations(),
    {
        self.evaluations
    }

    /// Whether the search is over.
    pub fn is_finished(&self) -> (b: bool)
        ensures
            b == self.spec_finished(),
    {
        self.finished
    }

    /// Whether a round ended the search early because its grid step was zero.
    pub fn stopped_early(&self) -> (b: bool)
        ensures
            b == self.spec_stopped_early(),
    {
        self.stopped_early
    }
}

/// What one finished round decides.
#[derive(Debug, Clone, Copy, PartialEq, Eq)]
pub struct RoundOutcome {
    /// The grid position of the round's best design; `None` when no design
    /// beat negative infinity, and the round's best is its lower end.
    pub best_index: Option<usize>,
    /// The next interval, as ends on the finished round's grid; `None` when
    /// the grid step was zero and the interval stays as it is.
    pub next_interval: Option<(BracketEnd, BracketEnd)>,
}

/// The ends of the next interval around grid position `best_index` of a grid
/// of `grid_size` points.
pub open spec fn bracket_around(best_index: usize, grid_size: usize) -> (BracketEnd, BracketEnd) {
    (
        if best_index == 0 {
            BracketEnd::Keep
        } else {
            BracketEnd::Offset((best_index - 1) as usize)
        },
        if best_index + 1 >= grid_size {
            BracketEnd::Keep
        } else {
            BracketEnd::Offset((best_index + 1) as usize)
        },
    )
}

/// The round-best position of `utilities` as the search uses it: `None` when
/// no utility beats negative infinity, else the first position of the
/// greatest utility.
pub open spec fn round_best_spec(utilities: Seq<FloatKey>) -> Option<usize> {
    if forall|j: int| 0 <= j < utilities.len() ==> !key_lt(neg_infinity_key(), #[trigger] utilities[j]) {
        None
    } else {
        Some((choose|r: int| is_first_maximum(utilities, r)) as usize)
    }
}

/// A coarse-to-fine optimizer for bounded one-dimensional design spaces.
///
/// Each round evaluates `grid_size` evenly spaced designs over the current
/// interval, then narrows the interval to the grid neighbours of the best one.
#[derive(Debug, Clone)]
pub struct ContinuousDesignOptimizer<U> {
    estimator: MonteCarloEstimator,
    utility: U,
    grid_size: usize,
    refinement_rounds: usize,
}

impl<U> ContinuousDesignOptimizer<U> {
    pub closed spec fn spec_estimator(self) -> MonteCarloEstimator {
        self.estimator
    }

    pub closed spec fn spec_utility(self) -> U {
        self.utility
    }

    /// The number of designs evaluated per round.
    pub closed spec fn spec_grid_size(self) -> usize {
        self.grid_size
    }

    /// The number of rounds of refinement.
    pub closed spec fn spec_refinement_rounds(self) -> usize {
        self.refinement_rounds
    }

    /// A new optimizer with 9 grid points per round and 6 rounds.
    pub fn new(estimator: MonteCarloEstimator, utility: U) -> (o: Self)
        ensures
            o.spec_estimator() == estimator,
            o.spec_utility() == utility,
            o.spec_grid_size() == 9,
            o.spec_refinement_rounds() == 6,
    {
        Self { estimator, utility, grid_size: 9, refinement_rounds: 6 }
    }

    pub fn estimator(&self) -> (e: MonteCarloEstimator)
        ensures
            e == self.spec_estimator(),
    {
        self.estimator
    }

    pub fn utility(&self) -> (u: &U)
        ensures
            *u == self.spec_utility(),
    {
        &self.utility
    }

    pub fn grid_size(&self) -> (g: usize)
        ensures
            g == self.spec_grid_size(),
    {
        self.grid_size
    }

    pub fn refinement_rounds(&self) -> (r: usize)
        ensures
            r == self.spec_refinement_rounds(),
    {
        self.refinement_rounds
    }

    pub fn with_grid_size(self, grid_size: usize) -> (o: Self)
        ensures
            o.spec_grid_size() == grid_size,
            o.spec_refinement_rounds() == self.spec_refinement_rounds(),
            o.spec_estimator() == self.spec_estimator(),
            o.spec_utility() == self.spec_utility(),
    {
        let mut o = self;
        o.grid_size = grid_size;
        o
    }

    pub fn with_refinement_rounds(self, refinement_rounds: usize) -> (o: Self)
        ensures
            o.spec_refinement_rounds() == refinement_rounds,
            o.spec_grid_size() == self.spec_grid_size(),
            o.spec_estimator() == self.spec_estimator(),
            o.spec_utility() == self.spec_utility(),
    {
        let mut o = self;
        o.refinement_rounds = refinement_rounds;
        o
    }

    /// What an optimization fails with before any utility is known: a grid
    /// of fewer than 3 points, else no refinement round, else an estimator
    /// without samples (the error of the first evaluation).
    pub fn check_settings(&self) -> (r: Result<(), BoedError>)
        ensures
            self.spec_grid_size() < 3 ==> r == Err::<(), BoedError>(BoedError::InvalidRefinementGrid),
            self.spec_grid_size() >= 3 && self.spec_refinement_rounds() == 0 ==> r == Err::<
                (),
                BoedError,
            >(BoedError::InvalidRefinementRounds),
            self.spec_grid_size() >= 3 && self.spec_refinement_rounds() > 0
                && self.spec_estimator().samples() == 0 ==> r == Err::<(), BoedError>(
                BoedError::ZeroSamples,
            ),
            r is Ok <==> self.spec_grid_size() >= 3 && self.spec_refinement_rounds() > 0
                && self.spec_estimator().samples() > 0,
    {
        if self.grid_size < 3 {
            return Err(BoedError::InvalidRefinementGrid);
        }
        if self.refinement_rounds == 0 {
            return Err(BoedError::InvalidRefinementRounds);
        }
        self.estimator.check_samples()
    }

    /// The design at position `grid_index` of a round's grid: the last
    /// position is the interval's upper end, every other one is an offset
    /// from the lower end.
    pub fn grid_point(&self, grid_index: usize) -> (p: GridPoint)
        requires
            grid_index < self.spec_grid_size(),
        ensures
            grid_index + 1 == self.spec_grid_size() ==> p == GridPoint::Upper,
            grid_index + 1 != self.spec_grid_size() ==> p == GridPoint::Offset(grid_index),
    {
        if grid_index + 1 == self.grid_size {
            GridPoint::Upper
        } else {
            GridPoint::Offset(grid_index)
        }
    }

    /// The counters of `progress` agree with this optimizer: no more rounds
    /// than configured, `grid_size` evaluations per completed round, and an
    /// unfinished search has a round left, a search stopped early is over
    /// after at least one round, and any other finished search ran every
    /// round.
    pub open spec fn search_consistent(self, progress: RefinementProgress) -> bool {
        &&& progress.spec_rounds_done() <= self.spec_refinement_rounds()
        &&& progress.spec_evaluations() == crate::estimator::saturate(
            progress.spec_rounds_done() * self.spec_grid_size(),
        )
        &&& !progress.spec_finished() ==> progress.spec_rounds_done() < self.spec_refinement_rounds()
        &&& progress.spec_stopped_early() ==> progress.spec_finished() && progress.spec_rounds_done()
            >= 1
        &&& progress.spec_finished() && !progress.spec_stopped_early()
            ==> progress.spec_rounds_done() == self.spec_refinement_rounds()
    }

    /// The progress of a search that has not started: finished at once when
    /// there are no rounds.
    pub fn start_search(&self) -> (p: RefinementProgress)
        ensures
            p.spec_rounds_done() == 0,
            p.spec_evaluations() == 0,
            p.spec_finished() == (self.spec_refinement_rounds() == 0),
            !p.spec_stopped_early(),
            self.search_consistent(p),
    {
        proof {
            assert(0 * self.grid_size == 0);
        }
        RefinementProgress {
            rounds_done: 0,
            evaluations: 0,
            finished: self.refinement_rounds == 0,
            stopped_early: false,
        }
    }

    /// Ends a round, given the expected utilities of its grid designs in grid
    /// order and whether its grid step was zero: counts the round and its
    /// evaluations, picks the round's best design, and narrows the interval
    /// around it unless the step was zero. The search is over after the last
    /// round, or after a round with a zero step.
    pub fn finish_round(
        &self,
        progress: &mut RefinementProgress,
        utilities: &[FloatKey],
        step_is_zero: bool,
    ) -> (o: RoundOutcome)
        requires
            self.spec_grid_size() >= 3,
            !old(progress).spec_finished(),
            old(progress).spec_rounds_done() < self.spec_refinement_rounds(),
            utilities@.len() == self.spec_grid_size(),
        ensures
            final(progress).spec_rounds_done() == old(progress).spec_rounds_done() + 1,
            final(progress).spec_evaluations() == crate::estimator::saturate(
                old(progress).spec_evaluations() + self.spec_grid_size(),
            ),
            final(progress).spec_finished() == (step_is_zero || final(progress).spec_rounds_done()
                == self.spec_refinement_rounds()),
            final(progress).spec_stopped_early() == step_is_zero,
            o.best_index == round_best_spec(utilities@),
            o.best_index matches Some(b) ==> forall|j: int|
                0 <= j < utilities@.len() && utilities@[j] is Ordered ==> key_le(
                    #[trigger] utilities@[j],
                    utilities@[b as int],
                ),
            o.best_index is None ==> forall|j: int|
                0 <= j < utilities@.len() ==> !key_lt(neg_infinity_key(), #[trigger] utilities@[j]),
            o.next_interval matches Some(ends) ==> 0 <= bracket_position(ends.0, 0) <= bracket_position(
                ends.1,
                self.spec_grid_size() - 1,
            ) < self.spec_grid_size(),
            o.best_index matches Some(b) ==> (o.next_interval matches Some(ends) ==> {
                let lo = utilities@[bracket_position(ends.0, 0)];
                let hi = utilities@[bracket_position(ends.1, self.spec_grid_size() - 1)];
                (lo is Ordered ==> key_le(lo, utilities@[b as int])) && (hi is Ordered ==> key_le(
                    hi,
                    utilities@[b as int],
                ))
            }),
            self.search_consistent(*old(progress)) ==> self.search_consistent(*final(progress)),
            step_is_zero ==> o.next_interval is None,
            !step_is_zero ==> o.next_interval == Some(
                bracket_around(
                    match o.best_index {
                        Some(i) => i,
                        None => 0,
                    },
                    self.spec_grid_size(),
                ),
            ),
    {
        let best_index = round_best_index(utilities);
        proof {
            if best_index is Some {
                crate::float_order::lemma_first_maximum_unique(
                    utilities@,
                    best_index->0 as int,
                    choose|r: int| is_first_maximum(utilities@, r),
                );
            }
        }
        proof {
            let r = progress.rounds_done as int;
            let g = self.grid_size as int;
            assert((r + 1) * g == r * g + g) by (nonlinear_arith);
            assert(r * g >= 0) by (nonlinear_arith)
                requires
                    r >= 0,
                    g >= 0,
            ;
        }
        progress.rounds_done = progress.rounds_done + 1;
        progress.evaluations = progress.evaluations.saturating_add(self.grid_size);
        progress.finished = step_is_zero || progress.rounds_done == self.refinement_rounds;
        progress.stopped_early = step_is_zero;
        if step_is_zero {
            return RoundOutcome { best_index, next_interval: None };
        }
        let position = match best_index {
            Some(i) => i,
            None => 0,
        };
        let next_interval = self.next_bracket(position);
        RoundOutcome { best_index, next_interval: Some(next_interval) }
    }

    /// The interval of the next round, given the position of the best design
    /// of the finished round: the grid neighbours of that design, where the
    /// lower neighbour of the first position is the current lower end and the
    /// upper neighbour of the last position is the current upper end.
    ///
    /// The new interval holds the best design and spans at most two grid
    /// steps.
    pub fn next_bracket(&self, best_index: usize) -> (r: (BracketEnd, BracketEnd))
        requires
            best_index < self.spec_grid_size(),
        ensures
            best_index == 0 ==> r.0 == BracketEnd::Keep,
            best_index > 0 ==> r.0 == BracketEnd::Offset((best_index - 1) as usize),
            best_index + 1 >= self.spec_grid_size() ==> r.1 == BracketEnd::Keep,
            best_index + 1 < self.spec_grid_size() ==> r.1 == BracketEnd::Offset(
                (best_index + 1) as usize,
            ),
            bracket_position(r.0, 0) <= best_index <= bracket_position(
                r.1,
                self.spec_grid_size() - 1,
            ),
            bracket_position(r.1, self.spec_grid_size() - 1) - bracket_position(r.0, 0) <= 2,
            0 <= bracket_position(r.0, 0),
            bracket_position(r.1, self.spec_grid_size() - 1) < self.spec_grid_size(),
    {
        let lower = if best_index == 0 {
            BracketEnd::Keep
        } else {
            BracketEnd::Offset(best_index - 1)
        };
        let upper = if best_index + 1 >= self.grid_size {
            BracketEnd::Keep
        } else {
            BracketEnd::Offset(best_index + 1)
        };
        (lower, upper)
    }
}

/// The evaluation count of a search: each completed round evaluated
/// `grid_size` designs, so a search evaluates no more than `grid_size` times
/// `refinement_rounds` designs, a search that is over after at least one round
/// evaluated at least one grid, and a search that ran every round without a
/// zero step evaluated exactly `grid_size` times `refinement_rounds` designs
/// (all counts saturating at `usize::MAX`).
pub proof fn lemma_search_evaluations<U>(o: ContinuousDesignOptimizer<U>, p: RefinementProgress)
    requires
        o.search_consistent(p),
    ensures
        p.spec_evaluations() <= crate::estimator::saturate(
            o.spec_grid_size() * o.spec_refinement_rounds(),
        ),
        o.spec_grid_size() * o.spec_refinement_rounds() <= usize::MAX ==> p.spec_evaluations()
            == p.spec_rounds_done() * o.spec_grid_size(),
        p.spec_finished() && o.spec_refinement_rounds() > 0 ==> p.spec_evaluations()
            >= o.spec_grid_size(),
        p.spec_finished() && !p.spec_stopped_early() ==> p.spec_evaluations()
            == crate::estimator::saturate(o.spec_grid_size() * o.spec_refinement_rounds()),
{
    let r = p.spec_rounds_done() as int;
    let g = o.spec_grid_size() as int;
    let k = o.spec_refinement_rounds() as int;
    assert(r * g <= g * k) by (nonlinear_arith)
        requires
            0 <= r <= k,
            g >= 0,
    ;
    if p.spec_finished() && k > 0 {
        assert(r >= 1);
        assert(r * g >= g) by (nonlinear_arith)
            requires
                r >= 1,
                g >= 0,
        ;
    }
    if p.spec_finished() && !p.spec_stopped_early() {
        assert(r * g == g * k) by (nonlinear_arith)
            requires
                r == k,
        ;
    }
}

/// The best position of one round, given the expected utility of every grid
/// design in order. The round starts from negative infinity and a design
/// replaces the current best only when its utility is strictly greater, so
/// the result is the first position of greatest utility, or `None` (the
/// round keeps its lower end) when no utility exceeds negative infinity.
pub fn round_best_index(utilities: &[FloatKey]) -> (r: Option<usize>)
    ensures
        r is None <==> forall|j: int|
            0 <= j < utilities@.len() ==> !key_lt(neg_infinity_key(), #[trigger] utilities@[j]),
        r is Some ==> is_first_maximum(utilities@, r->0 as int),
{
    let mut best: Option<usize> = None;
    let mut best_key = FloatKey::neg_infinity();
    let mut i: usize = 0;
    while i < utilities.len()
        invariant
            i <= utilities@.len(),
            best is None ==> best_key == neg_infinity_key(),
            best is None <==> forall|j: int|
                0 <= j < i ==> !key_lt(neg_infinity_key(), #[trigger] utilities@[j]),
            best is Some ==> best->0 < i && best_key == utilities@[best->0 as int]
                && key_lt(neg_infinity_key(), best_key) && is_first_maximum(
                utilities@.subrange(0, i as int),
                best->0 as int,
            ),
        decreases utilities@.len() - i,
    {
        let prev_best = best;
        if best_key.lt(&utilities[i]) {
            best = Some(i);
            best_key = utilities[i];
        }
        proof {
            let prev = utilities@.subrange(0, i as int);
            let next = utilities@.subrange(0, i + 1);
            assert(forall|j: int| 0 <= j < i ==> next[j] == prev[j]);
            assert(next[i as int] == utilities@[i as int]);
            if best is Some {
                if prev_best is Some {
                    assert(is_first_maximum(next, best->0 as int));
                } else {
                    assert forall|j: int| 0 <= j < next.len() && next[j] is Ordered implies
                        key_le(next[j], next[best->0 as int]) by {
                        if j < i {
                            assert(!key_lt(neg_infinity_key(), utilities@[j]));
                        }
                    }
                    assert forall|j: int| 0 <= j < best->0 && next[j] is Ordered implies key_lt(
                        next[j],
                        next[best->0 as int],
                    ) by {
                        assert(!key_lt(neg_infinity_key(), utilities@[j]));
                    }
                }
            }
        }
        i = i + 1;
    }
    proof {
        assert(utilities@.subrange(0, utilities@.len() as int) =~= utilities@);
    }
    best
}

} // verus!
