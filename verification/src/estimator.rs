use vstd::prelude::*;

use crate::error::BoedError;

verus! {

/// `x`, saturated at `usize::MAX` (for `x >= 0`).
pub open spec fn saturate(x: int) -> int {
    if x > usize::MAX {
        usize::MAX as int
    } else {
        x
    }
}

/// The first prior draw index of the block of evidence draws that belongs to
/// outer draw `outer` of an estimate with `n` samples.
pub open spec fn evidence_block_start(outer: usize, n: usize) -> int {
    saturate(n * saturate(outer + 1))
}

/// The prior draw index of inner draw `inner` of the evidence block of outer
/// draw `outer`.
pub open spec fn evidence_draw(outer: usize, inner: usize, n: usize) -> int {
    saturate(evidence_block_start(outer, n) + inner)
}

/// The observation draw index that goes with outer draw `draw`.
pub open spec fn observation_draw(draw: usize, n: usize) -> int {
    saturate(saturate(n * saturate(n + 1)) + draw)
}

/// A simple Monte Carlo expected utility estimator.
#[derive(Debug, Clone, Copy, PartialEq, Eq)]
pub struct MonteCarloEstimator {
    sample_count: usize,
}

impl MonteCarloEstimator {
    /// The number of outer (and of inner) draws of one estimate.
    pub closed spec fn samples(self) -> usize {
        self.sample_count
    }

    pub fn new(sample_count: usize) -> (e: Self)
        ensures
            e.samples() == sample_count,
    {
        Self { sample_count }
    }

    pub fn sample_count(&self) -> (n: usize)
        ensures
            n == self.samples(),
    {
        self.sample_count
    }

    /// The check that an estimate makes before it draws anything: it needs at
    /// least one sample.
    pub fn check_samples(&self) -> (r: Result<(), BoedError>)
        ensures
            r is Err <==> self.samples() == 0,
            r is Err ==> r == Err::<(), BoedError>(BoedError::ZeroSamples),
    {
        if self.sample_count == 0 {
            Err(BoedError::ZeroSamples)
        } else {
            Ok(())
        }
    }

    /// The prior draw indices of the evidence samples for outer draw `outer`:
    /// one block of `sample_count` consecutive indices per outer draw, placed
    /// after the outer draws `0..sample_count`.
    pub fn evidence_draw_indices(&self, outer: usize) -> (indices: Vec<usize>)
        ensures
            indices@.len() == self.samples(),
            forall|k: int|
                0 <= k < indices@.len() ==> indices@[k] == evidence_draw(
                    outer,
                    k as usize,
                    self.samples(),
                ),
    {
        evidence_draw_indices(outer, self.sample_count)
    }
}

fn saturating_mul(a: usize, b: usize) -> (r: usize)
    ensures
        r == saturate(a * b),
{
    match a.checked_mul(b) {
        Some(v) => v,
        None => usize::MAX,
    }
}

/// The observation draw index that goes with outer draw `draw_index` of an
/// estimate with `sample_count` samples: it lies after every prior draw index
/// that the estimate uses.
pub fn observation_draw_index(draw_index: usize, sample_count: usize) -> (r: usize)
    ensures
        r == observation_draw(draw_index, sample_count),
{
    saturating_mul(sample_count, sample_count.saturating_add(1)).saturating_add(draw_index)
}

/// The prior draw indices of the evidence samples for outer draw `outer` of an
/// estimate with `sample_count` samples.
pub fn evidence_draw_indices(outer: usize, sample_count: usize) -> (indices: Vec<usize>)
    ensures
        indices@.len() == sample_count,
        forall|k: int|
            0 <= k < indices@.len() ==> indices@[k] == evidence_draw(outer, k as usize, sample_count),
{
    let start = saturating_mul(sample_count, outer.saturating_add(1));
    let mut indices: Vec<usize> = Vec::new();
    let mut inner: usize = 0;
    while inner < sample_count
        invariant
            inner <= sample_count,
            start == evidence_block_start(outer, sample_count),
            indices@.len() == inner,
            forall|k: int|
                0 <= k < indices@.len() ==> indices@[k] == evidence_draw(
                    outer,
                    k as usize,
                    sample_count,
                ),
        decreases sample_count - inner,
    {
        indices.push(start.saturating_add(inner));
        inner = inner + 1;
    }
    indices
}

proof fn lemma_block_bounds(n: nat, i: nat, a: nat)
    requires
        a < n,
    ensures
        n <= n * (i + 1) + a,
        n * (i + 1) + a < n * (i + 2),
{
    assert(n * (i + 1) == n * i + n) by (nonlinear_arith);
    assert(n * (i + 2) == n * (i + 1) + n) by (nonlinear_arith);
    assert(n * i >= 0) by (nonlinear_arith);
}

proof fn lemma_blocks_ordered(n: nat, i: nat, j: nat)
    requires
        i < j,
    ensures
        n * (i + 2) <= n * (j + 1),
{
    assert(n * (i + 2) <= n * (j + 1)) by (nonlinear_arith)
        requires
            i + 2 <= j + 1,
    ;
}

/// The estimate's draws are independent: when no index saturates
/// (`n * (n + 2) <= usize::MAX`), the outer prior draws `0..n`, the evidence
/// prior draws of every outer draw, and the observation draws are all distinct
/// indices. The evidence draws of outer draw `i` are `n * (i + 1) + a`, and the
/// observation draw of outer draw `i` is `n * (n + 1) + i`.
pub proof fn lemma_draw_streams_are_separate(n: usize)
    requires
        n * (n + 2) <= usize::MAX,
    ensures
        forall|i: usize, a: usize|
            i < n && a < n ==> #[trigger] evidence_draw(i, a, n) == n * (i + 1) + a,
        forall|i: usize| i < n ==> #[trigger] observation_draw(i, n) == n * (n + 1) + i,
        forall|i: usize, a: usize|
            i < n && a < n ==> n <= #[trigger] evidence_draw(i, a, n) < n * (n + 1),
        forall|i: usize, a: usize, j: usize, b: usize|
            i < n && a < n && j < n && b < n && #[trigger] evidence_draw(i, a, n)
                == #[trigger] evidence_draw(j, b, n) ==> i == j && a == b,
        forall|i: usize, j: usize|
            i < n && j < n && #[trigger] observation_draw(i, n) == #[trigger] observation_draw(j, n)
                ==> i == j,
{
    assert(n * (n + 1) + n == n * (n + 2)) by (nonlinear_arith);
    assert(n * (n + 1) <= n * (n + 2)) by (nonlinear_arith);
    assert forall|i: usize, a: usize| i < n && a < n implies #[trigger] evidence_draw(i, a, n) == n
        * (i + 1) + a && n <= evidence_draw(i, a, n) < n * (n + 1) by {
        lemma_block_bounds(n as nat, i as nat, a as nat);
        lemma_blocks_ordered(n as nat, i as nat, n as nat);
        assert(n * (i + 1) <= n * (n + 1)) by (nonlinear_arith)
            requires
                i < n,
        ;
    }
    assert(n + 1 <= usize::MAX) by {
        if n > 0 {
            assert(n + 1 <= n * (n + 2)) by (nonlinear_arith)
                requires
                    n > 0,
            ;
        }
    }
    assert forall|i: usize| i < n implies #[trigger] observation_draw(i, n) == n * (n + 1) + i by {}
    assert forall|i: usize, a: usize, j: usize, b: usize|
        i < n && a < n && j < n && b < n && #[trigger] evidence_draw(i, a, n)
            == #[trigger] evidence_draw(j, b, n) implies i == j && a == b by {
        lemma_block_bounds(n as nat, i as nat, a as nat);
        lemma_block_bounds(n as nat, j as nat, b as nat);
        if i < j {
            lemma_blocks_ordered(n as nat, i as nat, j as nat);
        } else if j < i {
            lemma_blocks_ordered(n as nat, j as nat, i as nat);
        }
    }
}

} // verus!
