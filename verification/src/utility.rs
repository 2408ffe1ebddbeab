use vstd::prelude::*;

verus! {

/// Expected information gain utility: `log p(y | theta, d) - log p(y | d)`,
/// where the evidence `p(y | d)` is estimated from a separate set of prior
/// draws.
#[derive(Debug, Clone, Copy, Default)]
pub struct ExpectedInformationGain;

} // verus!
