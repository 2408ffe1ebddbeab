use vstd::prelude::*;

verus! {

/// Errors returned by BOED estimation and optimization routines.
#[derive(Debug, Clone, PartialEq, Eq)]
pub enum BoedError {
    EmptyCandidateSet,
    InvalidContinuousBounds,
    InvalidObservation,
    InvalidRefinementGrid,
    InvalidRefinementRounds,
    InvalidStudyConfig(&'static str),
    UnsupportedStudyConfig(&'static str),
    ZeroSamples,
}

/// The human-readable text of an error.
pub open spec fn error_message(e: BoedError) -> Seq<char> {
    match e {
        BoedError::EmptyCandidateSet => "candidate design set is empty"@,
        BoedError::InvalidContinuousBounds => "continuous design bounds must be finite and ordered"@,
        BoedError::InvalidObservation => "observation does not match the study model"@,
        BoedError::InvalidRefinementGrid => "continuous optimizer requires a refinement grid of at least 3 points"@,
        BoedError::InvalidRefinementRounds => "continuous optimizer requires at least one refinement round"@,
        BoedError::InvalidStudyConfig(message) => message@,
        BoedError::UnsupportedStudyConfig(message) => message@,
        BoedError::ZeroSamples => "monte carlo estimator requires at least one sample"@,
    }
}

impl BoedError {
    /// The text that `Display` shows for this error.
    pub fn message(&self) -> (text: &'static str)
        ensures
            text@ == error_message(*self),
    {
        match self {
            BoedError::EmptyCandidateSet => "candidate design set is empty",
            BoedError::InvalidContinuousBounds => "continuous design bounds must be finite and ordered",
            BoedError::InvalidObservation => "observation does not match the study model",
            BoedError::InvalidRefinementGrid => "continuous optimizer requires a refinement grid of at least 3 points",
            BoedError::InvalidRefinementRounds => "continuous optimizer requires at least one refinement round",
            BoedError::InvalidStudyConfig(message) => message,
            BoedError::UnsupportedStudyConfig(message) => message,
            BoedError::ZeroSamples => "monte carlo estimator requires at least one sample",
        }
    }
}

} // verus!
