use boed::BoedError;

#[test]
fn every_error_has_its_message() {
    let cases = [
        (BoedError::EmptyCandidateSet, "candidate design set is empty"),
        (
            BoedError::InvalidContinuousBounds,
            "continuous design bounds must be finite and ordered",
        ),
        (
            BoedError::InvalidObservation,
            "observation does not match the study model",
        ),
        (
            BoedError::InvalidRefinementGrid,
            "continuous optimizer requires a refinement grid of at least 3 points",
        ),
        (
            BoedError::InvalidRefinementRounds,
            "continuous optimizer requires at least one refinement round",
        ),
        (
            BoedError::InvalidStudyConfig("bad config"),
            "bad config",
        ),
        (
            BoedError::UnsupportedStudyConfig("unsupported config"),
            "unsupported config",
        ),
        (
            BoedError::ZeroSamples,
            "monte carlo estimator requires at least one sample",
        ),
    ];
    for (error, message) in cases {
        assert_eq!(error.message(), message);
    }
}
