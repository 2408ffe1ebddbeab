use boed::runtime::{
    boundary_mapping_continuous_optimizer, boundary_mapping_finite_optimizer,
    boundary_observation_possible, boundary_outcome, boundary_posterior, check_observation_study,
    history_records, parse_boundary_observation, boundary_posterior_summary, observe_boundary,
    posterior_particles, proposal_record, record_boundary_observation, study_summary,
    find_registered_runtime, parse_1d_design_point, parse_1d_particle, parse_boolean_observation,
    parse_scalar_design, parse_scalar_observation, plan_boundary_mapping, registered_model_types,
    DesignPlan, RegisteredRuntime, Scalar,
};
use boed::{
    BoedError, ContinuousDesignSpace, MonteCarloEstimator, ObservationRecord, ObservationSource,
    SequentialDesignRecord, SequentialDesignSession, DesignPoint, DesignSpaceSpec, DesignValue, FloatBits, FloatKey, Metadata,
    NamedValue, ObjectiveSpec, ObservationValue, ParameterVector, PosteriorRepresentation,
    PriorSpec, ProposalRecord, StoppingRule, StudyConfig, StudyStatus,
};

fn bits(x: f64) -> FloatBits {
    FloatBits(x.to_bits())
}

fn key(x: f64) -> FloatKey {
    FloatKey::from_bits(x.to_bits())
}

fn mapping_config() -> StudyConfig {
    StudyConfig {
        study_name: Some("mapping".into()),
        model_type: "boundary_mapping".into(),
        objective: ObjectiveSpec::ExpectedInformationGain,
        design_space: DesignSpaceSpec::ContinuousBox {
            bounds: vec![[bits(0.0), bits(1.0)]],
        },
        prior: PriorSpec::DiscreteSupport {
            support: vec![
                ObservationValue::Scalar(bits(0.2)),
                ObservationValue::Scalar(bits(0.4)),
                ObservationValue::Scalar(bits(0.6)),
                ObservationValue::Scalar(bits(0.8)),
            ],
        },
        stopping_rule: Some(StoppingRule::MaxSteps { steps: 20 }),
        metadata: Metadata::new(),
    }
}

fn support_values(support: &[f64]) -> Vec<FloatBits> {
    support.iter().map(|x| bits(*x)).collect()
}

fn posterior(design: f64, support: &[f64], observation: bool) -> Vec<f64> {
    boundary_posterior(bits(design), &support_values(support), observation)
        .into_iter()
        .map(|b| f64::from_bits(b.0))
        .collect()
}

#[test]
fn exposes_registered_model_types() {
    assert_eq!(registered_model_types(), &["boundary_mapping"]);
}

#[test]
fn model_types_resolve_through_the_registry() {
    assert_eq!(
        find_registered_runtime("boundary_mapping"),
        Ok(RegisteredRuntime::BoundaryMapping)
    );
    assert_eq!(
        find_registered_runtime("dose_selection"),
        Err(BoedError::UnsupportedStudyConfig(
            "no registered runtime supports this model_type"
        ))
    );
    assert!(find_registered_runtime("boundary_mappin").is_err());
    assert!(find_registered_runtime("").is_err());
}

#[test]
fn observations_of_another_study_are_refused() {
    assert_eq!(check_observation_study("study-3", "study-3"), Ok(()));
    assert_eq!(
        check_observation_study("study-3", "study-4"),
        Err(BoedError::InvalidObservation)
    );
}

#[test]
fn scalar_designs_are_parsed() {
    assert_eq!(
        parse_scalar_design(&[DesignValue::Number(bits(0.5))]),
        Ok(Scalar::Number(bits(0.5)))
    );
    assert_eq!(
        parse_scalar_design(&[DesignValue::Integer(3)]),
        Ok(Scalar::Integer(3))
    );
    assert_eq!(
        parse_scalar_design(&[]),
        Err(BoedError::InvalidStudyConfig("expected a one-dimensional design value"))
    );
    assert_eq!(
        parse_scalar_design(&[DesignValue::Integer(1), DesignValue::Integer(2)]),
        Err(BoedError::InvalidStudyConfig("expected a one-dimensional design value"))
    );
    assert_eq!(
        parse_scalar_design(&[DesignValue::Text("x".into())]),
        Err(BoedError::InvalidStudyConfig("expected a numeric design value"))
    );
    let point = DesignPoint {
        values: vec![DesignValue::Boolean(true)],
        label: None,
        metadata: Metadata::new(),
    };
    assert_eq!(
        parse_1d_design_point(&point),
        Err(BoedError::InvalidStudyConfig("expected a numeric design value"))
    );
}

#[test]
fn particles_and_support_points_are_parsed() {
    let particle = ParameterVector::Continuous {
        values: vec![bits(0.25)],
        names: vec!["x".into()],
    };
    assert_eq!(parse_1d_particle(&particle), Ok(Scalar::Number(bits(0.25))));
    let named = ParameterVector::Named {
        values: vec![NamedValue {
            name: "x".into(),
            value: bits(0.75),
        }],
    };
    assert_eq!(parse_1d_particle(&named), Ok(Scalar::Number(bits(0.75))));
    let two_d = ParameterVector::Continuous {
        values: vec![bits(0.2), bits(0.7)],
        names: vec!["x".into(), "y".into()],
    };
    assert_eq!(
        parse_1d_particle(&two_d),
        Err(BoedError::InvalidStudyConfig(
            "boundary_mapping particles must be one-dimensional"
        ))
    );
    assert_eq!(
        parse_scalar_observation(&ObservationValue::Integer(4)),
        Ok(Scalar::Integer(4))
    );
    assert_eq!(
        parse_scalar_observation(&ObservationValue::Boolean(true)),
        Err(BoedError::InvalidStudyConfig(
            "boundary_mapping discrete support must contain numeric values"
        ))
    );
}

#[test]
fn observations_must_be_boolean() {
    assert_eq!(
        parse_boolean_observation(&ObservationValue::Boolean(false)),
        Ok(false)
    );
    assert_eq!(
        parse_boolean_observation(&ObservationValue::Scalar(bits(1.0))),
        Err(BoedError::InvalidObservation)
    );
}

#[test]
fn supported_config_gives_a_continuous_plan() {
    let plan = plan_boundary_mapping(&mapping_config()).unwrap();
    assert_eq!(
        plan.support,
        vec![
            Scalar::Number(bits(0.2)),
            Scalar::Number(bits(0.4)),
            Scalar::Number(bits(0.6)),
            Scalar::Number(bits(0.8)),
        ]
    );
    assert_eq!(
        plan.design,
        DesignPlan::Continuous {
            space: ContinuousDesignSpace::new(bits(0.0), bits(1.0)).unwrap()
        }
    );
    assert_eq!(plan.estimator.sample_count(), 128);
}

#[test]
fn finite_designs_and_particles_give_a_finite_plan() {
    let mut config = mapping_config();
    config.prior = PriorSpec::DiscreteParticles {
        particles: vec![ParameterVector::Continuous {
            values: vec![bits(0.3)],
            names: vec!["boundary".into()],
        }],
        weights: vec![bits(1.0)],
    };
    config.design_space = DesignSpaceSpec::FiniteSet {
        points: vec![
            DesignPoint {
                values: vec![DesignValue::Integer(1)],
                label: None,
                metadata: Metadata::new(),
            },
            DesignPoint {
                values: vec![DesignValue::Number(bits(0.5))],
                label: Some("half".into()),
                metadata: Metadata::new(),
            },
        ],
    };
    let plan = plan_boundary_mapping(&config).unwrap();
    assert_eq!(plan.support, vec![Scalar::Number(bits(0.3))]);
    assert_eq!(
        plan.design,
        DesignPlan::Finite {
            candidates: vec![Scalar::Integer(1), Scalar::Number(bits(0.5))]
        }
    );
}

#[test]
fn config_errors_come_in_order() {
    let mut config = mapping_config();
    config.objective = ObjectiveSpec::Custom {
        name: "entropy".into(),
        parameters: Metadata::new(),
    };
    config.prior = PriorSpec::DiscreteSupport { support: vec![] };
    assert_eq!(
        plan_boundary_mapping(&config),
        Err(BoedError::UnsupportedStudyConfig(
            "boundary_mapping currently supports only the expected_information_gain objective"
        ))
    );

    let mut config = mapping_config();
    config.prior = PriorSpec::Independent { marginals: vec![] };
    assert_eq!(
        plan_boundary_mapping(&config),
        Err(BoedError::UnsupportedStudyConfig(
            "boundary_mapping supports only discrete_support or discrete_particles priors"
        ))
    );

    let mut config = mapping_config();
    config.prior = PriorSpec::DiscreteSupport {
        support: vec![
            ObservationValue::Scalar(bits(0.2)),
            ObservationValue::Text("far".into()),
        ],
    };
    config.design_space = DesignSpaceSpec::ContinuousBox { bounds: vec![] };
    assert_eq!(
        plan_boundary_mapping(&config),
        Err(BoedError::InvalidStudyConfig(
            "boundary_mapping discrete support must contain numeric values"
        ))
    );

    let mut config = mapping_config();
    config.design_space = DesignSpaceSpec::ContinuousBox {
        bounds: vec![[bits(0.0), bits(1.0)], [bits(0.0), bits(1.0)]],
    };
    assert_eq!(
        plan_boundary_mapping(&config),
        Err(BoedError::UnsupportedStudyConfig(
            "boundary_mapping continuous design space must be one-dimensional"
        ))
    );

    let mut config = mapping_config();
    config.design_space = DesignSpaceSpec::ContinuousBox {
        bounds: vec![[bits(1.0), bits(0.0)]],
    };
    config.prior = PriorSpec::DiscreteSupport { support: vec![] };
    assert_eq!(
        plan_boundary_mapping(&config),
        Err(BoedError::InvalidContinuousBounds)
    );

    let mut config = mapping_config();
    config.design_space = DesignSpaceSpec::Mixed {
        continuous: vec![],
        discrete: vec![],
    };
    assert_eq!(
        plan_boundary_mapping(&config),
        Err(BoedError::UnsupportedStudyConfig(
            "boundary_mapping supports only one-dimensional continuous_box or finite_set designs"
        ))
    );

    let mut config = mapping_config();
    config.prior = PriorSpec::DiscreteSupport { support: vec![] };
    assert_eq!(
        plan_boundary_mapping(&config),
        Err(BoedError::InvalidStudyConfig(
            "boundary_mapping prior support must not be empty"
        ))
    );
}

#[test]
fn first_bad_design_point_decides_the_error() {
    let mut config = mapping_config();
    config.design_space = DesignSpaceSpec::FiniteSet {
        points: vec![
            DesignPoint {
                values: vec![],
                label: None,
                metadata: Metadata::new(),
            },
            DesignPoint {
                values: vec![DesignValue::Text("x".into())],
                label: None,
                metadata: Metadata::new(),
            },
        ],
    };
    assert_eq!(
        plan_boundary_mapping(&config),
        Err(BoedError::InvalidStudyConfig("expected a one-dimensional design value"))
    );
}

#[test]
fn probe_reports_whether_it_lies_below_the_boundary() {
    assert!(boundary_outcome(key(0.3), key(0.4)));
    assert!(boundary_outcome(key(0.4), key(0.4)));
    assert!(!boundary_outcome(key(0.5), key(0.4)));
    assert!(!boundary_outcome(key(f64::NAN), key(0.4)));
    assert!(boundary_observation_possible(key(0.5), key(0.4), false));
    assert!(!boundary_observation_possible(key(0.5), key(0.4), true));
}

#[test]
fn posterior_keeps_the_consistent_support_points() {
    let support = [0.2, 0.4, 0.6, 0.8];
    assert_eq!(posterior(0.5, &support, true), vec![0.6, 0.8]);
    assert_eq!(posterior(0.5, &support, false), vec![0.2, 0.4]);
    assert_eq!(posterior(0.4, &support, true), vec![0.4, 0.6, 0.8]);
}

#[test]
fn repeating_an_observation_changes_nothing() {
    let support = [0.2, 0.4, 0.6, 0.8];
    let once = posterior(0.5, &support, true);
    assert_eq!(posterior(0.5, &once, true), once);
}

#[test]
fn observations_commute() {
    let support = [0.1, 0.2, 0.4, 0.6, 0.8, 0.9];
    let first = posterior(0.7, &posterior(0.3, &support, true), false);
    let second = posterior(0.3, &posterior(0.7, &support, false), true);
    assert_eq!(first, second);
    assert_eq!(first, vec![0.4, 0.6]);
}

#[test]
fn posterior_may_become_empty() {
    assert_eq!(posterior(0.9, &[0.2, 0.4], true), Vec::<f64>::new());
}

#[test]
fn the_boundary_that_answered_is_never_eliminated() {
    let support = [0.1, 0.3, 0.5, 0.7, 0.9];
    for boundary in support {
        for design in [0.0, 0.3, 0.45, 0.9, 1.0] {
            let observation = boundary_outcome(key(design), key(boundary));
            assert!(posterior(design, &support, observation).contains(&boundary));
        }
    }
}

#[test]
fn mapping_session_narrows_the_support_step_by_step() {
    let mut session: SequentialDesignSession<Vec<f64>, f64, bool> =
        SequentialDesignSession::new(vec![0.2, 0.4, 0.6, 0.8]);
    for (design, observation) in [(0.5, true), (0.7, false)] {
        let next = posterior(design, session.model(), observation);
        session.record_step(next, design, observation);
    }
    assert_eq!(session.model(), &vec![0.6]);
    assert_eq!(session.step_count(), 2);
    assert_eq!(session.history()[1].step_index, 1);
    assert_eq!(session.history()[1].design, 0.7);
    assert!(!session.history()[1].observation);
}

#[test]
fn mapping_studies_use_fixed_optimizer_settings() {
    let continuous = boundary_mapping_continuous_optimizer(MonteCarloEstimator::new(128));
    assert_eq!(continuous.grid_size(), 9);
    assert_eq!(continuous.refinement_rounds(), 5);
    assert_eq!(continuous.estimator().sample_count(), 128);
    let finite = boundary_mapping_finite_optimizer(MonteCarloEstimator::new(64));
    assert_eq!(finite.estimator().sample_count(), 64);
}

#[test]
fn integer_support_points_stay_integers_in_the_plan() {
    let mut config = mapping_config();
    config.prior = PriorSpec::DiscreteSupport {
        support: vec![ObservationValue::Integer(-2), ObservationValue::Scalar(bits(3.5))],
    };
    let plan = plan_boundary_mapping(&config).unwrap();
    assert_eq!(
        plan.support,
        vec![Scalar::Integer(-2), Scalar::Number(bits(3.5))]
    );
}

#[test]
fn observation_records_are_checked_in_order() {
    let record = |study: &str, design: Vec<DesignValue>, observation: ObservationValue| {
        ObservationRecord {
            study_id: study.into(),
            step_index: 0,
            design,
            observation,
            source: ObservationSource::ManualEntry,
            recorded_at: None,
            metadata: Metadata::new(),
        }
    };
    assert_eq!(
        parse_boundary_observation(
            "study-1",
            &record("study-1", vec![DesignValue::Number(bits(0.5))], ObservationValue::Boolean(true))
        ),
        Ok((Scalar::Number(bits(0.5)), true))
    );
    assert_eq!(
        parse_boundary_observation(
            "study-1",
            &record("study-2", vec![], ObservationValue::Integer(1))
        ),
        Err(BoedError::InvalidObservation)
    );
    assert_eq!(
        parse_boundary_observation(
            "study-1",
            &record("study-1", vec![], ObservationValue::Integer(1))
        ),
        Err(BoedError::InvalidStudyConfig("expected a one-dimensional design value"))
    );
    assert_eq!(
        parse_boundary_observation(
            "study-1",
            &record("study-1", vec![DesignValue::Integer(2)], ObservationValue::Integer(1))
        ),
        Err(BoedError::InvalidObservation)
    );
}

#[test]
fn history_is_reported_as_api_records() {
    let steps = vec![
        SequentialDesignRecord {
            step_index: 0,
            design: bits(0.5),
            observation: true,
        },
        SequentialDesignRecord {
            step_index: 1,
            design: bits(0.75),
            observation: false,
        },
    ];
    let records = history_records("study-9", &steps);
    assert_eq!(records.len(), 2);
    assert_eq!(
        records[1],
        ObservationRecord {
            study_id: "study-9".into(),
            step_index: 1,
            design: vec![DesignValue::Number(bits(0.75))],
            observation: ObservationValue::Boolean(false),
            source: ObservationSource::Api,
            recorded_at: None,
            metadata: Metadata::new(),
        }
    );
    assert_eq!(records[0].step_index, 0);
    assert!(history_records("study-9", &[]).is_empty());
}

fn integer_design(value: i64) -> FloatBits {
    bits(value as f64)
}

fn observation(study: &str, design: DesignValue, outcome: bool) -> ObservationRecord {
    ObservationRecord {
        study_id: study.into(),
        step_index: 7,
        design: vec![design],
        observation: ObservationValue::Boolean(outcome),
        source: ObservationSource::ManualEntry,
        recorded_at: None,
        metadata: Metadata::new(),
    }
}

#[test]
fn recording_an_observation_keeps_the_consistent_support() {
    let mut session: SequentialDesignSession<Vec<FloatBits>, FloatBits, bool> =
        SequentialDesignSession::new(support_values(&[0.2, 0.4, 0.6, 0.8]));
    record_boundary_observation(&mut session, bits(0.5), true);
    assert_eq!(session.model(), &support_values(&[0.6, 0.8]));
    record_boundary_observation(&mut session, bits(0.7), false);
    assert_eq!(session.model(), &support_values(&[0.6]));
    assert_eq!(session.step_count(), 2);
    assert_eq!(session.history()[1].step_index, 1);
    assert_eq!(session.history()[1].design, bits(0.7));
    assert!(!session.history()[1].observation);
}

#[test]
fn observing_a_record_updates_the_session() {
    let mut session: SequentialDesignSession<Vec<FloatBits>, FloatBits, bool> =
        SequentialDesignSession::new(support_values(&[0.5, 1.5, 2.5, 3.5]));
    let accepted = observe_boundary(
        &mut session,
        "study-3",
        &observation("study-3", DesignValue::Integer(2), true),
        integer_design,
    );
    assert_eq!(accepted, Ok(()));
    assert_eq!(session.model(), &support_values(&[2.5, 3.5]));
    assert_eq!(session.history()[0].step_index, 0);
    assert_eq!(session.history()[0].design, bits(2.0));
    let accepted = observe_boundary(
        &mut session,
        "study-3",
        &observation("study-3", DesignValue::Number(bits(3.0)), false),
        integer_design,
    );
    assert_eq!(accepted, Ok(()));
    assert_eq!(session.model(), &support_values(&[2.5]));
    assert_eq!(session.step_count(), 2);
}

#[test]
fn refused_records_leave_the_session_unchanged() {
    let mut session: SequentialDesignSession<Vec<FloatBits>, FloatBits, bool> =
        SequentialDesignSession::new(support_values(&[0.2, 0.4]));
    assert_eq!(
        observe_boundary(
            &mut session,
            "study-3",
            &observation("study-4", DesignValue::Number(bits(0.3)), true),
            integer_design,
        ),
        Err(BoedError::InvalidObservation)
    );
    assert_eq!(
        observe_boundary(
            &mut session,
            "study-3",
            &observation("study-3", DesignValue::Text("x".into()), true),
            integer_design,
        ),
        Err(BoedError::InvalidStudyConfig("expected a numeric design value"))
    );
    assert_eq!(session.model(), &support_values(&[0.2, 0.4]));
    assert_eq!(session.step_count(), 0);
}

#[test]
fn replaying_the_history_gives_the_same_session() {
    let prior = support_values(&[0.1, 0.3, 0.5, 0.7, 0.9]);
    let mut first: SequentialDesignSession<Vec<FloatBits>, FloatBits, bool> =
        SequentialDesignSession::new(prior.clone());
    for (design, outcome) in [(0.2, true), (0.8, false), (0.4, true)] {
        record_boundary_observation(&mut first, bits(design), outcome);
    }
    let records = history_records("study-5", first.history());
    let mut second: SequentialDesignSession<Vec<FloatBits>, FloatBits, bool> =
        SequentialDesignSession::new(prior);
    for (record, step) in records.iter().zip(first.history()) {
        assert_eq!(
            parse_boundary_observation("study-5", record),
            Ok((Scalar::Number(step.design), step.observation))
        );
        assert_eq!(observe_boundary(&mut second, "study-5", record, integer_design), Ok(()));
    }
    assert_eq!(second.model(), first.model());
    assert_eq!(second.model(), &support_values(&[0.5, 0.7]));
    assert_eq!(history_records("study-5", second.history()), records);
}

#[test]
fn posterior_particles_carry_one_named_value_each() {
    let particles = posterior_particles(&support_values(&[0.25, 0.75]));
    assert_eq!(
        particles,
        vec![
            ParameterVector::Continuous { values: vec![bits(0.25)], names: vec!["boundary".into()] },
            ParameterVector::Continuous { values: vec![bits(0.75)], names: vec!["boundary".into()] },
        ]
    );
    assert!(posterior_particles(&[]).is_empty());
}

#[test]
fn posterior_summary_weights_every_particle_alike() {
    let summary = boundary_posterior_summary("study-2", 3, &support_values(&[0.1, 0.2, 0.3, 0.4]), bits(0.25));
    assert_eq!(summary.study_id, "study-2");
    assert_eq!(summary.step_index, 3);
    assert!(summary.metadata.is_empty());
    match summary.representation {
        PosteriorRepresentation::Particles { particles, weights } => {
            assert_eq!(particles.len(), 4);
            assert_eq!(
                particles[2],
                ParameterVector::Continuous { values: vec![bits(0.3)], names: vec!["boundary".into()] }
            );
            assert_eq!(weights, vec![bits(0.25); 4]);
        }
        other => panic!("unexpected representation {:?}", other),
    }
}

#[test]
fn proposals_carry_the_design_and_the_objective() {
    let proposal = proposal_record(
        "study-8",
        2,
        bits(0.625),
        bits(0.5),
        ObjectiveSpec::ExpectedInformationGain,
    );
    assert_eq!(
        proposal,
        ProposalRecord {
            study_id: "study-8".into(),
            step_index: 2,
            design: vec![DesignValue::Number(bits(0.625))],
            expected_utility: bits(0.5),
            objective: ObjectiveSpec::ExpectedInformationGain,
            metadata: Metadata::new(),
        }
    );
}

#[test]
fn study_summary_reports_the_configuration() {
    let config = mapping_config();
    let summary = study_summary("study-4", config.clone(), 6, StudyStatus::Active);
    assert_eq!(summary.study_id, "study-4");
    assert_eq!(summary.study_name, Some("mapping".to_string()));
    assert_eq!(summary.model_type, "boundary_mapping");
    assert_eq!(summary.objective, ObjectiveSpec::ExpectedInformationGain);
    assert_eq!(summary.step_count, 6);
    assert_eq!(summary.status, StudyStatus::Active);
    assert_eq!(summary.metadata, config.metadata);
}
