use vstd::prelude::*;

use crate::config::{
    DesignPoint, DesignSpaceSpec, DesignValue, FloatBits, Metadata, ObjectiveSpec,
    ObservationRecord, ObservationSource, ObservationValue, ParameterVector, PosteriorRepresentation,
    PosteriorSummary, PriorSpec, ProposalRecord, StudyConfig, StudyStatus, StudySummary,
};
use crate::sequential::{SequentialDesignRecord, SequentialDesignSession};
use crate::continuous::{valid_bounds, ContinuousDesignSpace};
use crate::error::BoedError;
use crate::continuous::ContinuousDesignOptimizer;
use crate::estimator::MonteCarloEstimator;
use crate::optimization::DesignOptimizer;
use crate::utility::ExpectedInformationGain;
use crate::float_order::{ieee_le, key_le, key_of_bits, lemma_key_order_is_ieee_order, FloatKey};

verus! {

/// The model type of the one registered high-level runtime.
pub open spec fn boundary_mapping_name() -> Seq<char> {
    "boundary_mapping"@
}

/// The message of the error for a model type without a registered runtime.
pub open spec fn unregistered_message() -> Seq<char> {
    "no registered runtime supports this model_type"@
}

/// The runtimes that a study configuration can select by its `model_type`.
#[derive(Debug, Clone, Copy, PartialEq, Eq)]
pub enum RegisteredRuntime {
    BoundaryMapping,
}

/// The model types that have a registered runtime.
pub fn registered_model_types() -> (types: &'static [&'static str])
    ensures
        types@.len() == 1,
        types@[0]@ == boundary_mapping_name(),
{
    proof {
        reveal_strlit("boundary_mapping");
    }
    &["boundary_mapping"]
}

fn same_text(a: &str, b: &str) -> (r: bool)
    ensures
        r == (a@ == b@),
{
    let a_len = a.unicode_len();
    let b_len = b.unicode_len();
    if a_len != b_len {
        return false;
    }
    let mut i: usize = 0;
    while i < a_len
        invariant
            i <= a_len,
            a_len == a@.len(),
            b_len == b@.len(),
            a_len == b_len,
            forall|j: int| 0 <= j < i ==> a@[j] == b@[j],
        decreases a_len - i,
    {
        if a.get_char(i) != b.get_char(i) {
            return false;
        }
        i = i + 1;
    }
    proof {
        assert(a@ =~= b@);
    }
    true
}

/// The runtime registered for `model_type`, looked up in the registry of
/// model types; `UnsupportedStudyConfig` when none is registered.
pub fn find_registered_runtime(model_type: &str) -> (r: Result<RegisteredRuntime, BoedError>)
    ensures
        model_type@ == boundary_mapping_name() ==> r == Ok::<RegisteredRuntime, BoedError>(
            RegisteredRuntime::BoundaryMapping,
        ),
        model_type@ != boundary_mapping_name() ==> (r matches Err(
            BoedError::UnsupportedStudyConfig(message),
        ) && message@ == unregistered_message()),
{
    let types = registered_model_types();
    let mut i: usize = 0;
    while i < types.len()
        invariant
            i <= types@.len(),
            types@.len() == 1,
            types@[0]@ == boundary_mapping_name(),
            i > 0 ==> model_type@ != boundary_mapping_name(),
        decreases types@.len() - i,
    {
        if same_text(model_type, types[i]) {
            return Ok(RegisteredRuntime::BoundaryMapping);
        }
        i = i + 1;
    }
    proof {
        reveal_strlit("no registered runtime supports this model_type");
    }
    Err(BoedError::UnsupportedStudyConfig("no registered runtime supports this model_type"))
}

/// The check that an observation record belongs to the session it is given
/// to: `InvalidObservation` unless the study ids are equal.
pub fn check_observation_study(study_id: &str, observed_study_id: &str) -> (r: Result<
    (),
    BoedError,
>)
    ensures
        r is Ok <==> study_id@ == observed_study_id@,
        r is Err ==> r == Err::<(), BoedError>(BoedError::InvalidObservation),
{
    if same_text(study_id, observed_study_id) {
        Ok(())
    } else {
        Err(BoedError::InvalidObservation)
    }
}

/// Whether the boundary-mapping model predicts the observation `observation`
/// for a probe at `design` when the boundary is at `parameter`: a probe
/// reports `true` exactly when `design <= parameter`.
pub open spec fn boundary_consistent(design: FloatKey, parameter: FloatKey, observation: bool) -> bool {
    key_le(design, parameter) == observation
}

/// The simulated outcome of probing `design` when the boundary is at
/// `parameter`: `design <= parameter`.
pub fn boundary_outcome(design: FloatKey, parameter: FloatKey) -> (r: bool)
    ensures
        r == key_le(design, parameter),
{
    design.le(&parameter)
}

/// Whether `observation` at `design` is possible with the boundary at
/// `parameter`; its log likelihood is 0 when it is and negative infinity
/// when it is not.
pub fn boundary_observation_possible(design: FloatKey, parameter: FloatKey, observation: bool) -> (r:
    bool)
    ensures
        r == boundary_consistent(design, parameter, observation),
        r == (key_le(design, parameter) == observation),
{
    design.le(&parameter) == observation
}

/// Whether a support point (by its bit pattern) survives observing
/// `observation` at `design`: the probe's simulated outcome agrees with it,
/// which is when its log likelihood is 0 rather than negative infinity.
pub open spec fn point_consistent(design: FloatBits, point: FloatBits, observation: bool) -> bool {
    boundary_consistent(key_of_bits(design.0), key_of_bits(point.0), observation)
}

/// The posterior support of the boundary-mapping model after observing
/// `observation` at `design`: the support points consistent with it, in
/// their order.
pub open spec fn posterior_support(design: FloatBits, support: Seq<FloatBits>, observation: bool) -> Seq<
    FloatBits,
>
    decreases support.len(),
{
    if support.len() == 0 {
        Seq::empty()
    } else {
        let rest = posterior_support(design, support.drop_last(), observation);
        if point_consistent(design, support.last(), observation) {
            rest.push(support.last())
        } else {
            rest
        }
    }
}

/// The posterior holds exactly the consistent support points, and is never
/// longer than the support.
pub proof fn lemma_posterior_members(design: FloatBits, support: Seq<FloatBits>, observation: bool)
    ensures
        posterior_support(design, support, observation).len() <= support.len(),
        forall|x: FloatBits|
            #[trigger] posterior_support(design, support, observation).contains(x) <==> (
            support.contains(x) && point_consistent(design, x, observation)),
    decreases support.len(),
{
    if support.len() > 0 {
        let prefix = support.drop_last();
        lemma_posterior_members(design, prefix, observation);
        let rest = posterior_support(design, prefix, observation);
        assert forall|x: FloatBits|
            #[trigger] posterior_support(design, support, observation).contains(x) <==> (
            support.contains(x) && point_consistent(design, x, observation)) by {
            assert(support =~= prefix.push(support.last()));
            if point_consistent(design, support.last(), observation) {
                let post = rest.push(support.last());
                if post.contains(x) {
                    let k = choose|k: int| 0 <= k < post.len() && post[k] == x;
                    if k < rest.len() {
                        assert(rest[k] == x);
                        assert(rest.contains(x));
                    }
                }
                if rest.contains(x) {
                    let k = choose|k: int| 0 <= k < rest.len() && rest[k] == x;
                    assert(post[k] == x);
                }
                assert(post[rest.len() as int] == support.last());
            }
            if support.contains(x) {
                let k = choose|k: int| 0 <= k < support.len() && support[k] == x;
                if k < prefix.len() {
                    assert(prefix[k] == x);
                }
            }
            if prefix.contains(x) {
                let k = choose|k: int| 0 <= k < prefix.len() && prefix[k] == x;
                assert(support[k] == x);
            }
        }
    }
}

/// When every support point is consistent with an observation, observing it
/// keeps the whole support.
pub proof fn lemma_posterior_keeps_consistent_support(
    design: FloatBits,
    support: Seq<FloatBits>,
    observation: bool,
)
    requires
        forall|i: int| 0 <= i < support.len() ==> point_consistent(design, #[trigger] support[i], observation),
    ensures
        posterior_support(design, support, observation) == support,
    decreases support.len(),
{
    if support.len() > 0 {
        let prefix = support.drop_last();
        assert forall|i: int| 0 <= i < prefix.len() implies point_consistent(
            design,
            #[trigger] prefix[i],
            observation,
        ) by {
            assert(prefix[i] == support[i]);
        }
        lemma_posterior_keeps_consistent_support(design, prefix, observation);
        assert(point_consistent(design, support[support.len() - 1], observation));
        assert(prefix.push(support.last()) =~= support);
    }
}

/// Repeating an observation changes nothing: the posterior of the posterior
/// is the posterior.
pub proof fn lemma_posterior_idempotent(design: FloatBits, support: Seq<FloatBits>, observation: bool)
    ensures
        posterior_support(design, posterior_support(design, support, observation), observation)
            == posterior_support(design, support, observation),
{
    let post = posterior_support(design, support, observation);
    lemma_posterior_members(design, support, observation);
    assert forall|i: int| 0 <= i < post.len() implies point_consistent(
        design,
        #[trigger] post[i],
        observation,
    ) by {
        assert(post.contains(post[i]));
    }
    lemma_posterior_keeps_consistent_support(design, post, observation);
}

/// Two observations commute: updating with `(d1, o1)` then `(d2, o2)` gives
/// the same support as the other order.
pub proof fn lemma_posterior_commutes(
    d1: FloatBits,
    o1: bool,
    d2: FloatBits,
    o2: bool,
    support: Seq<FloatBits>,
)
    ensures
        posterior_support(d2, posterior_support(d1, support, o1), o2) == posterior_support(
            d1,
            posterior_support(d2, support, o2),
            o1,
        ),
    decreases support.len(),
{
    if support.len() > 0 {
        let prefix = support.drop_last();
        let x = support.last();
        lemma_posterior_commutes(d1, o1, d2, o2, prefix);
        let a = posterior_support(d1, prefix, o1);
        let b = posterior_support(d2, prefix, o2);
        if point_consistent(d1, x, o1) {
            assert(a.push(x).drop_last() =~= a);
        }
        if point_consistent(d2, x, o2) {
            assert(b.push(x).drop_last() =~= b);
        }
    }
}

/// The boundary that produced an observation never contradicts it: a support
/// point that gives `observation` as its simulated outcome at `design` stays
/// in the posterior.
pub proof fn lemma_true_boundary_survives(
    design: FloatBits,
    support: Seq<FloatBits>,
    boundary: FloatBits,
)
    requires
        support.contains(boundary),
    ensures
        posterior_support(
            design,
            support,
            key_le(key_of_bits(design.0), key_of_bits(boundary.0)),
        ).contains(boundary),
{
    lemma_posterior_members(design, support, key_le(key_of_bits(design.0), key_of_bits(boundary.0)));
}

/// The double comparison `design <= point` agrees with `observation`.
pub open spec fn probe_agrees(design: FloatBits, observation: bool) -> spec_fn(FloatBits) -> bool {
    |point: FloatBits| ieee_le(design.0, point.0) == observation
}

/// Observing `observation` at `design` keeps exactly the support points `p`
/// for which the double comparison `design <= p` gives `observation`, in
/// their order: a `true` outcome keeps the points at or above the probe, a
/// `false` one those below it (and a NaN probe or point compares false).
pub proof fn lemma_posterior_is_probe_filter(design: FloatBits, support: Seq<FloatBits>, observation: bool)
    ensures
        posterior_support(design, support, observation) == support.filter(
            probe_agrees(design, observation),
        ),
        forall|p: FloatBits|
            posterior_support(design, support, observation).contains(p) <==> support.contains(p)
                && ieee_le(design.0, p.0) == observation,
    decreases support.len(),
{
    reveal(Seq::filter);
    if support.len() > 0 {
        lemma_posterior_is_probe_filter(design, support.drop_last(), observation);
        lemma_key_order_is_ieee_order(design.0, support.last().0);
    }
    lemma_posterior_members(design, support, observation);
    assert forall|p: FloatBits|
        posterior_support(design, support, observation).contains(p) <==> support.contains(p)
            && ieee_le(design.0, p.0) == observation by {
        lemma_key_order_is_ieee_order(design.0, p.0);
    }
}

/// The posterior of the boundary-mapping model after observing `observation`
/// at `design`: the support points consistent with the observation, in
/// order (see `posterior_support`).
pub fn boundary_posterior(design: FloatBits, support: &[FloatBits], observation: bool) -> (kept: Vec<
    FloatBits,
>)
    ensures
        kept@ == posterior_support(design, support@, observation),
        kept@ == support@.filter(probe_agrees(design, observation)),
{
    let design_key = FloatKey::from_bits(design.0);
    let mut kept: Vec<FloatBits> = Vec::new();
    let mut i: usize = 0;
    while i < support.len()
        invariant
            i <= support@.len(),
            design_key == key_of_bits(design.0),
            kept@ == posterior_support(design, support@.subrange(0, i as int), observation),
        decreases support@.len() - i,
    {
        let point = support[i];
        proof {
            assert(support@.subrange(0, i + 1).drop_last() =~= support@.subrange(0, i as int));
        }
        if boundary_observation_possible(design_key, FloatKey::from_bits(point.0), observation) {
            kept.push(point);
        }
        i = i + 1;
    }
    proof {
        assert(support@.subrange(0, support@.len() as int) =~= support@);
        lemma_posterior_is_probe_filter(design, support@, observation);
    }
    kept
}


/// A one-dimensional numeric value as a configuration states it: an integer,
/// which becomes the nearest double, or a double.
#[derive(Debug, Clone, Copy, PartialEq)]
pub enum Scalar {
    Integer(i64),
    Number(FloatBits),
}

/// The value of a one-dimensional numeric design.
pub open spec fn design_scalar(design: Seq<DesignValue>) -> Result<Scalar, BoedError> {
    if design.len() != 1 {
        Err(BoedError::InvalidStudyConfig("expected a one-dimensional design value"))
    } else {
        match design[0] {
            DesignValue::Integer(v) => Ok(Scalar::Integer(v)),
            DesignValue::Number(b) => Ok(Scalar::Number(b)),
            _ => Err(BoedError::InvalidStudyConfig("expected a numeric design value")),
        }
    }
}

/// The value of a one-dimensional prior particle.
pub open spec fn particle_scalar(parameter: ParameterVector) -> Result<Scalar, BoedError> {
    match parameter {
        ParameterVector::Continuous { values, .. } if values@.len() == 1 => Ok(
            Scalar::Number(values@[0]),
        ),
        ParameterVector::Named { values } if values@.len() == 1 => Ok(
            Scalar::Number(values@[0].value),
        ),
        _ => Err(BoedError::InvalidStudyConfig("boundary_mapping particles must be one-dimensional")),
    }
}

/// The value of a point of a discrete prior support.
pub open spec fn support_scalar(observation: ObservationValue) -> Result<Scalar, BoedError> {
    match observation {
        ObservationValue::Integer(v) => Ok(Scalar::Integer(v)),
        ObservationValue::Scalar(b) => Ok(Scalar::Number(b)),
        _ => Err(
            BoedError::InvalidStudyConfig(
                "boundary_mapping discrete support must contain numeric values",
            ),
        ),
    }
}

/// The outcome that a boolean observation reports.
pub open spec fn observed_boolean(observation: ObservationValue) -> Result<bool, BoedError> {
    match observation {
        ObservationValue::Boolean(b) => Ok(b),
        _ => Err(BoedError::InvalidObservation),
    }
}

/// Every item parsed in order: the values when all parse, else the error of
/// the first item that does not.
pub open spec fn parse_each<T>(items: Seq<T>, parse: spec_fn(T) -> Result<Scalar, BoedError>) -> Result<
    Seq<Scalar>,
    BoedError,
>
    decreases items.len(),
{
    if items.len() == 0 {
        Ok(Seq::empty())
    } else {
        match parse_each(items.drop_last(), parse) {
            Err(e) => Err(e),
            Ok(prefix) => match parse(items.last()) {
                Err(e) => Err(e),
                Ok(v) => Ok(prefix.push(v)),
            },
        }
    }
}

proof fn lemma_parse_each_keeps_error<T>(
    items: Seq<T>,
    parse: spec_fn(T) -> Result<Scalar, BoedError>,
    i: int,
    j: int,
)
    requires
        0 <= i <= j <= items.len(),
        parse_each(items.subrange(0, i), parse) is Err,
    ensures
        parse_each(items.subrange(0, j), parse) == parse_each(items.subrange(0, i), parse),
    decreases j - i,
{
    if j > i {
        lemma_parse_each_keeps_error(items, parse, i, j - 1);
        assert(items.subrange(0, j).drop_last() =~= items.subrange(0, j - 1));
    }
}

/// `support_scalar` as a spec closure.
pub open spec fn support_parser() -> spec_fn(ObservationValue) -> Result<Scalar, BoedError> {
    |o: ObservationValue| support_scalar(o)
}

/// `particle_scalar` as a spec closure.
pub open spec fn particle_parser() -> spec_fn(ParameterVector) -> Result<Scalar, BoedError> {
    |p: ParameterVector| particle_scalar(p)
}

/// `design_scalar` of a design point's values, as a spec closure.
pub open spec fn point_parser() -> spec_fn(DesignPoint) -> Result<Scalar, BoedError> {
    |p: DesignPoint| design_scalar(p.values@)
}

/// The prior support of a boundary-mapping study.
pub open spec fn prior_support(prior: PriorSpec) -> Result<Seq<Scalar>, BoedError> {
    match prior {
        PriorSpec::DiscreteSupport { support } => parse_each(support@, support_parser()),
        PriorSpec::DiscreteParticles { particles, .. } => parse_each(particles@, particle_parser()),
        _ => Err(
            BoedError::UnsupportedStudyConfig(
                "boundary_mapping supports only discrete_support or discrete_particles priors",
            ),
        ),
    }
}

/// Where a boundary-mapping study looks for designs.
#[derive(Debug, Clone, PartialEq)]
pub enum DesignPlan {
    /// A validated interval.
    Continuous { space: ContinuousDesignSpace },
    /// A finite list of candidate designs.
    Finite { candidates: Vec<Scalar> },
}

/// The abstract view of a `DesignPlan`.
pub enum DesignPlanView {
    Continuous { lower: FloatBits, upper: FloatBits },
    Finite { candidates: Seq<Scalar> },
}

impl View for DesignPlan {
    type V = DesignPlanView;

    open spec fn view(&self) -> DesignPlanView {
        match self {
            DesignPlan::Continuous { space } => DesignPlanView::Continuous {
                lower: space.spec_lower(),
                upper: space.spec_upper(),
            },
            DesignPlan::Finite { candidates } => DesignPlanView::Finite { candidates: candidates@ },
        }
    }
}

/// The design space of a boundary-mapping study.
pub open spec fn design_plan(space: DesignSpaceSpec) -> Result<DesignPlanView, BoedError> {
    match space {
        DesignSpaceSpec::ContinuousBox { bounds } => {
            if bounds@.len() != 1 {
                Err(
                    BoedError::UnsupportedStudyConfig(
                        "boundary_mapping continuous design space must be one-dimensional",
                    ),
                )
            } else if !valid_bounds(bounds@[0][0].0, bounds@[0][1].0) {
                Err(BoedError::InvalidContinuousBounds)
            } else {
                Ok(DesignPlanView::Continuous { lower: bounds@[0][0], upper: bounds@[0][1] })
            }
        },
        DesignSpaceSpec::FiniteSet { points } => match parse_each(points@, point_parser()) {
            Ok(candidates) => Ok(DesignPlanView::Finite { candidates }),
            Err(e) => Err(e),
        },
        _ => Err(
            BoedError::UnsupportedStudyConfig(
                "boundary_mapping supports only one-dimensional continuous_box or finite_set designs",
            ),
        ),
    }
}

/// What a boundary-mapping study is built from: its prior support, its
/// design space, and its estimator.
#[derive(Debug, Clone, PartialEq)]
pub struct BoundaryMappingPlan {
    pub support: Vec<Scalar>,
    pub design: DesignPlan,
    pub estimator: MonteCarloEstimator,
}

/// The number of samples of the estimator of a boundary-mapping study.
pub open spec fn boundary_mapping_samples() -> usize {
    128
}

/// The plan of a boundary-mapping study for `config`, or the error that
/// building the study reports: first an objective other than expected
/// information gain, then the prior, then the design space, then an empty
/// support.
pub open spec fn boundary_mapping_plan(config: StudyConfig) -> Result<
    (Seq<Scalar>, DesignPlanView),
    BoedError,
> {
    if !(config.objective is ExpectedInformationGain) {
        Err(
            BoedError::UnsupportedStudyConfig(
                "boundary_mapping currently supports only the expected_information_gain objective",
            ),
        )
    } else {
        match prior_support(config.prior) {
            Err(e) => Err(e),
            Ok(support) => match design_plan(config.design_space) {
                Err(e) => Err(e),
                Ok(design) => if support.len() == 0 {
                    Err(BoedError::InvalidStudyConfig("boundary_mapping prior support must not be empty"))
                } else {
                    Ok((support, design))
                },
            },
        }
    }
}

pub fn parse_scalar_design(design: &[DesignValue]) -> (r: Result<Scalar, BoedError>)
    ensures
        r == design_scalar(design@),
{
    if design.len() != 1 {
        return Err(BoedError::InvalidStudyConfig("expected a one-dimensional design value"));
    }
    match &design[0] {
        DesignValue::Integer(value) => Ok(Scalar::Integer(*value)),
        DesignValue::Number(value) => Ok(Scalar::Number(*value)),
        _ => Err(BoedError::InvalidStudyConfig("expected a numeric design value")),
    }
}

pub fn parse_1d_design_point(point: &DesignPoint) -> (r: Result<Scalar, BoedError>)
    ensures
        r == design_scalar(point.values@),
{
    parse_scalar_design(point.values.as_slice())
}

pub fn parse_1d_particle(parameter: &ParameterVector) -> (r: Result<Scalar, BoedError>)
    ensures
        r == particle_scalar(*parameter),
{
    match parameter {
        ParameterVector::Continuous { values, .. } => {
            if values.len() == 1 {
                return Ok(Scalar::Number(values[0]));
            }
        },
        ParameterVector::Named { values } => {
            if values.len() == 1 {
                return Ok(Scalar::Number(values[0].value));
            }
        },
    }
    Err(BoedError::InvalidStudyConfig("boundary_mapping particles must be one-dimensional"))
}

pub fn parse_scalar_observation(observation: &ObservationValue) -> (r: Result<Scalar, BoedError>)
    ensures
        r == support_scalar(*observation),
{
    match observation {
        ObservationValue::Integer(value) => Ok(Scalar::Integer(*value)),
        ObservationValue::Scalar(value) => Ok(Scalar::Number(*value)),
        _ => Err(
            BoedError::InvalidStudyConfig(
                "boundary_mapping discrete support must contain numeric values",
            ),
        ),
    }
}

pub fn parse_boolean_observation(observation: &ObservationValue) -> (r: Result<bool, BoedError>)
    ensures
        r == observed_boolean(*observation),
{
    match observation {
        ObservationValue::Boolean(value) => Ok(*value),
        _ => Err(BoedError::InvalidObservation),
    }
}


/// A parse result with its values viewed as a sequence.
pub open spec fn scalars_view(r: Result<Vec<Scalar>, BoedError>) -> Result<Seq<Scalar>, BoedError> {
    match r {
        Ok(v) => Ok(v@),
        Err(e) => Err(e),
    }
}

/// Parses every item in order with `parse`, whose results are those of
/// `spec_parse`: the values, or the error of the first item that fails.
fn parse_all<T, F: Fn(&T) -> Result<Scalar, BoedError>>(
    items: &Vec<T>,
    parse: F,
    Ghost(spec_parse): Ghost<spec_fn(T) -> Result<Scalar, BoedError>>,
) -> (r: Result<Vec<Scalar>, BoedError>)
    requires
        forall|t: &T| #[trigger] parse.requires((t,)),
        forall|t: &T, v: Result<Scalar, BoedError>| parse.ensures((t,), v) ==> v == spec_parse(*t),
    ensures
        scalars_view(r) == parse_each(items@, spec_parse),
{
    let mut values: Vec<Scalar> = Vec::new();
    let mut i: usize = 0;
    while i < items.len()
        invariant
            i <= items@.len(),
            forall|t: &T| #[trigger] parse.requires((t,)),
            forall|t: &T, v: Result<Scalar, BoedError>|
                parse.ensures((t,), v) ==> v == spec_parse(*t),
            parse_each(items@.subrange(0, i as int), spec_parse) == Ok::<Seq<Scalar>, BoedError>(
                values@,
            ),
        decreases items@.len() - i,
    {
        let parsed = parse(&items[i]);
        proof {
            assert(items@.subrange(0, i + 1).drop_last() =~= items@.subrange(0, i as int));
        }
        match parsed {
            Err(e) => {
                proof {
                    lemma_parse_each_keeps_error(items@, spec_parse, i + 1, items@.len() as int);
                    assert(items@.subrange(0, items@.len() as int) =~= items@);
                }
                return Err(e);
            },
            Ok(v) => {
                values.push(v);
            },
        }
        i = i + 1;
    }
    proof {
        assert(items@.subrange(0, items@.len() as int) =~= items@);
    }
    Ok(values)
}

/// Every item parses.
pub open spec fn all_parse<T>(items: Seq<T>, parse: spec_fn(T) -> Result<Scalar, BoedError>) -> bool {
    forall|i: int| 0 <= i < items.len() ==> (#[trigger] parse(items[i])) is Ok
}

/// Parsing all items succeeds exactly when every item parses, and then gives
/// one value per item.
pub proof fn lemma_parse_each_ok<T>(items: Seq<T>, parse: spec_fn(T) -> Result<Scalar, BoedError>)
    ensures
        parse_each(items, parse) is Ok <==> all_parse(items, parse),
        parse_each(items, parse) matches Ok(values) ==> values.len() == items.len(),
    decreases items.len(),
{
    if items.len() > 0 {
        let prefix = items.drop_last();
        lemma_parse_each_ok(prefix, parse);
        if all_parse(items, parse) {
            assert forall|i: int| 0 <= i < prefix.len() implies (#[trigger] parse(prefix[i])) is Ok by {
                assert(prefix[i] == items[i]);
                assert(parse(items[i]) is Ok);
            }
            assert(parse(items[items.len() - 1]) is Ok);
        }
        if parse_each(items, parse) is Ok {
            assert forall|i: int| 0 <= i < items.len() implies (#[trigger] parse(items[i])) is Ok by {
                if i < prefix.len() {
                    assert(prefix[i] == items[i]);
                    assert(parse(prefix[i]) is Ok);
                }
            }
        }
    }
}

/// A successful parse of every item gives one value per item, in order:
/// value `i` is what item `i` parses to.
pub proof fn lemma_parse_each_values<T>(items: Seq<T>, parse: spec_fn(T) -> Result<Scalar, BoedError>)
    ensures
        parse_each(items, parse) matches Ok(values) ==> values.len() == items.len() && forall|i: int|
            0 <= i < items.len() ==> #[trigger] parse(items[i]) == Ok::<Scalar, BoedError>(values[i]),
    decreases items.len(),
{
    if items.len() > 0 {
        let prefix = items.drop_last();
        lemma_parse_each_values(prefix, parse);
        if let Ok(values) = parse_each(items, parse) {
            assert forall|i: int| 0 <= i < items.len() implies #[trigger] parse(items[i]) == Ok::<
                Scalar,
                BoedError,
            >(values[i]) by {
                if i < prefix.len() {
                    assert(prefix[i] == items[i]);
                }
            }
        }
    }
}

/// `support` holds one value per item of `prior`, in order: a discrete
/// support's integers and doubles as they are, a particle list's single
/// coordinates as doubles.
pub open spec fn support_read_from_prior(prior: PriorSpec, support: Seq<Scalar>) -> bool {
    match prior {
        PriorSpec::DiscreteSupport { support: points } => support.len() == points@.len() && forall|i: int|
            0 <= i < points@.len() ==> match #[trigger] points@[i] {
                ObservationValue::Integer(v) => support[i] == Scalar::Integer(v),
                ObservationValue::Scalar(b) => support[i] == Scalar::Number(b),
                _ => false,
            },
        PriorSpec::DiscreteParticles { particles, .. } => support.len() == particles@.len() && forall|
            i: int,
        |
            0 <= i < particles@.len() ==> match #[trigger] particles@[i] {
                ParameterVector::Continuous { values, .. } => values@.len() == 1 && support[i]
                    == Scalar::Number(values@[0]),
                ParameterVector::Named { values } => values@.len() == 1 && support[i] == Scalar::Number(
                    values@[0].value,
                ),
            },
        _ => false,
    }
}

/// `design` is what `space` describes: the one interval of a continuous box,
/// or one candidate per finite design point, in order, each the point's
/// single integer or double.
pub open spec fn design_read_from_space(space: DesignSpaceSpec, design: DesignPlanView) -> bool {
    match space {
        DesignSpaceSpec::ContinuousBox { bounds } => bounds@.len() == 1 && design
            == DesignPlanView::Continuous { lower: bounds@[0][0], upper: bounds@[0][1] },
        DesignSpaceSpec::FiniteSet { points } => match design {
            DesignPlanView::Finite { candidates } => candidates.len() == points@.len() && forall|
                i: int,
            |
                0 <= i < points@.len() ==> (#[trigger] points@[i]).values@.len() == 1 && match points@[
                    i
                ].values@[0] {
                    DesignValue::Integer(v) => candidates[i] == Scalar::Integer(v),
                    DesignValue::Number(b) => candidates[i] == Scalar::Number(b),
                    _ => false,
                },
            _ => false,
        },
        _ => false,
    }
}

/// A boundary-mapping plan reads its configuration item by item: its support
/// has one value per prior item and its finite candidates one per design
/// point, each in order and each the item's own value.
pub proof fn lemma_plan_follows_config(config: StudyConfig)
    requires
        boundary_mapping_plan(config) is Ok,
    ensures
        support_read_from_prior(config.prior, boundary_mapping_plan(config)->Ok_0.0),
        design_read_from_space(config.design_space, boundary_mapping_plan(config)->Ok_0.1),
{
    let (support, design) = boundary_mapping_plan(config)->Ok_0;
    match config.prior {
        PriorSpec::DiscreteSupport { support: points } => {
            lemma_parse_each_values(points@, support_parser());
            assert forall|i: int| 0 <= i < points@.len() implies match #[trigger] points@[i] {
                ObservationValue::Integer(v) => support[i] == Scalar::Integer(v),
                ObservationValue::Scalar(b) => support[i] == Scalar::Number(b),
                _ => false,
            } by {
                assert(support_parser()(points@[i]) == Ok::<Scalar, BoedError>(support[i]));
            }
        },
        PriorSpec::DiscreteParticles { particles, .. } => {
            lemma_parse_each_values(particles@, particle_parser());
            assert forall|i: int| 0 <= i < particles@.len() implies match #[trigger] particles@[i] {
                ParameterVector::Continuous { values, .. } => values@.len() == 1 && support[i]
                    == Scalar::Number(values@[0]),
                ParameterVector::Named { values } => values@.len() == 1 && support[i] == Scalar::Number(
                    values@[0].value,
                ),
            } by {
                assert(particle_parser()(particles@[i]) == Ok::<Scalar, BoedError>(support[i]));
            }
        },
        _ => {},
    }
    match config.design_space {
        DesignSpaceSpec::FiniteSet { points } => {
            lemma_parse_each_values(points@, point_parser());
            let candidates = design->Finite_candidates;
            assert forall|i: int| 0 <= i < points@.len() implies (#[trigger] points@[i]).values@.len()
                == 1 && match points@[i].values@[0] {
                DesignValue::Integer(v) => candidates[i] == Scalar::Integer(v),
                DesignValue::Number(b) => candidates[i] == Scalar::Number(b),
                _ => false,
            } by {
                assert(point_parser()(points@[i]) == Ok::<Scalar, BoedError>(candidates[i]));
            }
        },
        _ => {},
    }
}

/// Whether a boundary-mapping study can be built from `config`: the
/// objective is expected information gain; the prior is a non-empty
/// discrete support of numbers or a non-empty list of one-dimensional
/// particles; the design space is one finite ordered interval or a finite
/// set of single numeric values.
pub open spec fn boundary_mapping_accepts(config: StudyConfig) -> bool {
    &&& config.objective is ExpectedInformationGain
    &&& match config.prior {
        PriorSpec::DiscreteSupport { support } => support@.len() > 0 && forall|i: int|
            0 <= i < support@.len() ==> (#[trigger] support@[i] is Integer || support@[i] is Scalar),
        PriorSpec::DiscreteParticles { particles, .. } => particles@.len() > 0 && forall|i: int|
            0 <= i < particles@.len() ==> match #[trigger] particles@[i] {
                ParameterVector::Continuous { values, .. } => values@.len() == 1,
                ParameterVector::Named { values } => values@.len() == 1,
            },
        _ => false,
    }
    &&& match config.design_space {
        DesignSpaceSpec::ContinuousBox { bounds } => bounds@.len() == 1 && valid_bounds(
            bounds@[0][0].0,
            bounds@[0][1].0,
        ),
        DesignSpaceSpec::FiniteSet { points } => forall|i: int|
            0 <= i < points@.len() ==> (#[trigger] points@[i]).values@.len() == 1 && (
            points@[i].values@[0] is Integer || points@[i].values@[0] is Number),
        _ => false,
    }
}

/// The plan succeeds exactly on the configurations that
/// `boundary_mapping_accepts`.
pub proof fn lemma_plan_succeeds_iff_accepted(config: StudyConfig)
    ensures
        boundary_mapping_plan(config) is Ok <==> boundary_mapping_accepts(config),
{
    match config.prior {
        PriorSpec::DiscreteSupport { support } => {
            lemma_parse_each_ok(support@, support_parser());
            assert(all_parse(support@, support_parser()) <==> forall|i: int|
                0 <= i < support@.len() ==> (#[trigger] support@[i] is Integer || support@[i] is Scalar))
                by {
                if all_parse(support@, support_parser()) {
                    assert forall|i: int| 0 <= i < support@.len() implies (
                    #[trigger] support@[i] is Integer || support@[i] is Scalar) by {
                        assert(support_parser()(support@[i]) is Ok);
                    }
                }
            }
        },
        PriorSpec::DiscreteParticles { particles, .. } => {
            lemma_parse_each_ok(particles@, particle_parser());
            if all_parse(particles@, particle_parser()) {
                assert forall|i: int| 0 <= i < particles@.len() implies match #[trigger] particles@[i] {
                    ParameterVector::Continuous { values, .. } => values@.len() == 1,
                    ParameterVector::Named { values } => values@.len() == 1,
                } by {
                    assert(particle_parser()(particles@[i]) is Ok);
                }
            }
        },
        _ => {},
    }
    match config.design_space {
        DesignSpaceSpec::FiniteSet { points } => {
            lemma_parse_each_ok(points@, point_parser());
            if all_parse(points@, point_parser()) {
                assert forall|i: int| 0 <= i < points@.len() implies (#[trigger] points@[i]).values@.len()
                    == 1 && (points@[i].values@[0] is Integer || points@[i].values@[0] is Number) by {
                    assert(point_parser()(points@[i]) is Ok);
                }
            }
        },
        _ => {},
    }
}

/// The plan of a boundary-mapping study for `config` (see
/// `boundary_mapping_plan`), with an estimator of 128 samples.
pub fn plan_boundary_mapping(config: &StudyConfig) -> (r: Result<BoundaryMappingPlan, BoedError>)
    ensures
        match (r, boundary_mapping_plan(*config)) {
            (Ok(plan), Ok((support, design))) => plan.support@ == support && plan.design@ == design
                && plan.estimator.samples() == boundary_mapping_samples(),
            (Err(e), Err(expected)) => e == expected,
            _ => false,
        },
        r is Ok <==> boundary_mapping_accepts(*config),
        r matches Ok(plan) ==> support_read_from_prior(config.prior, plan.support@)
            && design_read_from_space(config.design_space, plan.design@),
        r matches Ok(plan) ==> plan.support@.len() > 0,
        r matches Ok(plan) ==> (plan.design matches DesignPlan::Continuous { space }
            ==> valid_bounds(space.spec_lower().0, space.spec_upper().0)),
{
    match &config.objective {
        ObjectiveSpec::ExpectedInformationGain => {},
        _ => {
            return Err(
                BoedError::UnsupportedStudyConfig(
                    "boundary_mapping currently supports only the expected_information_gain objective",
                ),
            );
        },
    }
    proof {
        lemma_plan_succeeds_iff_accepted(*config);
    }
    let support_item = (|o: &ObservationValue| -> (r: Result<Scalar, BoedError>)
        ensures
            r == support_scalar(*o),
        { parse_scalar_observation(o) });
    let particle_item = (|p: &ParameterVector| -> (r: Result<Scalar, BoedError>)
        ensures
            r == particle_scalar(*p),
        { parse_1d_particle(p) });
    let point_item = (|p: &DesignPoint| -> (r: Result<Scalar, BoedError>)
        ensures
            r == design_scalar(p.values@),
        { parse_1d_design_point(p) });
    let support = match &config.prior {
        PriorSpec::DiscreteSupport { support } => parse_all(
            support,
            support_item,
            Ghost(support_parser()),
        )?,
        PriorSpec::DiscreteParticles { particles, .. } => parse_all(
            particles,
            particle_item,
            Ghost(particle_parser()),
        )?,
        _ => {
            return Err(
                BoedError::UnsupportedStudyConfig(
                    "boundary_mapping supports only discrete_support or discrete_particles priors",
                ),
            );
        },
    };
    let design = match &config.design_space {
        DesignSpaceSpec::ContinuousBox { bounds } => {
            if bounds.len() != 1 {
                return Err(
                    BoedError::UnsupportedStudyConfig(
                        "boundary_mapping continuous design space must be one-dimensional",
                    ),
                );
            }
            let space = ContinuousDesignSpace::new(bounds[0][0], bounds[0][1])?;
            DesignPlan::Continuous { space }
        },
        DesignSpaceSpec::FiniteSet { points } => DesignPlan::Finite {
            candidates: parse_all(points, point_item, Ghost(point_parser()))?,
        },
        _ => {
            return Err(
                BoedError::UnsupportedStudyConfig(
                    "boundary_mapping supports only one-dimensional continuous_box or finite_set designs",
                ),
            );
        },
    };
    if support.len() == 0 {
        return Err(BoedError::InvalidStudyConfig("boundary_mapping prior support must not be empty"));
    }
    proof {
        lemma_plan_follows_config(*config);
    }
    Ok(BoundaryMappingPlan { support, design, estimator: MonteCarloEstimator::new(128) })
}

/// The optimizer that a boundary-mapping study with a continuous design space
/// proposes with: expected information gain, 9 grid points, 5 rounds.
pub fn boundary_mapping_continuous_optimizer(estimator: MonteCarloEstimator) -> (o:
    ContinuousDesignOptimizer<ExpectedInformationGain>)
    ensures
        o.spec_estimator() == estimator,
        o.spec_utility() == ExpectedInformationGain,
        o.spec_grid_size() == 9,
        o.spec_refinement_rounds() == 5,
{
    ContinuousDesignOptimizer::new(estimator, ExpectedInformationGain).with_grid_size(
        9,
    ).with_refinement_rounds(5)
}

/// The optimizer that a boundary-mapping study with a finite design space
/// proposes with: expected information gain over the candidates.
pub fn boundary_mapping_finite_optimizer(estimator: MonteCarloEstimator) -> (o: DesignOptimizer<
    ExpectedInformationGain,
>)
    ensures
        o.spec_estimator() == estimator,
        o.spec_utility() == ExpectedInformationGain,
{
    DesignOptimizer::new(estimator, ExpectedInformationGain)
}

/// What an observation record given to a boundary-mapping session reports,
/// or the error it is refused with: first a record of another study, then a
/// design that is not one numeric value, then an outcome that is not a
/// boolean.
pub open spec fn boundary_observation(study_id: Seq<char>, record: ObservationRecord) -> Result<
    (Scalar, bool),
    BoedError,
> {
    if record.study_id@ != study_id {
        Err(BoedError::InvalidObservation)
    } else {
        match design_scalar(record.design@) {
            Err(e) => Err(e),
            Ok(design) => match observed_boolean(record.observation) {
                Err(e) => Err(e),
                Ok(outcome) => Ok((design, outcome)),
            },
        }
    }
}

/// The design and outcome of an observation record for the session of
/// `study_id` (see `boundary_observation`).
pub fn parse_boundary_observation(study_id: &str, record: &ObservationRecord) -> (r: Result<
    (Scalar, bool),
    BoedError,
>)
    ensures
        r == boundary_observation(study_id@, *record),
{
    check_observation_study(study_id, record.study_id.as_str())?;
    let design = parse_scalar_design(record.design.as_slice())?;
    let outcome = parse_boolean_observation(&record.observation)?;
    Ok((design, outcome))
}

/// The observation record under which a boundary-mapping session reports a
/// completed step of study `study_id`.
pub open spec fn history_record(
    study_id: Seq<char>,
    step: SequentialDesignRecord<FloatBits, bool>,
    record: ObservationRecord,
) -> bool {
    &&& record.study_id@ == study_id
    &&& record.step_index == step.step_index
    &&& record.design@ == seq![DesignValue::Number(step.design)]
    &&& record.observation == ObservationValue::Boolean(step.observation)
    &&& record.source == ObservationSource::Api
    &&& record.recorded_at is None
    &&& record.metadata@ == Map::<String, String>::empty()
}

/// The history of a boundary-mapping session as observation records, one per
/// completed step and in order, each reported through the API with no time
/// and no metadata.
pub fn history_records(study_id: &str, history: &[SequentialDesignRecord<FloatBits, bool>]) -> (records:
    Vec<ObservationRecord>)
    ensures
        records@.len() == history@.len(),
        forall|i: int|
            0 <= i < history@.len() ==> history_record(study_id@, history@[i], #[trigger] records@[i]),
{
    let mut records: Vec<ObservationRecord> = Vec::new();
    let mut i: usize = 0;
    while i < history.len()
        invariant
            i <= history@.len(),
            records@.len() == i,
            forall|j: int|
                0 <= j < i ==> history_record(study_id@, history@[j], #[trigger] records@[j]),
        decreases history@.len() - i,
    {
        let step = &history[i];
        let mut design: Vec<DesignValue> = Vec::new();
        design.push(DesignValue::Number(step.design));
        proof {
            assert(design@ =~= seq![DesignValue::Number(step.design)]);
        }
        let metadata: Metadata = Metadata::new();
        records.push(
            ObservationRecord {
                study_id: study_id.to_owned(),
                step_index: step.step_index,
                design,
                observation: ObservationValue::Boolean(step.observation),
                source: ObservationSource::Api,
                recorded_at: None,
                metadata,
            },
        );
        i = i + 1;
    }
    records
}

/// The support after observing every step of `steps` in order, starting
/// from `prior`.
pub open spec fn posterior_after(prior: Seq<FloatBits>, steps: Seq<SequentialDesignRecord<FloatBits, bool>>) -> Seq<
    FloatBits,
>
    decreases steps.len(),
{
    if steps.len() == 0 {
        prior
    } else {
        posterior_support(
            steps.last().design,
            posterior_after(prior, steps.drop_last()),
            steps.last().observation,
        )
    }
}

/// Completes a step of a boundary-mapping session: the support becomes its
/// posterior after observing `outcome` at `design`, and the step is recorded
/// under the next step index.
pub fn record_boundary_observation(
    session: &mut SequentialDesignSession<Vec<FloatBits>, FloatBits, bool>,
    design: FloatBits,
    outcome: bool,
)
    ensures
        final(session).spec_model()@ == posterior_support(design, old(session).spec_model()@, outcome),
        final(session).spec_history() == old(session).spec_history().push(
            SequentialDesignRecord {
                step_index: old(session).spec_history().len() as usize,
                design,
                observation: outcome,
            },
        ),
        forall|prior: Seq<FloatBits>|
            old(session).spec_model()@ == posterior_after(prior, old(session).spec_history())
                ==> final(session).spec_model()@ == posterior_after(
                prior,
                final(session).spec_history(),
            ),
{
    let next = boundary_posterior(design, session.model().as_slice(), outcome);
    session.record_step(next, design, outcome);
    proof {
        let h = final(session).spec_history();
        assert(h.drop_last() == old(session).spec_history());
    }
}

/// The design at which a boundary-mapping session observes `scalar`: a
/// double as it is, an integer as `integer_design` turns it into a double.
pub open spec fn observed_design<F: Fn(i64) -> FloatBits>(
    scalar: Scalar,
    integer_design: F,
    design: FloatBits,
) -> bool {
    match scalar {
        Scalar::Number(bits) => design == bits,
        Scalar::Integer(v) => integer_design.ensures((v,), design),
    }
}

/// Observes an observation record in a boundary-mapping session of study
/// `study_id`. A refused record (see `boundary_observation`) leaves the
/// session as it was; an accepted one completes a step at its design, which
/// an integer design reaches through `integer_design`. The record's own step
/// index is not consulted.
pub fn observe_boundary<F: Fn(i64) -> FloatBits>(
    session: &mut SequentialDesignSession<Vec<FloatBits>, FloatBits, bool>,
    study_id: &str,
    record: &ObservationRecord,
    integer_design: F,
) -> (r: Result<(), BoedError>)
    requires
        forall|v: i64| #[trigger] integer_design.requires((v,)),
    ensures
        match boundary_observation(study_id@, *record) {
            Err(e) => r == Err::<(), BoedError>(e) && *final(session) == *old(session),
            Ok((scalar, outcome)) => r is Ok && exists|design: FloatBits|
                #[trigger] observed_design(scalar, integer_design, design)
                    && final(session).spec_model()@ == posterior_support(
                    design,
                    old(session).spec_model()@,
                    outcome,
                ) && final(session).spec_history() == old(session).spec_history().push(
                    SequentialDesignRecord {
                        step_index: old(session).spec_history().len() as usize,
                        design,
                        observation: outcome,
                    },
                ),
        },
        forall|prior: Seq<FloatBits>|
            old(session).spec_model()@ == posterior_after(prior, old(session).spec_history())
                ==> final(session).spec_model()@ == posterior_after(
                prior,
                final(session).spec_history(),
            ),
{
    let (scalar, outcome) = parse_boundary_observation(study_id, record)?;
    let design = match scalar {
        Scalar::Number(bits) => bits,
        Scalar::Integer(v) => integer_design(v),
    };
    record_boundary_observation(session, design, outcome);
    proof {
        assert(observed_design(scalar, integer_design, design));
    }
    Ok(())
}

/// Replaying a reported step: the observation record under which a step of
/// study `study_id` is reported is accepted by a session of that study, at
/// the step's own design and with its own outcome.
pub proof fn lemma_history_record_replays(
    study_id: Seq<char>,
    step: SequentialDesignRecord<FloatBits, bool>,
    record: ObservationRecord,
)
    requires
        history_record(study_id, step, record),
    ensures
        boundary_observation(study_id, record) == Ok::<(Scalar, bool), BoedError>(
            (Scalar::Number(step.design), step.observation),
        ),
{
}

/// The name of the one parameter of the boundary-mapping model.
pub open spec fn boundary_parameter_name() -> Seq<char> {
    "boundary"@
}

/// How a boundary-mapping posterior reports support point `point`: a
/// continuous parameter vector holding that one value, named `boundary`.
pub open spec fn boundary_particle(point: FloatBits, particle: ParameterVector) -> bool {
    match particle {
        ParameterVector::Continuous { values, names } => values@ == seq![point] && names@.len() == 1
            && names@[0]@ == boundary_parameter_name(),
        _ => false,
    }
}

/// The particles of a boundary-mapping posterior over `support`, one per
/// support point and in order.
pub fn posterior_particles(support: &[FloatBits]) -> (particles: Vec<ParameterVector>)
    ensures
        particles@.len() == support@.len(),
        forall|i: int|
            0 <= i < support@.len() ==> boundary_particle(support@[i], #[trigger] particles@[i]),
{
    let mut particles: Vec<ParameterVector> = Vec::new();
    let mut i: usize = 0;
    while i < support.len()
        invariant
            i <= support@.len(),
            particles@.len() == i,
            forall|j: int| 0 <= j < i ==> boundary_particle(support@[j], #[trigger] particles@[j]),
        decreases support@.len() - i,
    {
        let mut values: Vec<FloatBits> = Vec::new();
        values.push(support[i]);
        let mut names: Vec<String> = Vec::new();
        names.push("boundary".to_owned());
        proof {
            reveal_strlit("boundary");
            assert(values@ =~= seq![support@[i as int]]);
        }
        particles.push(ParameterVector::Continuous { values, names });
        i = i + 1;
    }
    particles
}

/// The proposal of a boundary-mapping session of study `study_id`: the
/// one-dimensional design `design` for step `step_index`, with its expected
/// utility and the study's objective, and no metadata.
pub fn proposal_record(
    study_id: &str,
    step_index: usize,
    design: FloatBits,
    expected_utility: FloatBits,
    objective: ObjectiveSpec,
) -> (record: ProposalRecord)
    ensures
        record.study_id@ == study_id@,
        record.step_index == step_index,
        record.design@ == seq![DesignValue::Number(design)],
        record.expected_utility == expected_utility,
        record.objective == objective,
        record.metadata@ == Map::<String, String>::empty(),
{
    let mut values: Vec<DesignValue> = Vec::new();
    values.push(DesignValue::Number(design));
    proof {
        assert(values@ =~= seq![DesignValue::Number(design)]);
    }
    ProposalRecord {
        study_id: study_id.to_owned(),
        step_index,
        design: values,
        expected_utility,
        objective,
        metadata: Metadata::new(),
    }
}

/// The summary of study `study_id`, configured by `config`, with `step_count`
/// completed steps and status `status`: the configuration's name, model type,
/// objective and metadata.
pub fn study_summary(study_id: &str, config: StudyConfig, step_count: usize, status: StudyStatus) -> (summary:
    StudySummary)
    ensures
        summary.study_id@ == study_id@,
        summary.study_name == config.study_name,
        summary.model_type == config.model_type,
        summary.objective == config.objective,
        summary.step_count == step_count,
        summary.status == status,
        summary.metadata == config.metadata,
{
    StudySummary {
        study_id: study_id.to_owned(),
        study_name: config.study_name,
        model_type: config.model_type,
        objective: config.objective,
        step_count,
        status,
        metadata: config.metadata,
    }
}

/// The posterior summary of a boundary-mapping session of study `study_id`
/// after `step_index` steps, over `support`: one particle per support point,
/// in order, each with weight `weight` (one over the support's size, as a
/// double), and no metadata.
pub fn boundary_posterior_summary(
    study_id: &str,
    step_index: usize,
    support: &[FloatBits],
    weight: FloatBits,
) -> (summary: PosteriorSummary)
    ensures
        summary.study_id@ == study_id@,
        summary.step_index == step_index,
        summary.metadata@ == Map::<String, String>::empty(),
        match summary.representation {
            PosteriorRepresentation::Particles { particles, weights } => {
                &&& particles@.len() == support@.len()
                &&& forall|i: int|
                    0 <= i < support@.len() ==> boundary_particle(
                        support@[i],
                        #[trigger] particles@[i],
                    )
                &&& weights@ == Seq::new(support@.len(), |i: int| weight)
            },
            _ => false,
        },
{
    let particles = posterior_particles(support);
    let mut weights: Vec<FloatBits> = Vec::new();
    let mut i: usize = 0;
    while i < support.len()
        invariant
            i <= support@.len(),
            weights@ == Seq::new(i as nat, |j: int| weight),
        decreases support@.len() - i,
    {
        weights.push(weight);
        proof {
            assert(weights@ =~= Seq::new((i + 1) as nat, |j: int| weight));
        }
        i = i + 1;
    }
    PosteriorSummary {
        study_id: study_id.to_owned(),
        step_index,
        representation: PosteriorRepresentation::Particles { particles, weights },
        metadata: Metadata::new(),
    }
}

} // verus!
