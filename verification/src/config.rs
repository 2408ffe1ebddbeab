//! Configuration and message types for user-facing BOED integrations such as
//! notebooks, web APIs and queue-driven runtimes.
//!
//! Every floating-point quantity is carried as its IEEE 754 bit pattern
//! (`FloatBits`), which the library reads only through exact comparisons.
use vstd::prelude::*;

use crate::float_order::{ieee_eq, lemma_key_order_is_ieee_order, FloatKey};

verus! {

/// The bit pattern (`f64::to_bits`) of a double-precision value.
///
/// Two values are `==` as the doubles are: `0.0 == -0.0`, and a NaN equals
/// nothing, itself included.
#[derive(Debug, Clone, Copy)]
pub struct FloatBits(pub u64);

impl PartialEq for FloatBits {
    fn eq(&self, other: &FloatBits) -> (r: bool) {
        let a = FloatKey::from_bits(self.0);
        let b = FloatKey::from_bits(other.0);
        proof {
            lemma_key_order_is_ieee_order(self.0, other.0);
        }
        a.le(&b) && b.le(&a)
    }
}

impl vstd::std_specs::cmp::PartialEqSpecImpl for FloatBits {
    open spec fn obeys_eq_spec() -> bool {
        true
    }

    open spec fn eq_spec(&self, other: &FloatBits) -> bool {
        ieee_eq(self.0, other.0)
    }
}

/// Free-form string annotations.
pub type Metadata = std::collections::BTreeMap<String, String>;

#[derive(Debug, Clone, PartialEq)]
pub struct StudyConfig {
    pub study_name: Option<String>,
    pub model_type: String,
    pub objective: ObjectiveSpec,
    pub design_space: DesignSpaceSpec,
    pub prior: PriorSpec,
    pub stopping_rule: Option<StoppingRule>,
    pub metadata: Metadata,
}

#[derive(Debug, Clone, PartialEq)]
pub struct StudySummary {
    pub study_id: String,
    pub study_name: Option<String>,
    pub model_type: String,
    pub objective: ObjectiveSpec,
    pub step_count: usize,
    pub status: StudyStatus,
    pub metadata: Metadata,
}

#[derive(Debug, Clone, Copy, PartialEq, Eq)]
pub enum StudyStatus {
    Draft,
    Active,
    Paused,
    Completed,
    Failed,
}

#[derive(Debug, Clone, PartialEq)]
pub enum ObjectiveSpec {
    ExpectedInformationGain,
    PosteriorVarianceReduction { target: Option<Vec<String>> },
    GoalOriented { metric: String, target: Option<ObservationValue> },
    Custom { name: String, parameters: Metadata },
}

#[derive(Debug, PartialEq)]
pub enum DesignSpaceSpec {
    FiniteSet { points: Vec<DesignPoint> },
    ContinuousBox { bounds: Vec<[FloatBits; 2]> },
    Mixed { continuous: Vec<ContinuousDimension>, discrete: Vec<DiscreteDimension> },
    Constrained { base: Box<DesignSpaceSpec>, constraints: Vec<ConstraintSpec> },
}

impl Clone for DesignSpaceSpec {
    fn clone(&self) -> Self {
        clone_design_space(self)
    }
}

fn clone_design_space(space: &DesignSpaceSpec) -> DesignSpaceSpec
    decreases space,
{
    match space {
        DesignSpaceSpec::FiniteSet { points } => DesignSpaceSpec::FiniteSet { points: points.clone() },
        DesignSpaceSpec::ContinuousBox { bounds } => DesignSpaceSpec::ContinuousBox {
            bounds: bounds.clone(),
        },
        DesignSpaceSpec::Mixed { continuous, discrete } => DesignSpaceSpec::Mixed {
            continuous: continuous.clone(),
            discrete: discrete.clone(),
        },
        DesignSpaceSpec::Constrained { base, constraints } => DesignSpaceSpec::Constrained {
            base: Box::new(clone_design_space(&**base)),
            constraints: constraints.clone(),
        },
    }
}

#[derive(Debug, Clone, PartialEq)]
pub struct DesignPoint {
    pub values: Vec<DesignValue>,
    pub label: Option<String>,
    pub metadata: Metadata,
}

#[derive(Debug, Clone, PartialEq)]
pub struct ContinuousDimension {
    pub name: String,
    pub lower: FloatBits,
    pub upper: FloatBits,
}

#[derive(Debug, Clone, PartialEq)]
pub struct DiscreteDimension {
    pub name: String,
    pub values: Vec<String>,
}

#[derive(Debug, Clone, PartialEq)]
pub enum ConstraintSpec {
    LinearInequality { coefficients: Vec<FloatBits>, rhs: FloatBits },
    ForbiddenRegion { description: String },
    Dependency { if_dimension: String, equals: String, then_allowed: Vec<String> },
    Custom { name: String, parameters: Metadata },
}

#[derive(Debug, Clone, PartialEq)]
pub enum PriorSpec {
    MultivariateNormal {
        mean: Vec<FloatBits>,
        covariance: Vec<Vec<FloatBits>>,
        parameter_names: Vec<String>,
    },
    Independent { marginals: Vec<DistributionSpec> },
    DiscreteParticles { particles: Vec<ParameterVector>, weights: Vec<FloatBits> },
    DiscreteSupport { support: Vec<ObservationValue> },
    Custom { name: String, parameters: Metadata },
}

#[derive(Debug, Clone, PartialEq)]
pub enum DistributionSpec {
    Normal { name: String, mean: FloatBits, std_dev: FloatBits },
    LogNormal { name: String, mean: FloatBits, std_dev: FloatBits },
    Uniform { name: String, lower: FloatBits, upper: FloatBits },
    Beta { name: String, alpha: FloatBits, beta: FloatBits },
    Categorical { name: String, values: Vec<String>, probabilities: Vec<FloatBits> },
}

#[derive(Debug, Clone, PartialEq)]
pub enum ParameterVector {
    Continuous { values: Vec<FloatBits>, names: Vec<String> },
    Named { values: Vec<NamedValue> },
}

#[derive(Debug, Clone, PartialEq)]
pub struct NamedValue {
    pub name: String,
    pub value: FloatBits,
}

#[derive(Debug, Clone, PartialEq)]
pub struct ProposalRecord {
    pub study_id: String,
    pub step_index: usize,
    pub design: Vec<DesignValue>,
    pub expected_utility: FloatBits,
    pub objective: ObjectiveSpec,
    pub metadata: Metadata,
}

#[derive(Debug, Clone, PartialEq)]
pub struct ObservationRecord {
    pub study_id: String,
    pub step_index: usize,
    pub design: Vec<DesignValue>,
    pub observation: ObservationValue,
    pub source: ObservationSource,
    pub recorded_at: Option<String>,
    pub metadata: Metadata,
}

#[derive(Debug, Clone, PartialEq)]
pub struct PosteriorSummary {
    pub study_id: String,
    pub step_index: usize,
    pub representation: PosteriorRepresentation,
    pub metadata: Metadata,
}

#[derive(Debug, Clone, PartialEq)]
pub enum PosteriorRepresentation {
    Particles { particles: Vec<ParameterVector>, weights: Vec<FloatBits> },
    Moments {
        mean: Vec<FloatBits>,
        covariance: Vec<Vec<FloatBits>>,
        parameter_names: Vec<String>,
    },
    SummaryText { text: String },
}

#[derive(Debug, Clone, PartialEq)]
pub enum ObservationSource {
    ManualEntry,
    Notebook,
    Api,
    Queue,
    Simulator,
    Device { device_id: String },
}

#[derive(Debug, Clone, PartialEq)]
pub enum DesignValue {
    Integer(i64),
    Number(FloatBits),
    Text(String),
    Boolean(bool),
}

#[derive(Debug, Clone, PartialEq)]
pub enum ObservationValue {
    Integer(i64),
    Scalar(FloatBits),
    Boolean(bool),
    Text(String),
    Vector(Vec<FloatBits>),
    Named(Metadata),
}

#[derive(Debug, Clone, PartialEq, Eq)]
pub enum StoppingRule {
    MaxSteps { steps: usize },
    UtilityThreshold { threshold: String },
    ConfidenceTarget { metric: String, threshold: String },
    Manual,
}

} // verus!
