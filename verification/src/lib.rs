//! `boed`: the decision logic of Bayesian Optimal Experimental Design.
//!
//! - [`MonteCarloEstimator`]: the sampling plan of nested Monte Carlo
//!   estimation, with separate prior draws for the evidence term
//! - [`DesignOptimizer`]: choice of the best design of a finite candidate set
//! - [`ContinuousDesignOptimizer`]: coarse-to-fine search over a bounded
//!   one-dimensional design space
//! - [`SequentialDesignSession`]: the state of repeated plan-observe-update
//!   loops
//! - [`runtime`]: the configuration checks and posterior rule of the
//!   registered `boundary_mapping` study runtime
//!
//! Floating-point values are handled by their IEEE 754 bit patterns, through
//! the exact ordering of [`float_order`].

pub mod config;
pub mod continuous;
mod error;
pub mod estimator;
pub mod float_order;
pub mod optimization;
pub mod runtime;
pub mod sequential;
mod utility;

pub use config::{
    ConstraintSpec, ContinuousDimension, DesignPoint, DesignSpaceSpec, DesignValue,
    DiscreteDimension, DistributionSpec, FloatBits, Metadata, NamedValue, ObjectiveSpec,
    ObservationRecord, ObservationSource, ObservationValue, ParameterVector,
    PosteriorRepresentation, PosteriorSummary, PriorSpec, ProposalRecord, StoppingRule,
    StudyConfig, StudyStatus, StudySummary,
};
pub use continuous::{ContinuousDesignOptimizer, ContinuousDesignSpace};
pub use error::BoedError;
pub use estimator::MonteCarloEstimator;
pub use float_order::FloatKey;
pub use optimization::DesignOptimizer;
pub use sequential::{SequentialDesignRecord, SequentialDesignSession};
pub use utility::ExpectedInformationGain;
