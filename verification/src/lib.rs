//! A controller library for an elastic "Job" workload resource.
//!
//! A Job is a set of named tasks, each asking for between `min` and `max`
//! replica pods.  The library computes, as pure verified functions, everything
//! the controller decides: the minimal pod set a Job requires, the
//! classification of observed pods into phase counts, the reclaim of pods
//! whose replica index exceeds a task's maximum, the job-level phase, the
//! reconcile plan that a driver executes against the cluster, and the
//! admission checks that reject structurally invalid specifications.

pub mod admission;
pub mod batch;
pub mod desired;
pub mod engine;
pub mod labels;
pub mod reclaim;
pub mod status;
pub mod text;
