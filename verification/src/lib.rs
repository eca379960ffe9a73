//! SLURM jobs: their vocabulary, their command lines, and how to keep track of them.
//!
//! - `entities` holds the options of a submission and the states of a job, each with its
//!   textual form.
//! - `manager` and `sbatch` hold the command lines, and what happens to a job after its
//!   submission.
//! - `runner` asks SLURM for the state of jobs.
//! - `store` finds the snapshots of jobs.
//!
//! Nothing here runs a command, reads a file or looks at the clock. What depends on these
//! is written as a conversation: a function names the next command, and another takes in
//! what it left behind.

pub mod dispatcher;
pub mod entities;
pub mod error;
pub mod ident;
pub mod manager;
pub mod path;
pub mod positive;
pub mod runner;
pub mod sbatch;
pub mod store;
pub mod text;

pub use crate::dispatcher::CaptureOutput;
pub use crate::entities::config::JobPartition;
pub use crate::entities::reason::JobReason;
pub use crate::entities::resource_spec::{
    Memory, MemoryUnit, ResourceSpec, ResourceSpecCPU, ResourceSpecGPU,
};
pub use crate::entities::status::{JobState, JobStatus};
pub use crate::entities::time_limit::JobTimeLimit;
pub use crate::manager::{SlurmCmd, SlurmManager};
pub use crate::sbatch::cmd::SbatchCmd;
pub use crate::sbatch::error::SbatchSpawnError;
pub use crate::sbatch::handle::{LogPathSpec, SbatchJobSnapshot, SbatchLifecycle};
pub use crate::sbatch::manager::SbatchAttachKey;
pub use crate::sbatch::parse::{parse_submitted_jobid, resolve_log_path};
pub use crate::store::{InMemoryStateStore, JobSnapshot};
