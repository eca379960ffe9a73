//! Asking SLURM for the state of jobs: which command to run, what its output means.
pub mod listing;
pub mod query;
