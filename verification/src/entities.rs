//! The SLURM vocabulary: options of a submission and the state of a job.

pub mod array_spec;
pub mod config;
pub mod dependency;
pub mod mail;
pub mod parts;
pub mod reason;
pub mod resource_spec;
pub mod signal;
pub mod status;
pub mod time_limit;
