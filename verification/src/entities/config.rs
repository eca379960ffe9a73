//! The `[slurm]` table: everything that configures a submission.
use crate::entities::array_spec::SlurmArraySpec;
use crate::entities::dependency::SlurmDependency;
use crate::entities::mail::MailTypeInput;
use crate::entities::resource_spec::ResourceSpec;
use crate::entities::time_limit::JobTimeLimit;
use vstd::prelude::*;

verus! {

/// A queue.
pub type JobPartition = String;

/// A resource list as text.
pub type JobRSC = String;

/// A mail address.
pub type MailAddress = String;

/// Configuration of a SLURM submission.
#[derive(Debug, Clone)]
pub struct SlurmJobConfig {
    /// Queue of the job.
    pub partition: JobPartition,
    /// Wall-clock limit (`--time`).
    pub time_limit: Option<JobTimeLimit>,
    /// Path of stdout.
    pub log_stdout: Option<String>,
    /// Path of stderr.
    pub log_stderr: Option<String>,
    /// Comment.
    pub comment: Option<String>,
    /// Name of the job.
    pub job_name: Option<String>,
    /// Task indices of an array job.
    pub array_spec: Option<SlurmArraySpec>,
    /// Jobs to wait for.
    pub dependency: Option<SlurmDependency>,
    /// Who is sent mail.
    pub mail_user: Option<MailAddress>,
    /// Which events send mail.
    pub mail_types: Option<MailTypeInput>,
    /// Processes, threads, cores and memory, or GPUs.
    pub resource_spec: Option<ResourceSpec>,
}

} // verus!
