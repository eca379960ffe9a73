//! Why a job is in its state, as `squeue %r` and `sacct Reason` report it.
use crate::text;
use crate::text::model;
use vstd::prelude::*;

verus! {

/// Reason code of a SLURM job.
#[derive(Debug, PartialEq, Eq, Hash)]
pub enum JobReason {
    /// `None`: no reason, as for a running job.
    NoReason,
    // Common waiting reasons
    Priority,
    Dependency,
    DependencyNeverSatisfied,
    Resources,
    Reservation,
    ResvDeleted,
    BeginTime,
    Licenses,
    NodeNotAvail,
    JobHeldUser,
    JobHeldAdmin,
    BadConstraints,
    Cleaning,
    Prolog,
    JobArrayTaskLimit,
    BurstBufferResources,
    BurstBufferStageIn,
    NodeReboot,
    MaxRequeueExceeded,
    PlannedReservation,
    FedJobLock,
    OutOfMemory,
    Preemption,
    WaitingForScheduling,
    AdminHold,
    // Partition
    PartitionDown,
    PartitionInactive,
    PartitionNodeLimit,
    PartitionTimeLimit,
    PartitionConfig,
    // Front-end
    FrontEndDown,
    FrontEndUserDown,
    DownNodes,
    // Termination / failure reasons
    SystemFailure,
    JobLaunchFailure,
    NonZeroExitCode,
    RaisedSignal,
    TimeLimit,
    InactiveLimit,
    Deadline,
    // Account / QOS
    InvalidAccount,
    InvalidQOS,
    AccountNotAllowed,
    QOSNotAllowed,
    // QOS limits
    QOSUsageThreshold,
    QOSJobLimit,
    QOSResourceLimit,
    QOSTimeLimit,
    QOSGrpCpuLimit,
    QOSGrpCpuMinutesLimit,
    QOSGrpCpuRunMinutesLimit,
    QOSGrpJobsLimit,
    QOSGrpMemoryLimit,
    QOSGrpNodeLimit,
    QOSGrpSubmitJobsLimit,
    QOSGrpWallLimit,
    QOSMaxCpuMinutesPerJobLimit,
    QOSMaxCpuPerJobLimit,
    QOSMaxCpuPerNodeLimit,
    QOSMaxCpuPerUserLimit,
    QOSMaxJobsPerAccountLimit,
    QOSMaxJobsPerUserLimit,
    QOSMaxNodePerJobLimit,
    QOSMaxNodePerUserLimit,
    QOSMaxSubmitJobPerAccountLimit,
    QOSMaxSubmitJobPerUserLimit,
    QOSMaxWallDurationPerJobLimit,
    QOSMinCpuNotSatisfied,
    // Association limits
    AssociationJobLimit,
    AssociationResourceLimit,
    AssociationTimeLimit,
    AssocGrpCpuLimit,
    AssocGrpCpuMinutesLimit,
    AssocGrpCpuRunMinutesLimit,
    AssocGrpJobsLimit,
    AssocGrpMemoryLimit,
    AssocGrpNodeLimit,
    AssocGrpSubmitJobsLimit,
    AssocGrpWallLimit,
    AssocMaxJobsLimit,
    AssocMaxCpuPerJobLimit,
    AssocMaxCpuMinutesPerJobLimit,
    AssocMaxNodePerJobLimit,
    AssocMaxWallDurationPerJobLimit,
    AssocMaxSubmitJobLimit,
    // Block (Bluegene legacy)
    BlockMaxError,
    BlockFreeAction,
    /// A reason that is none of the above, as the scheduler wrote it.
    Other(String),
}

/// What a `JobReason` holds: whether it is outside the known codes, and its text.
pub struct ReasonView {
    pub other: bool,
    pub text: Seq<char>,
}

impl View for JobReason {
    type V = ReasonView;

    open spec fn view(&self) -> ReasonView {
        ReasonView { other: *self is Other, text: self.text() }
    }
}

/// `t` is the text of a known reason.
pub open spec fn known(t: Seq<char>) -> bool {
    exists|r: JobReason| !(r is Other) && #[trigger] r.text() == t
}

impl JobReason {
    /// The text of the reason.
    pub open spec fn text(self) -> Seq<char> {
        match self {
            JobReason::NoReason => "None"@,
            JobReason::Priority => "Priority"@,
            JobReason::Dependency => "Dependency"@,
            JobReason::DependencyNeverSatisfied => "DependencyNeverSatisfied"@,
            JobReason::Resources => "Resources"@,
            JobReason::Reservation => "Reservation"@,
            JobReason::ResvDeleted => "ResvDeleted"@,
            JobReason::BeginTime => "BeginTime"@,
            JobReason::Licenses => "Licenses"@,
            JobReason::NodeNotAvail => "ReqNodeNotAvail"@,
            JobReason::JobHeldUser => "JobHeldUser"@,
            JobReason::JobHeldAdmin => "JobHeldAdmin"@,
            JobReason::BadConstraints => "BadConstraints"@,
            JobReason::Cleaning => "Cleaning"@,
            JobReason::Prolog => "Prolog"@,
            JobReason::JobArrayTaskLimit => "JobArrayTaskLimit"@,
            JobReason::BurstBufferResources => "BurstBufferResources"@,
            JobReason::BurstBufferStageIn => "BurstBufferStageIn"@,
            JobReason::NodeReboot => "NodeReboot"@,
            JobReason::MaxRequeueExceeded => "MaxRequeueExceeded"@,
            JobReason::PlannedReservation => "PlannedReservation"@,
            JobReason::FedJobLock => "FedJobLock"@,
            JobReason::OutOfMemory => "OutOfMemory"@,
            JobReason::Preemption => "Preemption"@,
            JobReason::WaitingForScheduling => "WaitingForScheduling"@,
            JobReason::AdminHold => "AdminHold"@,
            JobReason::PartitionDown => "PartitionDown"@,
            JobReason::PartitionInactive => "PartitionInactive"@,
            JobReason::PartitionNodeLimit => "PartitionNodeLimit"@,
            JobReason::PartitionTimeLimit => "PartitionTimeLimit"@,
            JobReason::PartitionConfig => "PartitionConfig"@,
            JobReason::FrontEndDown => "FrontEndDown"@,
            JobReason::FrontEndUserDown => "FrontEndUserDown"@,
            JobReason::DownNodes => "DownNodes"@,
            JobReason::SystemFailure => "SystemFailure"@,
            JobReason::JobLaunchFailure => "JobLaunchFailure"@,
            JobReason::NonZeroExitCode => "NonZeroExitCode"@,
            JobReason::RaisedSignal => "RaisedSignal"@,
            JobReason::TimeLimit => "TimeLimit"@,
            JobReason::InactiveLimit => "InactiveLimit"@,
            JobReason::Deadline => "Deadline"@,
            JobReason::InvalidAccount => "InvalidAccount"@,
            JobReason::InvalidQOS => "InvalidQOS"@,
            JobReason::AccountNotAllowed => "AccountNotAllowed"@,
            JobReason::QOSNotAllowed => "QOSNotAllowed"@,
            JobReason::QOSUsageThreshold => "QOSUsageThreshold"@,
            JobReason::QOSJobLimit => "QOSJobLimit"@,
            JobReason::QOSResourceLimit => "QOSResourceLimit"@,
            JobReason::QOSTimeLimit => "QOSTimeLimit"@,
            JobReason::QOSGrpCpuLimit => "QOSGrpCpuLimit"@,
            JobReason::QOSGrpCpuMinutesLimit => "QOSGrpCpuMinutesLimit"@,
            JobReason::QOSGrpCpuRunMinutesLimit => "QOSGrpCpuRunMinutesLimit"@,
            JobReason::QOSGrpJobsLimit => "QOSGrpJobsLimit"@,
            JobReason::QOSGrpMemoryLimit => "QOSGrpMemoryLimit"@,
            JobReason::QOSGrpNodeLimit => "QOSGrpNodeLimit"@,
            JobReason::QOSGrpSubmitJobsLimit => "QOSGrpSubmitJobsLimit"@,
            JobReason::QOSGrpWallLimit => "QOSGrpWallLimit"@,
            JobReason::QOSMaxCpuMinutesPerJobLimit => "QOSMaxCpuMinutesPerJobLimit"@,
            JobReason::QOSMaxCpuPerJobLimit => "QOSMaxCpuPerJobLimit"@,
            JobReason::QOSMaxCpuPerNodeLimit => "QOSMaxCpuPerNodeLimit"@,
            JobReason::QOSMaxCpuPerUserLimit => "QOSMaxCpuPerUserLimit"@,
            JobReason::QOSMaxJobsPerAccountLimit => "QOSMaxJobsPerAccountLimit"@,
            JobReason::QOSMaxJobsPerUserLimit => "QOSMaxJobsPerUserLimit"@,
            JobReason::QOSMaxNodePerJobLimit => "QOSMaxNodePerJobLimit"@,
            JobReason::QOSMaxNodePerUserLimit => "QOSMaxNodePerUserLimit"@,
            JobReason::QOSMaxSubmitJobPerAccountLimit => "QOSMaxSubmitJobPerAccountLimit"@,
            JobReason::QOSMaxSubmitJobPerUserLimit => "QOSMaxSubmitJobPerUserLimit"@,
            JobReason::QOSMaxWallDurationPerJobLimit => "QOSMaxWallDurationPerJobLimit"@,
            JobReason::QOSMinCpuNotSatisfied => "QOSMinCpuNotSatisfied"@,
            JobReason::AssociationJobLimit => "AssociationJobLimit"@,
            JobReason::AssociationResourceLimit => "AssociationResourceLimit"@,
            JobReason::AssociationTimeLimit => "AssociationTimeLimit"@,
            JobReason::AssocGrpCpuLimit => "AssocGrpCpuLimit"@,
            JobReason::AssocGrpCpuMinutesLimit => "AssocGrpCpuMinutesLimit"@,
            JobReason::AssocGrpCpuRunMinutesLimit => "AssocGrpCpuRunMinutesLimit"@,
            JobReason::AssocGrpJobsLimit => "AssocGrpJobsLimit"@,
            JobReason::AssocGrpMemoryLimit => "AssocGrpMemoryLimit"@,
            JobReason::AssocGrpNodeLimit => "AssocGrpNodeLimit"@,
            JobReason::AssocGrpSubmitJobsLimit => "AssocGrpSubmitJobsLimit"@,
            JobReason::AssocGrpWallLimit => "AssocGrpWallLimit"@,
            JobReason::AssocMaxJobsLimit => "AssocMaxJobsLimit"@,
            JobReason::AssocMaxCpuPerJobLimit => "AssocMaxCpuPerJobLimit"@,
            JobReason::AssocMaxCpuMinutesPerJobLimit => "AssocMaxCpuMinutesPerJobLimit"@,
            JobReason::AssocMaxNodePerJobLimit => "AssocMaxNodePerJobLimit"@,
            JobReason::AssocMaxWallDurationPerJobLimit => "AssocMaxWallDurationPerJobLimit"@,
            JobReason::AssocMaxSubmitJobLimit => "AssocMaxSubmitJobLimit"@,
            JobReason::BlockMaxError => "BlockMaxError"@,
            JobReason::BlockFreeAction => "BlockFreeAction"@,
            JobReason::Other(s) => s@,
        }
    }

    /// The reason that `raw` reports: nothing is no reason, and what is not a known
    /// code is kept as it stands, without the white space around it.
    pub open spec fn parsed(raw: Seq<char>) -> ReasonView {
        let t = model::trim(raw);
        if t.len() == 0 {
            ReasonView { other: false, text: "None"@ }
        } else {
            ReasonView { other: !known(t), text: t }
        }
    }

    /// Reads a reason.
    pub fn parse(raw: &str) -> (r: JobReason)
        ensures
            r@ == Self::parsed(raw@),
    {
        let cs = text::chars_of(raw);
        Self::parse_chars(cs.as_slice())
    }

    /// Reads a reason from its characters.
    pub fn parse_chars(raw: &[char]) -> (r: JobReason)
        ensures
            r@ == Self::parsed(raw@),
    {
        let t = text::trim(raw);
        if t.len() == 0 {
            return JobReason::NoReason;
        }
        match find_known(t) {
            Some(r) => r,
            None => JobReason::Other(text::string_of(t)),
        }
    }

    /// The text of the reason; of another reason, the text that it was read from.
    pub fn as_str(&self) -> (r: &str)
        ensures
            r@ == self.text(),
    {
        match self {
            JobReason::NoReason => "None",
            JobReason::Priority => "Priority",
            JobReason::Dependency => "Dependency",
            JobReason::DependencyNeverSatisfied => "DependencyNeverSatisfied",
            JobReason::Resources => "Resources",
            JobReason::Reservation => "Reservation",
            JobReason::ResvDeleted => "ResvDeleted",
            JobReason::BeginTime => "BeginTime",
            JobReason::Licenses => "Licenses",
            JobReason::NodeNotAvail => "ReqNodeNotAvail",
            JobReason::JobHeldUser => "JobHeldUser",
            JobReason::JobHeldAdmin => "JobHeldAdmin",
            JobReason::BadConstraints => "BadConstraints",
            JobReason::Cleaning => "Cleaning",
            JobReason::Prolog => "Prolog",
            JobReason::JobArrayTaskLimit => "JobArrayTaskLimit",
            JobReason::BurstBufferResources => "BurstBufferResources",
            JobReason::BurstBufferStageIn => "BurstBufferStageIn",
            JobReason::NodeReboot => "NodeReboot",
            JobReason::MaxRequeueExceeded => "MaxRequeueExceeded",
            JobReason::PlannedReservation => "PlannedReservation",
            JobReason::FedJobLock => "FedJobLock",
            JobReason::OutOfMemory => "OutOfMemory",
            JobReason::Preemption => "Preemption",
            JobReason::WaitingForScheduling => "WaitingForScheduling",
            JobReason::AdminHold => "AdminHold",
            JobReason::PartitionDown => "PartitionDown",
            JobReason::PartitionInactive => "PartitionInactive",
            JobReason::PartitionNodeLimit => "PartitionNodeLimit",
            JobReason::PartitionTimeLimit => "PartitionTimeLimit",
            JobReason::PartitionConfig => "PartitionConfig",
            JobReason::FrontEndDown => "FrontEndDown",
            JobReason::FrontEndUserDown => "FrontEndUserDown",
            JobReason::DownNodes => "DownNodes",
            JobReason::SystemFailure => "SystemFailure",
            JobReason::JobLaunchFailure => "JobLaunchFailure",
            JobReason::NonZeroExitCode => "NonZeroExitCode",
            JobReason::RaisedSignal => "RaisedSignal",
            JobReason::TimeLimit => "TimeLimit",
            JobReason::InactiveLimit => "InactiveLimit",
            JobReason::Deadline => "Deadline",
            JobReason::InvalidAccount => "InvalidAccount",
            JobReason::InvalidQOS => "InvalidQOS",
            JobReason::AccountNotAllowed => "AccountNotAllowed",
            JobReason::QOSNotAllowed => "QOSNotAllowed",
            JobReason::QOSUsageThreshold => "QOSUsageThreshold",
            JobReason::QOSJobLimit => "QOSJobLimit",
            JobReason::QOSResourceLimit => "QOSResourceLimit",
            JobReason::QOSTimeLimit => "QOSTimeLimit",
            JobReason::QOSGrpCpuLimit => "QOSGrpCpuLimit",
            JobReason::QOSGrpCpuMinutesLimit => "QOSGrpCpuMinutesLimit",
            JobReason::QOSGrpCpuRunMinutesLimit => "QOSGrpCpuRunMinutesLimit",
            JobReason::QOSGrpJobsLimit => "QOSGrpJobsLimit",
            JobReason::QOSGrpMemoryLimit => "QOSGrpMemoryLimit",
            JobReason::QOSGrpNodeLimit => "QOSGrpNodeLimit",
            JobReason::QOSGrpSubmitJobsLimit => "QOSGrpSubmitJobsLimit",
            JobReason::QOSGrpWallLimit => "QOSGrpWallLimit",
            JobReason::QOSMaxCpuMinutesPerJobLimit => "QOSMaxCpuMinutesPerJobLimit",
            JobReason::QOSMaxCpuPerJobLimit => "QOSMaxCpuPerJobLimit",
            JobReason::QOSMaxCpuPerNodeLimit => "QOSMaxCpuPerNodeLimit",
            JobReason::QOSMaxCpuPerUserLimit => "QOSMaxCpuPerUserLimit",
            JobReason::QOSMaxJobsPerAccountLimit => "QOSMaxJobsPerAccountLimit",
            JobReason::QOSMaxJobsPerUserLimit => "QOSMaxJobsPerUserLimit",
            JobReason::QOSMaxNodePerJobLimit => "QOSMaxNodePerJobLimit",
            JobReason::QOSMaxNodePerUserLimit => "QOSMaxNodePerUserLimit",
            JobReason::QOSMaxSubmitJobPerAccountLimit => "QOSMaxSubmitJobPerAccountLimit",
            JobReason::QOSMaxSubmitJobPerUserLimit => "QOSMaxSubmitJobPerUserLimit",
            JobReason::QOSMaxWallDurationPerJobLimit => "QOSMaxWallDurationPerJobLimit",
            JobReason::QOSMinCpuNotSatisfied => "QOSMinCpuNotSatisfied",
            JobReason::AssociationJobLimit => "AssociationJobLimit",
            JobReason::AssociationResourceLimit => "AssociationResourceLimit",
            JobReason::AssociationTimeLimit => "AssociationTimeLimit",
            JobReason::AssocGrpCpuLimit => "AssocGrpCpuLimit",
            JobReason::AssocGrpCpuMinutesLimit => "AssocGrpCpuMinutesLimit",
            JobReason::AssocGrpCpuRunMinutesLimit => "AssocGrpCpuRunMinutesLimit",
            JobReason::AssocGrpJobsLimit => "AssocGrpJobsLimit",
            JobReason::AssocGrpMemoryLimit => "AssocGrpMemoryLimit",
            JobReason::AssocGrpNodeLimit => "AssocGrpNodeLimit",
            JobReason::AssocGrpSubmitJobsLimit => "AssocGrpSubmitJobsLimit",
            JobReason::AssocGrpWallLimit => "AssocGrpWallLimit",
            JobReason::AssocMaxJobsLimit => "AssocMaxJobsLimit",
            JobReason::AssocMaxCpuPerJobLimit => "AssocMaxCpuPerJobLimit",
            JobReason::AssocMaxCpuMinutesPerJobLimit => "AssocMaxCpuMinutesPerJobLimit",
            JobReason::AssocMaxNodePerJobLimit => "AssocMaxNodePerJobLimit",
            JobReason::AssocMaxWallDurationPerJobLimit => "AssocMaxWallDurationPerJobLimit",
            JobReason::AssocMaxSubmitJobLimit => "AssocMaxSubmitJobLimit",
            JobReason::BlockMaxError => "BlockMaxError",
            JobReason::BlockFreeAction => "BlockFreeAction",
            JobReason::Other(s) => s.as_str(),
        }
    }

    /// The name of the variant.
    pub open spec fn variant(self) -> Seq<char> {
        match self {
            JobReason::NodeNotAvail => "NodeNotAvail"@,
            JobReason::Other(_) => "Other"@,
            _ => self.text(),
        }
    }

    /// The name of the variant: the text of the reason for all but
    /// `JobReason::NodeNotAvail` and `JobReason::Other`.
    pub fn variant_name(&self) -> (r: &'static str)
        ensures
            r@ == self.variant(),
    {
        match self {
            JobReason::NoReason => "None",
            JobReason::Priority => "Priority",
            JobReason::Dependency => "Dependency",
            JobReason::DependencyNeverSatisfied => "DependencyNeverSatisfied",
            JobReason::Resources => "Resources",
            JobReason::Reservation => "Reservation",
            JobReason::ResvDeleted => "ResvDeleted",
            JobReason::BeginTime => "BeginTime",
            JobReason::Licenses => "Licenses",
            JobReason::NodeNotAvail => "NodeNotAvail",
            JobReason::JobHeldUser => "JobHeldUser",
            JobReason::JobHeldAdmin => "JobHeldAdmin",
            JobReason::BadConstraints => "BadConstraints",
            JobReason::Cleaning => "Cleaning",
            JobReason::Prolog => "Prolog",
            JobReason::JobArrayTaskLimit => "JobArrayTaskLimit",
            JobReason::BurstBufferResources => "BurstBufferResources",
            JobReason::BurstBufferStageIn => "BurstBufferStageIn",
            JobReason::NodeReboot => "NodeReboot",
            JobReason::MaxRequeueExceeded => "MaxRequeueExceeded",
            JobReason::PlannedReservation => "PlannedReservation",
            JobReason::FedJobLock => "FedJobLock",
            JobReason::OutOfMemory => "OutOfMemory",
            JobReason::Preemption => "Preemption",
            JobReason::WaitingForScheduling => "WaitingForScheduling",
            JobReason::AdminHold => "AdminHold",
            JobReason::PartitionDown => "PartitionDown",
            JobReason::PartitionInactive => "PartitionInactive",
            JobReason::PartitionNodeLimit => "PartitionNodeLimit",
            JobReason::PartitionTimeLimit => "PartitionTimeLimit",
            JobReason::PartitionConfig => "PartitionConfig",
            JobReason::FrontEndDown => "FrontEndDown",
            JobReason::FrontEndUserDown => "FrontEndUserDown",
            JobReason::DownNodes => "DownNodes",
            JobReason::SystemFailure => "SystemFailure",
            JobReason::JobLaunchFailure => "JobLaunchFailure",
            JobReason::NonZeroExitCode => "NonZeroExitCode",
            JobReason::RaisedSignal => "RaisedSignal",
            JobReason::TimeLimit => "TimeLimit",
            JobReason::InactiveLimit => "InactiveLimit",
            JobReason::Deadline => "Deadline",
            JobReason::InvalidAccount => "InvalidAccount",
            JobReason::InvalidQOS => "InvalidQOS",
            JobReason::AccountNotAllowed => "AccountNotAllowed",
            JobReason::QOSNotAllowed => "QOSNotAllowed",
            JobReason::QOSUsageThreshold => "QOSUsageThreshold",
            JobReason::QOSJobLimit => "QOSJobLimit",
            JobReason::QOSResourceLimit => "QOSResourceLimit",
            JobReason::QOSTimeLimit => "QOSTimeLimit",
            JobReason::QOSGrpCpuLimit => "QOSGrpCpuLimit",
            JobReason::QOSGrpCpuMinutesLimit => "QOSGrpCpuMinutesLimit",
            JobReason::QOSGrpCpuRunMinutesLimit => "QOSGrpCpuRunMinutesLimit",
            JobReason::QOSGrpJobsLimit => "QOSGrpJobsLimit",
            JobReason::QOSGrpMemoryLimit => "QOSGrpMemoryLimit",
            JobReason::QOSGrpNodeLimit => "QOSGrpNodeLimit",
            JobReason::QOSGrpSubmitJobsLimit => "QOSGrpSubmitJobsLimit",
            JobReason::QOSGrpWallLimit => "QOSGrpWallLimit",
            JobReason::QOSMaxCpuMinutesPerJobLimit => "QOSMaxCpuMinutesPerJobLimit",
            JobReason::QOSMaxCpuPerJobLimit => "QOSMaxCpuPerJobLimit",
            JobReason::QOSMaxCpuPerNodeLimit => "QOSMaxCpuPerNodeLimit",
            JobReason::QOSMaxCpuPerUserLimit => "QOSMaxCpuPerUserLimit",
            JobReason::QOSMaxJobsPerAccountLimit => "QOSMaxJobsPerAccountLimit",
            JobReason::QOSMaxJobsPerUserLimit => "QOSMaxJobsPerUserLimit",
            JobReason::QOSMaxNodePerJobLimit => "QOSMaxNodePerJobLimit",
            JobReason::QOSMaxNodePerUserLimit => "QOSMaxNodePerUserLimit",
            JobReason::QOSMaxSubmitJobPerAccountLimit => "QOSMaxSubmitJobPerAccountLimit",
            JobReason::QOSMaxSubmitJobPerUserLimit => "QOSMaxSubmitJobPerUserLimit",
            JobReason::QOSMaxWallDurationPerJobLimit => "QOSMaxWallDurationPerJobLimit",
            JobReason::QOSMinCpuNotSatisfied => "QOSMinCpuNotSatisfied",
            JobReason::AssociationJobLimit => "AssociationJobLimit",
            JobReason::AssociationResourceLimit => "AssociationResourceLimit",
            JobReason::AssociationTimeLimit => "AssociationTimeLimit",
            JobReason::AssocGrpCpuLimit => "AssocGrpCpuLimit",
            JobReason::AssocGrpCpuMinutesLimit => "AssocGrpCpuMinutesLimit",
            JobReason::AssocGrpCpuRunMinutesLimit => "AssocGrpCpuRunMinutesLimit",
            JobReason::AssocGrpJobsLimit => "AssocGrpJobsLimit",
            JobReason::AssocGrpMemoryLimit => "AssocGrpMemoryLimit",
            JobReason::AssocGrpNodeLimit => "AssocGrpNodeLimit",
            JobReason::AssocGrpSubmitJobsLimit => "AssocGrpSubmitJobsLimit",
            JobReason::AssocGrpWallLimit => "AssocGrpWallLimit",
            JobReason::AssocMaxJobsLimit => "AssocMaxJobsLimit",
            JobReason::AssocMaxCpuPerJobLimit => "AssocMaxCpuPerJobLimit",
            JobReason::AssocMaxCpuMinutesPerJobLimit => "AssocMaxCpuMinutesPerJobLimit",
            JobReason::AssocMaxNodePerJobLimit => "AssocMaxNodePerJobLimit",
            JobReason::AssocMaxWallDurationPerJobLimit => "AssocMaxWallDurationPerJobLimit",
            JobReason::AssocMaxSubmitJobLimit => "AssocMaxSubmitJobLimit",
            JobReason::BlockMaxError => "BlockMaxError",
            JobReason::BlockFreeAction => "BlockFreeAction",
            JobReason::Other(_) => "Other",
        }
    }
}

impl Clone for JobReason {
    fn clone(&self) -> (r: JobReason)
        ensures
            r == *self,
    {
        match self {
            JobReason::NoReason => JobReason::NoReason,
            JobReason::Priority => JobReason::Priority,
            JobReason::Dependency => JobReason::Dependency,
            JobReason::DependencyNeverSatisfied => JobReason::DependencyNeverSatisfied,
            JobReason::Resources => JobReason::Resources,
            JobReason::Reservation => JobReason::Reservation,
            JobReason::ResvDeleted => JobReason::ResvDeleted,
            JobReason::BeginTime => JobReason::BeginTime,
            JobReason::Licenses => JobReason::Licenses,
            JobReason::NodeNotAvail => JobReason::NodeNotAvail,
            JobReason::JobHeldUser => JobReason::JobHeldUser,
            JobReason::JobHeldAdmin => JobReason::JobHeldAdmin,
            JobReason::BadConstraints => JobReason::BadConstraints,
            JobReason::Cleaning => JobReason::Cleaning,
            JobReason::Prolog => JobReason::Prolog,
            JobReason::JobArrayTaskLimit => JobReason::JobArrayTaskLimit,
            JobReason::BurstBufferResources => JobReason::BurstBufferResources,
            JobReason::BurstBufferStageIn => JobReason::BurstBufferStageIn,
            JobReason::NodeReboot => JobReason::NodeReboot,
            JobReason::MaxRequeueExceeded => JobReason::MaxRequeueExceeded,
            JobReason::PlannedReservation => JobReason::PlannedReservation,
            JobReason::FedJobLock => JobReason::FedJobLock,
            JobReason::OutOfMemory => JobReason::OutOfMemory,
            JobReason::Preemption => JobReason::Preemption,
            JobReason::WaitingForScheduling => JobReason::WaitingForScheduling,
            JobReason::AdminHold => JobReason::AdminHold,
            JobReason::PartitionDown => JobReason::PartitionDown,
            JobReason::PartitionInactive => JobReason::PartitionInactive,
            JobReason::PartitionNodeLimit => JobReason::PartitionNodeLimit,
            JobReason::PartitionTimeLimit => JobReason::PartitionTimeLimit,
            JobReason::PartitionConfig => JobReason::PartitionConfig,
            JobReason::FrontEndDown => JobReason::FrontEndDown,
            JobReason::FrontEndUserDown => JobReason::FrontEndUserDown,
            JobReason::DownNodes => JobReason::DownNodes,
            JobReason::SystemFailure => JobReason::SystemFailure,
            JobReason::JobLaunchFailure => JobReason::JobLaunchFailure,
            JobReason::NonZeroExitCode => JobReason::NonZeroExitCode,
            JobReason::RaisedSignal => JobReason::RaisedSignal,
            JobReason::TimeLimit => JobReason::TimeLimit,
            JobReason::InactiveLimit => JobReason::InactiveLimit,
            JobReason::Deadline => JobReason::Deadline,
            JobReason::InvalidAccount => JobReason::InvalidAccount,
            JobReason::InvalidQOS => JobReason::InvalidQOS,
            JobReason::AccountNotAllowed => JobReason::AccountNotAllowed,
            JobReason::QOSNotAllowed => JobReason::QOSNotAllowed,
            JobReason::QOSUsageThreshold => JobReason::QOSUsageThreshold,
            JobReason::QOSJobLimit => JobReason::QOSJobLimit,
            JobReason::QOSResourceLimit => JobReason::QOSResourceLimit,
            JobReason::QOSTimeLimit => JobReason::QOSTimeLimit,
            JobReason::QOSGrpCpuLimit => JobReason::QOSGrpCpuLimit,
            JobReason::QOSGrpCpuMinutesLimit => JobReason::QOSGrpCpuMinutesLimit,
            JobReason::QOSGrpCpuRunMinutesLimit => JobReason::QOSGrpCpuRunMinutesLimit,
            JobReason::QOSGrpJobsLimit => JobReason::QOSGrpJobsLimit,
            JobReason::QOSGrpMemoryLimit => JobReason::QOSGrpMemoryLimit,
            JobReason::QOSGrpNodeLimit => JobReason::QOSGrpNodeLimit,
            JobReason::QOSGrpSubmitJobsLimit => JobReason::QOSGrpSubmitJobsLimit,
            JobReason::QOSGrpWallLimit => JobReason::QOSGrpWallLimit,
            JobReason::QOSMaxCpuMinutesPerJobLimit => JobReason::QOSMaxCpuMinutesPerJobLimit,
            JobReason::QOSMaxCpuPerJobLimit => JobReason::QOSMaxCpuPerJobLimit,
            JobReason::QOSMaxCpuPerNodeLimit => JobReason::QOSMaxCpuPerNodeLimit,
            JobReason::QOSMaxCpuPerUserLimit => JobReason::QOSMaxCpuPerUserLimit,
            JobReason::QOSMaxJobsPerAccountLimit => JobReason::QOSMaxJobsPerAccountLimit,
            JobReason::QOSMaxJobsPerUserLimit => JobReason::QOSMaxJobsPerUserLimit,
            JobReason::QOSMaxNodePerJobLimit => JobReason::QOSMaxNodePerJobLimit,
            JobReason::QOSMaxNodePerUserLimit => JobReason::QOSMaxNodePerUserLimit,
            JobReason::QOSMaxSubmitJobPerAccountLimit => JobReason::QOSMaxSubmitJobPerAccountLimit,
            JobReason::QOSMaxSubmitJobPerUserLimit => JobReason::QOSMaxSubmitJobPerUserLimit,
            JobReason::QOSMaxWallDurationPerJobLimit => JobReason::QOSMaxWallDurationPerJobLimit,
            JobReason::QOSMinCpuNotSatisfied => JobReason::QOSMinCpuNotSatisfied,
            JobReason::AssociationJobLimit => JobReason::AssociationJobLimit,
            JobReason::AssociationResourceLimit => JobReason::AssociationResourceLimit,
            JobReason::AssociationTimeLimit => JobReason::AssociationTimeLimit,
            JobReason::AssocGrpCpuLimit => JobReason::AssocGrpCpuLimit,
            JobReason::AssocGrpCpuMinutesLimit => JobReason::AssocGrpCpuMinutesLimit,
            JobReason::AssocGrpCpuRunMinutesLimit => JobReason::AssocGrpCpuRunMinutesLimit,
            JobReason::AssocGrpJobsLimit => JobReason::AssocGrpJobsLimit,
            JobReason::AssocGrpMemoryLimit => JobReason::AssocGrpMemoryLimit,
            JobReason::AssocGrpNodeLimit => JobReason::AssocGrpNodeLimit,
            JobReason::AssocGrpSubmitJobsLimit => JobReason::AssocGrpSubmitJobsLimit,
            JobReason::AssocGrpWallLimit => JobReason::AssocGrpWallLimit,
            JobReason::AssocMaxJobsLimit => JobReason::AssocMaxJobsLimit,
            JobReason::AssocMaxCpuPerJobLimit => JobReason::AssocMaxCpuPerJobLimit,
            JobReason::AssocMaxCpuMinutesPerJobLimit => JobReason::AssocMaxCpuMinutesPerJobLimit,
            JobReason::AssocMaxNodePerJobLimit => JobReason::AssocMaxNodePerJobLimit,
            JobReason::AssocMaxWallDurationPerJobLimit => JobReason::AssocMaxWallDurationPerJobLimit,
            JobReason::AssocMaxSubmitJobLimit => JobReason::AssocMaxSubmitJobLimit,
            JobReason::BlockMaxError => JobReason::BlockMaxError,
            JobReason::BlockFreeAction => JobReason::BlockFreeAction,
            JobReason::Other(s) => JobReason::Other(s.clone()),
        }
    }
}

/// The known reason with that text.
fn find_known(t: &[char]) -> (r: Option<JobReason>)
    ensures
        match r {
            Some(x) => !(x is Other) && x.text() == t@,
            None => !known(t@),
        },
{
    if text::is_str(t, "None") {
        Some(JobReason::NoReason)
    } else if text::is_str(t, "Priority") {
        Some(JobReason::Priority)
    } else if text::is_str(t, "Dependency") {
        Some(JobReason::Dependency)
    } else if text::is_str(t, "DependencyNeverSatisfied") {
        Some(JobReason::DependencyNeverSatisfied)
    } else if text::is_str(t, "Resources") {
        Some(JobReason::Resources)
    } else if text::is_str(t, "Reservation") {
        Some(JobReason::Reservation)
    } else if text::is_str(t, "ResvDeleted") {
        Some(JobReason::ResvDeleted)
    } else if text::is_str(t, "BeginTime") {
        Some(JobReason::BeginTime)
    } else if text::is_str(t, "Licenses") {
        Some(JobReason::Licenses)
    } else if text::is_str(t, "ReqNodeNotAvail") {
        Some(JobReason::NodeNotAvail)
    } else if text::is_str(t, "JobHeldUser") {
        Some(JobReason::JobHeldUser)
    } else if text::is_str(t, "JobHeldAdmin") {
        Some(JobReason::JobHeldAdmin)
    } else if text::is_str(t, "BadConstraints") {
        Some(JobReason::BadConstraints)
    } else if text::is_str(t, "Cleaning") {
        Some(JobReason::Cleaning)
    } else if text::is_str(t, "Prolog") {
        Some(JobReason::Prolog)
    } else if text::is_str(t, "JobArrayTaskLimit") {
        Some(JobReason::JobArrayTaskLimit)
    } else if text::is_str(t, "BurstBufferResources") {
        Some(JobReason::BurstBufferResources)
    } else if text::is_str(t, "BurstBufferStageIn") {
        Some(JobReason::BurstBufferStageIn)
    } else if text::is_str(t, "NodeReboot") {
        Some(JobReason::NodeReboot)
    } else if text::is_str(t, "MaxRequeueExceeded") {
        Some(JobReason::MaxRequeueExceeded)
    } else if text::is_str(t, "PlannedReservation") {
        Some(JobReason::PlannedReservation)
    } else if text::is_str(t, "FedJobLock") {
        Some(JobReason::FedJobLock)
    } else if text::is_str(t, "OutOfMemory") {
        Some(JobReason::OutOfMemory)
    } else if text::is_str(t, "Preemption") {
        Some(JobReason::Preemption)
    } else if text::is_str(t, "WaitingForScheduling") {
        Some(JobReason::WaitingForScheduling)
    } else if text::is_str(t, "AdminHold") {
        Some(JobReason::AdminHold)
    } else if text::is_str(t, "PartitionDown") {
        Some(JobReason::PartitionDown)
    } else if text::is_str(t, "PartitionInactive") {
        Some(JobReason::PartitionInactive)
    } else if text::is_str(t, "PartitionNodeLimit") {
        Some(JobReason::PartitionNodeLimit)
    } else if text::is_str(t, "PartitionTimeLimit") {
        Some(JobReason::PartitionTimeLimit)
    } else if text::is_str(t, "PartitionConfig") {
        Some(JobReason::PartitionConfig)
    } else if text::is_str(t, "FrontEndDown") {
        Some(JobReason::FrontEndDown)
    } else if text::is_str(t, "FrontEndUserDown") {
        Some(JobReason::FrontEndUserDown)
    } else if text::is_str(t, "DownNodes") {
        Some(JobReason::DownNodes)
    } else if text::is_str(t, "SystemFailure") {
        Some(JobReason::SystemFailure)
    } else if text::is_str(t, "JobLaunchFailure") {
        Some(JobReason::JobLaunchFailure)
    } else if text::is_str(t, "NonZeroExitCode") {
        Some(JobReason::NonZeroExitCode)
    } else if text::is_str(t, "RaisedSignal") {
        Some(JobReason::RaisedSignal)
    } else if text::is_str(t, "TimeLimit") {
        Some(JobReason::TimeLimit)
    } else if text::is_str(t, "InactiveLimit") {
        Some(JobReason::InactiveLimit)
    } else if text::is_str(t, "Deadline") {
        Some(JobReason::Deadline)
    } else if text::is_str(t, "InvalidAccount") {
        Some(JobReason::InvalidAccount)
    } else if text::is_str(t, "InvalidQOS") {
        Some(JobReason::InvalidQOS)
    } else if text::is_str(t, "AccountNotAllowed") {
        Some(JobReason::AccountNotAllowed)
    } else if text::is_str(t, "QOSNotAllowed") {
        Some(JobReason::QOSNotAllowed)
    } else if text::is_str(t, "QOSUsageThreshold") {
        Some(JobReason::QOSUsageThreshold)
    } else if text::is_str(t, "QOSJobLimit") {
        Some(JobReason::QOSJobLimit)
    } else if text::is_str(t, "QOSResourceLimit") {
        Some(JobReason::QOSResourceLimit)
    } else if text::is_str(t, "QOSTimeLimit") {
        Some(JobReason::QOSTimeLimit)
    } else if text::is_str(t, "QOSGrpCpuLimit") {
        Some(JobReason::QOSGrpCpuLimit)
    } else if text::is_str(t, "QOSGrpCpuMinutesLimit") {
        Some(JobReason::QOSGrpCpuMinutesLimit)
    } else if text::is_str(t, "QOSGrpCpuRunMinutesLimit") {
        Some(JobReason::QOSGrpCpuRunMinutesLimit)
    } else if text::is_str(t, "QOSGrpJobsLimit") {
        Some(JobReason::QOSGrpJobsLimit)
    } else if text::is_str(t, "QOSGrpMemoryLimit") {
        Some(JobReason::QOSGrpMemoryLimit)
    } else if text::is_str(t, "QOSGrpNodeLimit") {
        Some(JobReason::QOSGrpNodeLimit)
    } else if text::is_str(t, "QOSGrpSubmitJobsLimit") {
        Some(JobReason::QOSGrpSubmitJobsLimit)
    } else if text::is_str(t, "QOSGrpWallLimit") {
        Some(JobReason::QOSGrpWallLimit)
    } else if text::is_str(t, "QOSMaxCpuMinutesPerJobLimit") {
        Some(JobReason::QOSMaxCpuMinutesPerJobLimit)
    } else if text::is_str(t, "QOSMaxCpuPerJobLimit") {
        Some(JobReason::QOSMaxCpuPerJobLimit)
    } else if text::is_str(t, "QOSMaxCpuPerNodeLimit") {
        Some(JobReason::QOSMaxCpuPerNodeLimit)
    } else if text::is_str(t, "QOSMaxCpuPerUserLimit") {
        Some(JobReason::QOSMaxCpuPerUserLimit)
    } else if text::is_str(t, "QOSMaxJobsPerAccountLimit") {
        Some(JobReason::QOSMaxJobsPerAccountLimit)
    } else if text::is_str(t, "QOSMaxJobsPerUserLimit") {
        Some(JobReason::QOSMaxJobsPerUserLimit)
    } else if text::is_str(t, "QOSMaxNodePerJobLimit") {
        Some(JobReason::QOSMaxNodePerJobLimit)
    } else if text::is_str(t, "QOSMaxNodePerUserLimit") {
        Some(JobReason::QOSMaxNodePerUserLimit)
    } else if text::is_str(t, "QOSMaxSubmitJobPerAccountLimit") {
        Some(JobReason::QOSMaxSubmitJobPerAccountLimit)
    } else if text::is_str(t, "QOSMaxSubmitJobPerUserLimit") {
        Some(JobReason::QOSMaxSubmitJobPerUserLimit)
    } else if text::is_str(t, "QOSMaxWallDurationPerJobLimit") {
        Some(JobReason::QOSMaxWallDurationPerJobLimit)
    } else if text::is_str(t, "QOSMinCpuNotSatisfied") {
        Some(JobReason::QOSMinCpuNotSatisfied)
    } else if text::is_str(t, "AssociationJobLimit") {
        Some(JobReason::AssociationJobLimit)
    } else if text::is_str(t, "AssociationResourceLimit") {
        Some(JobReason::AssociationResourceLimit)
    } else if text::is_str(t, "AssociationTimeLimit") {
        Some(JobReason::AssociationTimeLimit)
    } else if text::is_str(t, "AssocGrpCpuLimit") {
        Some(JobReason::AssocGrpCpuLimit)
    } else if text::is_str(t, "AssocGrpCpuMinutesLimit") {
        Some(JobReason::AssocGrpCpuMinutesLimit)
    } else if text::is_str(t, "AssocGrpCpuRunMinutesLimit") {
        Some(JobReason::AssocGrpCpuRunMinutesLimit)
    } else if text::is_str(t, "AssocGrpJobsLimit") {
        Some(JobReason::AssocGrpJobsLimit)
    } else if text::is_str(t, "AssocGrpMemoryLimit") {
        Some(JobReason::AssocGrpMemoryLimit)
    } else if text::is_str(t, "AssocGrpNodeLimit") {
        Some(JobReason::AssocGrpNodeLimit)
    } else if text::is_str(t, "AssocGrpSubmitJobsLimit") {
        Some(JobReason::AssocGrpSubmitJobsLimit)
    } else if text::is_str(t, "AssocGrpWallLimit") {
        Some(JobReason::AssocGrpWallLimit)
    } else if text::is_str(t, "AssocMaxJobsLimit") {
        Some(JobReason::AssocMaxJobsLimit)
    } else if text::is_str(t, "AssocMaxCpuPerJobLimit") {
        Some(JobReason::AssocMaxCpuPerJobLimit)
    } else if text::is_str(t, "AssocMaxCpuMinutesPerJobLimit") {
        Some(JobReason::AssocMaxCpuMinutesPerJobLimit)
    } else if text::is_str(t, "AssocMaxNodePerJobLimit") {
        Some(JobReason::AssocMaxNodePerJobLimit)
    } else if text::is_str(t, "AssocMaxWallDurationPerJobLimit") {
        Some(JobReason::AssocMaxWallDurationPerJobLimit)
    } else if text::is_str(t, "AssocMaxSubmitJobLimit") {
        Some(JobReason::AssocMaxSubmitJobLimit)
    } else if text::is_str(t, "BlockMaxError") {
        Some(JobReason::BlockMaxError)
    } else if text::is_str(t, "BlockFreeAction") {
        Some(JobReason::BlockFreeAction)
    } else {
        None
    }
}

/// A number that tells the known texts apart: their length and two of their
/// characters.
spec fn print(t: Seq<char>) -> int {
    t.len() * 1_000_000 + t[3 * t.len() as int / 10] as int * 1_000 + t[3 * t.len() as int
        / 5] as int
}

/// The number of the text of each known reason.
spec fn print_of(r: JobReason) -> int {
    match r {
        JobReason::NoReason => 4111110,
        JobReason::Priority => 8105114,
        JobReason::Dependency => 10101101,
        JobReason::DependencyNeverSatisfied => 24110114,
        JobReason::Resources => 9115114,
        JobReason::Reservation => 11101097,
        JobReason::ResvDeleted => 11118108,
        JobReason::BeginTime => 9103084,
        JobReason::Licenses => 8099110,
        JobReason::NodeNotAvail => 15111116,
        JobReason::JobHeldUser => 11072100,
        JobReason::JobHeldAdmin => 12072065,
        JobReason::BadConstraints => 14111114,
        JobReason::Cleaning => 8101110,
        JobReason::Prolog => 6114108,
        JobReason::JobArrayTaskLimit => 17114115,
        JobReason::BurstBufferResources => 20117101,
        JobReason::BurstBufferStageIn => 18066114,
        JobReason::NodeReboot => 10101098,
        JobReason::MaxRequeueExceeded => 18113069,
        JobReason::PlannedReservation => 18101101,
        JobReason::FedJobLock => 10074076,
        JobReason::OutOfMemory => 11079101,
        JobReason::Preemption => 10101116,
        JobReason::WaitingForScheduling => 20103104,
        JobReason::AdminHold => 9109072,
        JobReason::PartitionDown => 13116111,
        JobReason::PartitionInactive => 17116110,
        JobReason::PartitionNodeLimit => 18116111,
        JobReason::PartitionTimeLimit => 18116105,
        JobReason::PartitionConfig => 15105067,
        JobReason::FrontEndDown => 12110100,
        JobReason::FrontEndUserDown => 16116115,
        JobReason::DownNodes => 9119111,
        JobReason::SystemFailure => 13116097,
        JobReason::JobLaunchFailure => 16097070,
        JobReason::NonZeroExitCode => 15101105,
        JobReason::RaisedSignal => 12115105,
        JobReason::TimeLimit => 9109105,
        JobReason::InactiveLimit => 13099101,
        JobReason::Deadline => 8097108,
        JobReason::InvalidAccount => 14108099,
        JobReason::InvalidQOS => 10097100,
        JobReason::AccountNotAllowed => 17110065,
        JobReason::QOSNotAllowed => 13078108,
        JobReason::QOSUsageThreshold => 17097114,
        JobReason::QOSJobLimit => 11074076,
        JobReason::QOSResourceLimit => 16101099,
        JobReason::QOSTimeLimit => 12084076,
        JobReason::QOSGrpCpuLimit => 14114117,
        JobReason::QOSGrpCpuMinutesLimit => 21067117,
        JobReason::QOSGrpCpuRunMinutesLimit => 24112110,
        JobReason::QOSGrpJobsLimit => 15114115,
        JobReason::QOSGrpMemoryLimit => 17112114,
        JobReason::QOSGrpNodeLimit => 15114101,
        JobReason::QOSGrpSubmitJobsLimit => 21083074,
        JobReason::QOSGrpWallLimit => 15114108,
        JobReason::QOSMaxCpuMinutesPerJobLimit => 27117080,
        JobReason::QOSMaxCpuPerJobLimit => 20067074,
        JobReason::QOSMaxCpuPerNodeLimit => 21067078,
        JobReason::QOSMaxCpuPerUserLimit => 21067085,
        JobReason::QOSMaxJobsPerAccountLimit => 25111099,
        JobReason::QOSMaxJobsPerUserLimit => 22074085,
        JobReason::QOSMaxNodePerJobLimit => 21078114,
        JobReason::QOSMaxNodePerUserLimit => 22078085,
        JobReason::QOSMaxSubmitJobPerAccountLimit => 30109065,
        JobReason::QOSMaxSubmitJobPerUserLimit => 27098101,
        JobReason::QOSMaxWallDurationPerJobLimit => 29108110,
        JobReason::QOSMinCpuNotSatisfied => 21067083,
        JobReason::AssociationJobLimit => 19105074,
        JobReason::AssociationResourceLimit => 24116111,
        JobReason::AssociationTimeLimit => 20097105,
        JobReason::AssocGrpCpuLimit => 16099112,
        JobReason::AssocGrpCpuMinutesLimit => 23114110,
        JobReason::AssocGrpCpuRunMinutesLimit => 26112105,
        JobReason::AssocGrpJobsLimit => 17071098,
        JobReason::AssocGrpMemoryLimit => 19071111,
        JobReason::AssocGrpNodeLimit => 17071100,
        JobReason::AssocGrpSubmitJobsLimit => 23114116,
        JobReason::AssocGrpWallLimit => 17071108,
        JobReason::AssocMaxJobsLimit => 17077098,
        JobReason::AssocMaxCpuPerJobLimit => 22097114,
        JobReason::AssocMaxCpuMinutesPerJobLimit => 29067115,
        JobReason::AssocMaxNodePerJobLimit => 23097101,
        JobReason::AssocMaxWallDurationPerJobLimit => 31097111,
        JobReason::AssocMaxSubmitJobLimit => 22097116,
        JobReason::BlockMaxError => 13099120,
        JobReason::BlockFreeAction => 15107065,
        JobReason::Other(_) => 0,
    }
}

/// The number is that of the text, and no white space stands at its ends.
proof fn lemma_known_text(r: JobReason)
    requires
        !(r is Other),
    ensures
        print(r.text()) == print_of(r),
        r.text().len() > 0,
        model::trim(r.text()) == r.text(),
{
    match r {
        JobReason::NoReason => {
            reveal_strlit("None");
            assert(r.text().len() == 4 && r.text()[1] == 'o' && r.text()[2] == 'n');
            assert(r.text()[0] == 'N' && r.text()[3] == 'e');
        },
        JobReason::Priority => {
            reveal_strlit("Priority");
            assert(r.text().len() == 8 && r.text()[2] == 'i' && r.text()[4] == 'r');
            assert(r.text()[0] == 'P' && r.text()[7] == 'y');
        },
        JobReason::Dependency => {
            reveal_strlit("Dependency");
            assert(r.text().len() == 10 && r.text()[3] == 'e' && r.text()[6] == 'e');
            assert(r.text()[0] == 'D' && r.text()[9] == 'y');
        },
        JobReason::DependencyNeverSatisfied => {
            reveal_strlit("DependencyNeverSatisfied");
            assert(r.text().len() == 24 && r.text()[7] == 'n' && r.text()[14] == 'r');
            assert(r.text()[0] == 'D' && r.text()[23] == 'd');
        },
        JobReason::Resources => {
            reveal_strlit("Resources");
            assert(r.text().len() == 9 && r.text()[2] == 's' && r.text()[5] == 'r');
            assert(r.text()[0] == 'R' && r.text()[8] == 's');
        },
        JobReason::Reservation => {
            reveal_strlit("Reservation");
            assert(r.text().len() == 11 && r.text()[3] == 'e' && r.text()[6] == 'a');
            assert(r.text()[0] == 'R' && r.text()[10] == 'n');
        },
        JobReason::ResvDeleted => {
            reveal_strlit("ResvDeleted");
            assert(r.text().len() == 11 && r.text()[3] == 'v' && r.text()[6] == 'l');
            assert(r.text()[0] == 'R' && r.text()[10] == 'd');
        },
        JobReason::BeginTime => {
            reveal_strlit("BeginTime");
            assert(r.text().len() == 9 && r.text()[2] == 'g' && r.text()[5] == 'T');
            assert(r.text()[0] == 'B' && r.text()[8] == 'e');
        },
        JobReason::Licenses => {
            reveal_strlit("Licenses");
            assert(r.text().len() == 8 && r.text()[2] == 'c' && r.text()[4] == 'n');
            assert(r.text()[0] == 'L' && r.text()[7] == 's');
        },
        JobReason::NodeNotAvail => {
            reveal_strlit("ReqNodeNotAvail");
            assert(r.text().len() == 15 && r.text()[4] == 'o' && r.text()[9] == 't');
            assert(r.text()[0] == 'R' && r.text()[14] == 'l');
        },
        JobReason::JobHeldUser => {
            reveal_strlit("JobHeldUser");
            assert(r.text().len() == 11 && r.text()[3] == 'H' && r.text()[6] == 'd');
            assert(r.text()[0] == 'J' && r.text()[10] == 'r');
        },
        JobReason::JobHeldAdmin => {
            reveal_strlit("JobHeldAdmin");
            assert(r.text().len() == 12 && r.text()[3] == 'H' && r.text()[7] == 'A');
            assert(r.text()[0] == 'J' && r.text()[11] == 'n');
        },
        JobReason::BadConstraints => {
            reveal_strlit("BadConstraints");
            assert(r.text().len() == 14 && r.text()[4] == 'o' && r.text()[8] == 'r');
            assert(r.text()[0] == 'B' && r.text()[13] == 's');
        },
        JobReason::Cleaning => {
            reveal_strlit("Cleaning");
            assert(r.text().len() == 8 && r.text()[2] == 'e' && r.text()[4] == 'n');
            assert(r.text()[0] == 'C' && r.text()[7] == 'g');
        },
        JobReason::Prolog => {
            reveal_strlit("Prolog");
            assert(r.text().len() == 6 && r.text()[1] == 'r' && r.text()[3] == 'l');
            assert(r.text()[0] == 'P' && r.text()[5] == 'g');
        },
        JobReason::JobArrayTaskLimit => {
            reveal_strlit("JobArrayTaskLimit");
            assert(r.text().len() == 17 && r.text()[5] == 'r' && r.text()[10] == 's');
            assert(r.text()[0] == 'J' && r.text()[16] == 't');
        },
        JobReason::BurstBufferResources => {
            reveal_strlit("BurstBufferResources");
            assert(r.text().len() == 20 && r.text()[6] == 'u' && r.text()[12] == 'e');
            assert(r.text()[0] == 'B' && r.text()[19] == 's');
        },
        JobReason::BurstBufferStageIn => {
            reveal_strlit("BurstBufferStageIn");
            assert(r.text().len() == 18 && r.text()[5] == 'B' && r.text()[10] == 'r');
            assert(r.text()[0] == 'B' && r.text()[17] == 'n');
        },
        JobReason::NodeReboot => {
            reveal_strlit("NodeReboot");
            assert(r.text().len() == 10 && r.text()[3] == 'e' && r.text()[6] == 'b');
            assert(r.text()[0] == 'N' && r.text()[9] == 't');
        },
        JobReason::MaxRequeueExceeded => {
            reveal_strlit("MaxRequeueExceeded");
            assert(r.text().len() == 18 && r.text()[5] == 'q' && r.text()[10] == 'E');
            assert(r.text()[0] == 'M' && r.text()[17] == 'd');
        },
        JobReason::PlannedReservation => {
            reveal_strlit("PlannedReservation");
            assert(r.text().len() == 18 && r.text()[5] == 'e' && r.text()[10] == 'e');
            assert(r.text()[0] == 'P' && r.text()[17] == 'n');
        },
        JobReason::FedJobLock => {
            reveal_strlit("FedJobLock");
            assert(r.text().len() == 10 && r.text()[3] == 'J' && r.text()[6] == 'L');
            assert(r.text()[0] == 'F' && r.text()[9] == 'k');
        },
        JobReason::OutOfMemory => {
            reveal_strlit("OutOfMemory");
            assert(r.text().len() == 11 && r.text()[3] == 'O' && r.text()[6] == 'e');
            assert(r.text()[0] == 'O' && r.text()[10] == 'y');
        },
        JobReason::Preemption => {
            reveal_strlit("Preemption");
            assert(r.text().len() == 10 && r.text()[3] == 'e' && r.text()[6] == 't');
            assert(r.text()[0] == 'P' && r.text()[9] == 'n');
        },
        JobReason::WaitingForScheduling => {
            reveal_strlit("WaitingForScheduling");
            assert(r.text().len() == 20 && r.text()[6] == 'g' && r.text()[12] == 'h');
            assert(r.text()[0] == 'W' && r.text()[19] == 'g');
        },
        JobReason::AdminHold => {
            reveal_strlit("AdminHold");
            assert(r.text().len() == 9 && r.text()[2] == 'm' && r.text()[5] == 'H');
            assert(r.text()[0] == 'A' && r.text()[8] == 'd');
        },
        JobReason::PartitionDown => {
            reveal_strlit("PartitionDown");
            assert(r.text().len() == 13 && r.text()[3] == 't' && r.text()[7] == 'o');
            assert(r.text()[0] == 'P' && r.text()[12] == 'n');
        },
        JobReason::PartitionInactive => {
            reveal_strlit("PartitionInactive");
            assert(r.text().len() == 17 && r.text()[5] == 't' && r.text()[10] == 'n');
            assert(r.text()[0] == 'P' && r.text()[16] == 'e');
        },
        JobReason::PartitionNodeLimit => {
            reveal_strlit("PartitionNodeLimit");
            assert(r.text().len() == 18 && r.text()[5] == 't' && r.text()[10] == 'o');
            assert(r.text()[0] == 'P' && r.text()[17] == 't');
        },
        JobReason::PartitionTimeLimit => {
            reveal_strlit("PartitionTimeLimit");
            assert(r.text().len() == 18 && r.text()[5] == 't' && r.text()[10] == 'i');
            assert(r.text()[0] == 'P' && r.text()[17] == 't');
        },
        JobReason::PartitionConfig => {
            reveal_strlit("PartitionConfig");
            assert(r.text().len() == 15 && r.text()[4] == 'i' && r.text()[9] == 'C');
            assert(r.text()[0] == 'P' && r.text()[14] == 'g');
        },
        JobReason::FrontEndDown => {
            reveal_strlit("FrontEndDown");
            assert(r.text().len() == 12 && r.text()[3] == 'n' && r.text()[7] == 'd');
            assert(r.text()[0] == 'F' && r.text()[11] == 'n');
        },
        JobReason::FrontEndUserDown => {
            reveal_strlit("FrontEndUserDown");
            assert(r.text().len() == 16 && r.text()[4] == 't' && r.text()[9] == 's');
            assert(r.text()[0] == 'F' && r.text()[15] == 'n');
        },
        JobReason::DownNodes => {
            reveal_strlit("DownNodes");
            assert(r.text().len() == 9 && r.text()[2] == 'w' && r.text()[5] == 'o');
            assert(r.text()[0] == 'D' && r.text()[8] == 's');
        },
        JobReason::SystemFailure => {
            reveal_strlit("SystemFailure");
            assert(r.text().len() == 13 && r.text()[3] == 't' && r.text()[7] == 'a');
            assert(r.text()[0] == 'S' && r.text()[12] == 'e');
        },
        JobReason::JobLaunchFailure => {
            reveal_strlit("JobLaunchFailure");
            assert(r.text().len() == 16 && r.text()[4] == 'a' && r.text()[9] == 'F');
            assert(r.text()[0] == 'J' && r.text()[15] == 'e');
        },
        JobReason::NonZeroExitCode => {
            reveal_strlit("NonZeroExitCode");
            assert(r.text().len() == 15 && r.text()[4] == 'e' && r.text()[9] == 'i');
            assert(r.text()[0] == 'N' && r.text()[14] == 'e');
        },
        JobReason::RaisedSignal => {
            reveal_strlit("RaisedSignal");
            assert(r.text().len() == 12 && r.text()[3] == 's' && r.text()[7] == 'i');
            assert(r.text()[0] == 'R' && r.text()[11] == 'l');
        },
        JobReason::TimeLimit => {
            reveal_strlit("TimeLimit");
            assert(r.text().len() == 9 && r.text()[2] == 'm' && r.text()[5] == 'i');
            assert(r.text()[0] == 'T' && r.text()[8] == 't');
        },
        JobReason::InactiveLimit => {
            reveal_strlit("InactiveLimit");
            assert(r.text().len() == 13 && r.text()[3] == 'c' && r.text()[7] == 'e');
            assert(r.text()[0] == 'I' && r.text()[12] == 't');
        },
        JobReason::Deadline => {
            reveal_strlit("Deadline");
            assert(r.text().len() == 8 && r.text()[2] == 'a' && r.text()[4] == 'l');
            assert(r.text()[0] == 'D' && r.text()[7] == 'e');
        },
        JobReason::InvalidAccount => {
            reveal_strlit("InvalidAccount");
            assert(r.text().len() == 14 && r.text()[4] == 'l' && r.text()[8] == 'c');
            assert(r.text()[0] == 'I' && r.text()[13] == 't');
        },
        JobReason::InvalidQOS => {
            reveal_strlit("InvalidQOS");
            assert(r.text().len() == 10 && r.text()[3] == 'a' && r.text()[6] == 'd');
            assert(r.text()[0] == 'I' && r.text()[9] == 'S');
        },
        JobReason::AccountNotAllowed => {
            reveal_strlit("AccountNotAllowed");
            assert(r.text().len() == 17 && r.text()[5] == 'n' && r.text()[10] == 'A');
            assert(r.text()[0] == 'A' && r.text()[16] == 'd');
        },
        JobReason::QOSNotAllowed => {
            reveal_strlit("QOSNotAllowed");
            assert(r.text().len() == 13 && r.text()[3] == 'N' && r.text()[7] == 'l');
            assert(r.text()[0] == 'Q' && r.text()[12] == 'd');
        },
        JobReason::QOSUsageThreshold => {
            reveal_strlit("QOSUsageThreshold");
            assert(r.text().len() == 17 && r.text()[5] == 'a' && r.text()[10] == 'r');
            assert(r.text()[0] == 'Q' && r.text()[16] == 'd');
        },
        JobReason::QOSJobLimit => {
            reveal_strlit("QOSJobLimit");
            assert(r.text().len() == 11 && r.text()[3] == 'J' && r.text()[6] == 'L');
            assert(r.text()[0] == 'Q' && r.text()[10] == 't');
        },
        JobReason::QOSResourceLimit => {
            reveal_strlit("QOSResourceLimit");
            assert(r.text().len() == 16 && r.text()[4] == 'e' && r.text()[9] == 'c');
            assert(r.text()[0] == 'Q' && r.text()[15] == 't');
        },
        JobReason::QOSTimeLimit => {
            reveal_strlit("QOSTimeLimit");
            assert(r.text().len() == 12 && r.text()[3] == 'T' && r.text()[7] == 'L');
            assert(r.text()[0] == 'Q' && r.text()[11] == 't');
        },
        JobReason::QOSGrpCpuLimit => {
            reveal_strlit("QOSGrpCpuLimit");
            assert(r.text().len() == 14 && r.text()[4] == 'r' && r.text()[8] == 'u');
            assert(r.text()[0] == 'Q' && r.text()[13] == 't');
        },
        JobReason::QOSGrpCpuMinutesLimit => {
            reveal_strlit("QOSGrpCpuMinutesLimit");
            assert(r.text().len() == 21 && r.text()[6] == 'C' && r.text()[12] == 'u');
            assert(r.text()[0] == 'Q' && r.text()[20] == 't');
        },
        JobReason::QOSGrpCpuRunMinutesLimit => {
            reveal_strlit("QOSGrpCpuRunMinutesLimit");
            assert(r.text().len() == 24 && r.text()[7] == 'p' && r.text()[14] == 'n');
            assert(r.text()[0] == 'Q' && r.text()[23] == 't');
        },
        JobReason::QOSGrpJobsLimit => {
            reveal_strlit("QOSGrpJobsLimit");
            assert(r.text().len() == 15 && r.text()[4] == 'r' && r.text()[9] == 's');
            assert(r.text()[0] == 'Q' && r.text()[14] == 't');
        },
        JobReason::QOSGrpMemoryLimit => {
            reveal_strlit("QOSGrpMemoryLimit");
            assert(r.text().len() == 17 && r.text()[5] == 'p' && r.text()[10] == 'r');
            assert(r.text()[0] == 'Q' && r.text()[16] == 't');
        },
        JobReason::QOSGrpNodeLimit => {
            reveal_strlit("QOSGrpNodeLimit");
            assert(r.text().len() == 15 && r.text()[4] == 'r' && r.text()[9] == 'e');
            assert(r.text()[0] == 'Q' && r.text()[14] == 't');
        },
        JobReason::QOSGrpSubmitJobsLimit => {
            reveal_strlit("QOSGrpSubmitJobsLimit");
            assert(r.text().len() == 21 && r.text()[6] == 'S' && r.text()[12] == 'J');
            assert(r.text()[0] == 'Q' && r.text()[20] == 't');
        },
        JobReason::QOSGrpWallLimit => {
            reveal_strlit("QOSGrpWallLimit");
            assert(r.text().len() == 15 && r.text()[4] == 'r' && r.text()[9] == 'l');
            assert(r.text()[0] == 'Q' && r.text()[14] == 't');
        },
        JobReason::QOSMaxCpuMinutesPerJobLimit => {
            reveal_strlit("QOSMaxCpuMinutesPerJobLimit");
            assert(r.text().len() == 27 && r.text()[8] == 'u' && r.text()[16] == 'P');
            assert(r.text()[0] == 'Q' && r.text()[26] == 't');
        },
        JobReason::QOSMaxCpuPerJobLimit => {
            reveal_strlit("QOSMaxCpuPerJobLimit");
            assert(r.text().len() == 20 && r.text()[6] == 'C' && r.text()[12] == 'J');
            assert(r.text()[0] == 'Q' && r.text()[19] == 't');
        },
        JobReason::QOSMaxCpuPerNodeLimit => {
            reveal_strlit("QOSMaxCpuPerNodeLimit");
            assert(r.text().len() == 21 && r.text()[6] == 'C' && r.text()[12] == 'N');
            assert(r.text()[0] == 'Q' && r.text()[20] == 't');
        },
        JobReason::QOSMaxCpuPerUserLimit => {
            reveal_strlit("QOSMaxCpuPerUserLimit");
            assert(r.text().len() == 21 && r.text()[6] == 'C' && r.text()[12] == 'U');
            assert(r.text()[0] == 'Q' && r.text()[20] == 't');
        },
        JobReason::QOSMaxJobsPerAccountLimit => {
            reveal_strlit("QOSMaxJobsPerAccountLimit");
            assert(r.text().len() == 25 && r.text()[7] == 'o' && r.text()[15] == 'c');
            assert(r.text()[0] == 'Q' && r.text()[24] == 't');
        },
        JobReason::QOSMaxJobsPerUserLimit => {
            reveal_strlit("QOSMaxJobsPerUserLimit");
            assert(r.text().len() == 22 && r.text()[6] == 'J' && r.text()[13] == 'U');
            assert(r.text()[0] == 'Q' && r.text()[21] == 't');
        },
        JobReason::QOSMaxNodePerJobLimit => {
            reveal_strlit("QOSMaxNodePerJobLimit");
            assert(r.text().len() == 21 && r.text()[6] == 'N' && r.text()[12] == 'r');
            assert(r.text()[0] == 'Q' && r.text()[20] == 't');
        },
        JobReason::QOSMaxNodePerUserLimit => {
            reveal_strlit("QOSMaxNodePerUserLimit");
            assert(r.text().len() == 22 && r.text()[6] == 'N' && r.text()[13] == 'U');
            assert(r.text()[0] == 'Q' && r.text()[21] == 't');
        },
        JobReason::QOSMaxSubmitJobPerAccountLimit => {
            reveal_strlit("QOSMaxSubmitJobPerAccountLimit");
            assert(r.text().len() == 30 && r.text()[9] == 'm' && r.text()[18] == 'A');
            assert(r.text()[0] == 'Q' && r.text()[29] == 't');
        },
        JobReason::QOSMaxSubmitJobPerUserLimit => {
            reveal_strlit("QOSMaxSubmitJobPerUserLimit");
            assert(r.text().len() == 27 && r.text()[8] == 'b' && r.text()[16] == 'e');
            assert(r.text()[0] == 'Q' && r.text()[26] == 't');
        },
        JobReason::QOSMaxWallDurationPerJobLimit => {
            reveal_strlit("QOSMaxWallDurationPerJobLimit");
            assert(r.text().len() == 29 && r.text()[8] == 'l' && r.text()[17] == 'n');
            assert(r.text()[0] == 'Q' && r.text()[28] == 't');
        },
        JobReason::QOSMinCpuNotSatisfied => {
            reveal_strlit("QOSMinCpuNotSatisfied");
            assert(r.text().len() == 21 && r.text()[6] == 'C' && r.text()[12] == 'S');
            assert(r.text()[0] == 'Q' && r.text()[20] == 'd');
        },
        JobReason::AssociationJobLimit => {
            reveal_strlit("AssociationJobLimit");
            assert(r.text().len() == 19 && r.text()[5] == 'i' && r.text()[11] == 'J');
            assert(r.text()[0] == 'A' && r.text()[18] == 't');
        },
        JobReason::AssociationResourceLimit => {
            reveal_strlit("AssociationResourceLimit");
            assert(r.text().len() == 24 && r.text()[7] == 't' && r.text()[14] == 'o');
            assert(r.text()[0] == 'A' && r.text()[23] == 't');
        },
        JobReason::AssociationTimeLimit => {
            reveal_strlit("AssociationTimeLimit");
            assert(r.text().len() == 20 && r.text()[6] == 'a' && r.text()[12] == 'i');
            assert(r.text()[0] == 'A' && r.text()[19] == 't');
        },
        JobReason::AssocGrpCpuLimit => {
            reveal_strlit("AssocGrpCpuLimit");
            assert(r.text().len() == 16 && r.text()[4] == 'c' && r.text()[9] == 'p');
            assert(r.text()[0] == 'A' && r.text()[15] == 't');
        },
        JobReason::AssocGrpCpuMinutesLimit => {
            reveal_strlit("AssocGrpCpuMinutesLimit");
            assert(r.text().len() == 23 && r.text()[6] == 'r' && r.text()[13] == 'n');
            assert(r.text()[0] == 'A' && r.text()[22] == 't');
        },
        JobReason::AssocGrpCpuRunMinutesLimit => {
            reveal_strlit("AssocGrpCpuRunMinutesLimit");
            assert(r.text().len() == 26 && r.text()[7] == 'p' && r.text()[15] == 'i');
            assert(r.text()[0] == 'A' && r.text()[25] == 't');
        },
        JobReason::AssocGrpJobsLimit => {
            reveal_strlit("AssocGrpJobsLimit");
            assert(r.text().len() == 17 && r.text()[5] == 'G' && r.text()[10] == 'b');
            assert(r.text()[0] == 'A' && r.text()[16] == 't');
        },
        JobReason::AssocGrpMemoryLimit => {
            reveal_strlit("AssocGrpMemoryLimit");
            assert(r.text().len() == 19 && r.text()[5] == 'G' && r.text()[11] == 'o');
            assert(r.text()[0] == 'A' && r.text()[18] == 't');
        },
        JobReason::AssocGrpNodeLimit => {
            reveal_strlit("AssocGrpNodeLimit");
            assert(r.text().len() == 17 && r.text()[5] == 'G' && r.text()[10] == 'd');
            assert(r.text()[0] == 'A' && r.text()[16] == 't');
        },
        JobReason::AssocGrpSubmitJobsLimit => {
            reveal_strlit("AssocGrpSubmitJobsLimit");
            assert(r.text().len() == 23 && r.text()[6] == 'r' && r.text()[13] == 't');
            assert(r.text()[0] == 'A' && r.text()[22] == 't');
        },
        JobReason::AssocGrpWallLimit => {
            reveal_strlit("AssocGrpWallLimit");
            assert(r.text().len() == 17 && r.text()[5] == 'G' && r.text()[10] == 'l');
            assert(r.text()[0] == 'A' && r.text()[16] == 't');
        },
        JobReason::AssocMaxJobsLimit => {
            reveal_strlit("AssocMaxJobsLimit");
            assert(r.text().len() == 17 && r.text()[5] == 'M' && r.text()[10] == 'b');
            assert(r.text()[0] == 'A' && r.text()[16] == 't');
        },
        JobReason::AssocMaxCpuPerJobLimit => {
            reveal_strlit("AssocMaxCpuPerJobLimit");
            assert(r.text().len() == 22 && r.text()[6] == 'a' && r.text()[13] == 'r');
            assert(r.text()[0] == 'A' && r.text()[21] == 't');
        },
        JobReason::AssocMaxCpuMinutesPerJobLimit => {
            reveal_strlit("AssocMaxCpuMinutesPerJobLimit");
            assert(r.text().len() == 29 && r.text()[8] == 'C' && r.text()[17] == 's');
            assert(r.text()[0] == 'A' && r.text()[28] == 't');
        },
        JobReason::AssocMaxNodePerJobLimit => {
            reveal_strlit("AssocMaxNodePerJobLimit");
            assert(r.text().len() == 23 && r.text()[6] == 'a' && r.text()[13] == 'e');
            assert(r.text()[0] == 'A' && r.text()[22] == 't');
        },
        JobReason::AssocMaxWallDurationPerJobLimit => {
            reveal_strlit("AssocMaxWallDurationPerJobLimit");
            assert(r.text().len() == 31 && r.text()[9] == 'a' && r.text()[18] == 'o');
            assert(r.text()[0] == 'A' && r.text()[30] == 't');
        },
        JobReason::AssocMaxSubmitJobLimit => {
            reveal_strlit("AssocMaxSubmitJobLimit");
            assert(r.text().len() == 22 && r.text()[6] == 'a' && r.text()[13] == 't');
            assert(r.text()[0] == 'A' && r.text()[21] == 't');
        },
        JobReason::BlockMaxError => {
            reveal_strlit("BlockMaxError");
            assert(r.text().len() == 13 && r.text()[3] == 'c' && r.text()[7] == 'x');
            assert(r.text()[0] == 'B' && r.text()[12] == 'r');
        },
        JobReason::BlockFreeAction => {
            reveal_strlit("BlockFreeAction");
            assert(r.text().len() == 15 && r.text()[4] == 'k' && r.text()[9] == 'A');
            assert(r.text()[0] == 'B' && r.text()[14] == 'n');
        },
        JobReason::Other(_) => {},
    }
}

/// Known reasons have different texts.
pub proof fn law_reason_texts_differ(a: JobReason, b: JobReason)
    requires
        !(a is Other),
        !(b is Other),
        a.text() == b.text(),
    ensures
        a == b,
{
    lemma_known_text(a);
    lemma_known_text(b);
}

/// The text of a known reason reads back as it; so does that of any other reason
/// whose text is not empty, has no white space at its ends and is no known text.
pub proof fn law_reason_round_trip(r: JobReason)
    requires
        r is Other ==> r.text().len() > 0 && model::trim(r.text()) == r.text() && !known(r.text()),
    ensures
        JobReason::parsed(r.text()) == r@,
{
    if !(r is Other) {
        lemma_known_text(r);
        assert(known(r.text()));
    }
}

/// The texts of the known reasons, as SLURM writes them; another reason has the text that it
/// was read from.
pub proof fn law_reason_texts(r: JobReason, s: &str)
    requires
        call_ensures(JobReason::as_str, (&r,), s),
    ensures
        s@ == match r {
            JobReason::NoReason => "None"@,
            JobReason::Priority => "Priority"@,
            JobReason::Dependency => "Dependency"@,
            JobReason::DependencyNeverSatisfied => "DependencyNeverSatisfied"@,
            JobReason::Resources => "Resources"@,
            JobReason::Reservation => "Reservation"@,
            JobReason::ResvDeleted => "ResvDeleted"@,
            JobReason::BeginTime => "BeginTime"@,
            JobReason::Licenses => "Licenses"@,
            JobReason::NodeNotAvail => "ReqNodeNotAvail"@,
            JobReason::JobHeldUser => "JobHeldUser"@,
            JobReason::JobHeldAdmin => "JobHeldAdmin"@,
            JobReason::BadConstraints => "BadConstraints"@,
            JobReason::Cleaning => "Cleaning"@,
            JobReason::Prolog => "Prolog"@,
            JobReason::JobArrayTaskLimit => "JobArrayTaskLimit"@,
            JobReason::BurstBufferResources => "BurstBufferResources"@,
            JobReason::BurstBufferStageIn => "BurstBufferStageIn"@,
            JobReason::NodeReboot => "NodeReboot"@,
            JobReason::MaxRequeueExceeded => "MaxRequeueExceeded"@,
            JobReason::PlannedReservation => "PlannedReservation"@,
            JobReason::FedJobLock => "FedJobLock"@,
            JobReason::OutOfMemory => "OutOfMemory"@,
            JobReason::Preemption => "Preemption"@,
            JobReason::WaitingForScheduling => "WaitingForScheduling"@,
            JobReason::AdminHold => "AdminHold"@,
            JobReason::PartitionDown => "PartitionDown"@,
            JobReason::PartitionInactive => "PartitionInactive"@,
            JobReason::PartitionNodeLimit => "PartitionNodeLimit"@,
            JobReason::PartitionTimeLimit => "PartitionTimeLimit"@,
            JobReason::PartitionConfig => "PartitionConfig"@,
            JobReason::FrontEndDown => "FrontEndDown"@,
            JobReason::FrontEndUserDown => "FrontEndUserDown"@,
            JobReason::DownNodes => "DownNodes"@,
            JobReason::SystemFailure => "SystemFailure"@,
            JobReason::JobLaunchFailure => "JobLaunchFailure"@,
            JobReason::NonZeroExitCode => "NonZeroExitCode"@,
            JobReason::RaisedSignal => "RaisedSignal"@,
            JobReason::TimeLimit => "TimeLimit"@,
            JobReason::InactiveLimit => "InactiveLimit"@,
            JobReason::Deadline => "Deadline"@,
            JobReason::InvalidAccount => "InvalidAccount"@,
            JobReason::InvalidQOS => "InvalidQOS"@,
            JobReason::AccountNotAllowed => "AccountNotAllowed"@,
            JobReason::QOSNotAllowed => "QOSNotAllowed"@,
            JobReason::QOSUsageThreshold => "QOSUsageThreshold"@,
            JobReason::QOSJobLimit => "QOSJobLimit"@,
            JobReason::QOSResourceLimit => "QOSResourceLimit"@,
            JobReason::QOSTimeLimit => "QOSTimeLimit"@,
            JobReason::QOSGrpCpuLimit => "QOSGrpCpuLimit"@,
            JobReason::QOSGrpCpuMinutesLimit => "QOSGrpCpuMinutesLimit"@,
            JobReason::QOSGrpCpuRunMinutesLimit => "QOSGrpCpuRunMinutesLimit"@,
            JobReason::QOSGrpJobsLimit => "QOSGrpJobsLimit"@,
            JobReason::QOSGrpMemoryLimit => "QOSGrpMemoryLimit"@,
            JobReason::QOSGrpNodeLimit => "QOSGrpNodeLimit"@,
            JobReason::QOSGrpSubmitJobsLimit => "QOSGrpSubmitJobsLimit"@,
            JobReason::QOSGrpWallLimit => "QOSGrpWallLimit"@,
            JobReason::QOSMaxCpuMinutesPerJobLimit => "QOSMaxCpuMinutesPerJobLimit"@,
            JobReason::QOSMaxCpuPerJobLimit => "QOSMaxCpuPerJobLimit"@,
            JobReason::QOSMaxCpuPerNodeLimit => "QOSMaxCpuPerNodeLimit"@,
            JobReason::QOSMaxCpuPerUserLimit => "QOSMaxCpuPerUserLimit"@,
            JobReason::QOSMaxJobsPerAccountLimit => "QOSMaxJobsPerAccountLimit"@,
            JobReason::QOSMaxJobsPerUserLimit => "QOSMaxJobsPerUserLimit"@,
            JobReason::QOSMaxNodePerJobLimit => "QOSMaxNodePerJobLimit"@,
            JobReason::QOSMaxNodePerUserLimit => "QOSMaxNodePerUserLimit"@,
            JobReason::QOSMaxSubmitJobPerAccountLimit => "QOSMaxSubmitJobPerAccountLimit"@,
            JobReason::QOSMaxSubmitJobPerUserLimit => "QOSMaxSubmitJobPerUserLimit"@,
            JobReason::QOSMaxWallDurationPerJobLimit => "QOSMaxWallDurationPerJobLimit"@,
            JobReason::QOSMinCpuNotSatisfied => "QOSMinCpuNotSatisfied"@,
            JobReason::AssociationJobLimit => "AssociationJobLimit"@,
            JobReason::AssociationResourceLimit => "AssociationResourceLimit"@,
            JobReason::AssociationTimeLimit => "AssociationTimeLimit"@,
            JobReason::AssocGrpCpuLimit => "AssocGrpCpuLimit"@,
            JobReason::AssocGrpCpuMinutesLimit => "AssocGrpCpuMinutesLimit"@,
            JobReason::AssocGrpCpuRunMinutesLimit => "AssocGrpCpuRunMinutesLimit"@,
            JobReason::AssocGrpJobsLimit => "AssocGrpJobsLimit"@,
            JobReason::AssocGrpMemoryLimit => "AssocGrpMemoryLimit"@,
            JobReason::AssocGrpNodeLimit => "AssocGrpNodeLimit"@,
            JobReason::AssocGrpSubmitJobsLimit => "AssocGrpSubmitJobsLimit"@,
            JobReason::AssocGrpWallLimit => "AssocGrpWallLimit"@,
            JobReason::AssocMaxJobsLimit => "AssocMaxJobsLimit"@,
            JobReason::AssocMaxCpuPerJobLimit => "AssocMaxCpuPerJobLimit"@,
            JobReason::AssocMaxCpuMinutesPerJobLimit => "AssocMaxCpuMinutesPerJobLimit"@,
            JobReason::AssocMaxNodePerJobLimit => "AssocMaxNodePerJobLimit"@,
            JobReason::AssocMaxWallDurationPerJobLimit => "AssocMaxWallDurationPerJobLimit"@,
            JobReason::AssocMaxSubmitJobLimit => "AssocMaxSubmitJobLimit"@,
            JobReason::BlockMaxError => "BlockMaxError"@,
            JobReason::BlockFreeAction => "BlockFreeAction"@,
            JobReason::Other(t) => t@,
        },
{
}

/// What is read as a reason has the text that it was read from, without the white space
/// around it; nothing is read as no reason, and the text of a known reason as that reason.
pub proof fn law_reasons_are_read(raw: &str, r: JobReason, s: &str, known_reason: JobReason)
    requires
        call_ensures(JobReason::parse, (raw,), r),
        call_ensures(JobReason::as_str, (&r,), s),
        !(known_reason is Other),
    ensures
        model::trim(raw@).len() > 0 ==> s@ == model::trim(raw@),
        model::trim(raw@).len() == 0 ==> r == JobReason::NoReason,
        model::trim(raw@) == known_reason.text() && model::trim(raw@).len() > 0 ==> r
            == known_reason,
        r is Other ==> model::trim(raw@) != known_reason.text(),
{
    lemma_known_text(known_reason);
    reveal_strlit("None");
    if model::trim(raw@).len() == 0 {
        assert(!r@.other && r@.text == "None"@);
        assert(!(r is Other));
        law_reason_texts_differ(r, JobReason::NoReason);
    }
    if model::trim(raw@) == known_reason.text() && model::trim(raw@).len() > 0 {
        assert(known(known_reason.text()));
        assert(!r@.other);
        law_reason_texts_differ(r, known_reason);
    }
}

} // verus!
