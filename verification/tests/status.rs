//! States and reasons of jobs.
use slurm_async_runner::entities::reason::JobReason;
use slurm_async_runner::entities::status::{JobState, JobStatus};

fn all_states() -> Vec<JobState> {
    vec![
        JobState::Pending,
        JobState::Configuring,
        JobState::Requeued,
        JobState::RequeueFed,
        JobState::RequeueHold,
        JobState::ResvDelHold,
        JobState::Suspended,
        JobState::Stopped,
        JobState::Running,
        JobState::Completing,
        JobState::Resizing,
        JobState::Signaling,
        JobState::StageOut,
        JobState::Completed,
        JobState::BootFail,
        JobState::Cancelled,
        JobState::Deadline,
        JobState::Failed,
        JobState::NodeFail,
        JobState::OutOfMemory,
        JobState::Preempted,
        JobState::Revoked,
        JobState::SpecialExit,
        JobState::Timeout,
        JobState::Unknown,
    ]
}

#[test]
fn job_state_parse_long_forms() {
    assert_eq!(JobState::parse("PENDING"), JobState::Pending);
    assert_eq!(JobState::parse("RUNNING"), JobState::Running);
    assert_eq!(JobState::parse("COMPLETED"), JobState::Completed);
    assert_eq!(JobState::parse("OUT_OF_MEMORY"), JobState::OutOfMemory);
    assert_eq!(JobState::parse("SPECIAL_EXIT"), JobState::SpecialExit);
}

#[test]
fn job_state_parse_compact_covers_every_variant() {
    for (code, expected) in [
        ("PD", JobState::Pending),
        ("CF", JobState::Configuring),
        ("RQ", JobState::Requeued),
        ("RF", JobState::RequeueFed),
        ("RH", JobState::RequeueHold),
        ("RD", JobState::ResvDelHold),
        ("S", JobState::Suspended),
        ("ST", JobState::Stopped),
        ("R", JobState::Running),
        ("CG", JobState::Completing),
        ("RS", JobState::Resizing),
        ("SI", JobState::Signaling),
        ("SO", JobState::StageOut),
        ("CD", JobState::Completed),
        ("BF", JobState::BootFail),
        ("CA", JobState::Cancelled),
        ("DL", JobState::Deadline),
        ("F", JobState::Failed),
        ("NF", JobState::NodeFail),
        ("OOM", JobState::OutOfMemory),
        ("PR", JobState::Preempted),
        ("RV", JobState::Revoked),
        ("SE", JobState::SpecialExit),
        ("TO", JobState::Timeout),
    ] {
        assert_eq!(
            JobState::parse(code),
            expected,
            "compact code {code:?} did not parse as expected",
        );
    }
}

#[test]
fn job_state_parse_trailing_context() {
    assert_eq!(JobState::parse("CANCELLED by 1234"), JobState::Cancelled);
}

#[test]
fn job_state_parse_padding_and_case() {
    assert_eq!(JobState::parse("  RUNNING  "), JobState::Running);
    assert_eq!(JobState::parse("pending"), JobState::Pending);
    assert_eq!(JobState::parse("Running"), JobState::Running);
}

#[test]
fn job_state_parse_unknown() {
    assert_eq!(JobState::parse(""), JobState::Unknown);
    assert_eq!(JobState::parse("   "), JobState::Unknown);
    assert_eq!(JobState::parse("FOO_BAR"), JobState::Unknown);
    // Legacy lowercase tokens are NOT mapped any more.
    assert_eq!(JobState::parse("queued"), JobState::Unknown);
    assert_eq!(JobState::parse("done"), JobState::Unknown);
    // "failed" matches "FAILED" via case-insensitive parse — that is
    // a coincidence of the SLURM-token name, not legacy compat.
    assert_eq!(JobState::parse("failed"), JobState::Failed);
}

#[test]
fn job_state_as_token_round_trips() {
    for s in all_states() {
        assert_eq!(JobState::parse(s.as_token()), s, "round-trip for {s:?}");
    }
}

#[test]
fn job_reason_parse_known_variants() {
    assert_eq!(JobReason::parse("None"), JobReason::NoReason);
    assert_eq!(JobReason::parse("Priority"), JobReason::Priority);
    assert_eq!(JobReason::parse("Resources"), JobReason::Resources);
    assert_eq!(JobReason::parse("Dependency"), JobReason::Dependency);
    assert_eq!(JobReason::parse("BeginTime"), JobReason::BeginTime);
    assert_eq!(JobReason::parse("ReqNodeNotAvail"), JobReason::NodeNotAvail);
    assert_eq!(JobReason::parse("TimeLimit"), JobReason::TimeLimit);
    assert_eq!(JobReason::parse("OutOfMemory"), JobReason::OutOfMemory);
    assert_eq!(
        JobReason::parse("AssocGrpCpuLimit"),
        JobReason::AssocGrpCpuLimit
    );
}

#[test]
fn job_reason_parse_empty_is_none() {
    assert_eq!(JobReason::parse(""), JobReason::NoReason);
    assert_eq!(JobReason::parse("   "), JobReason::NoReason);
}

#[test]
fn job_reason_parse_unknown_falls_back_to_other() {
    assert_eq!(
        JobReason::parse("MysteryNewSlurmReason"),
        JobReason::Other("MysteryNewSlurmReason".to_string())
    );
}

#[test]
fn job_reason_parse_is_case_sensitive() {
    // SLURM emits canonical PascalCase — anything else is `Other`.
    assert_eq!(
        JobReason::parse("priority"),
        JobReason::Other("priority".to_string())
    );
    assert_eq!(
        JobReason::parse("PRIORITY"),
        JobReason::Other("PRIORITY".to_string())
    );
}

#[test]
fn job_reason_as_str_round_trip() {
    for r in [
        JobReason::NoReason,
        JobReason::Priority,
        JobReason::Dependency,
        JobReason::Resources,
        JobReason::TimeLimit,
        JobReason::OutOfMemory,
        JobReason::QOSGrpCpuLimit,
        JobReason::AssocMaxJobsLimit,
        JobReason::Other("CustomThing".to_string()),
    ] {
        assert_eq!(JobReason::parse(r.as_str()), r, "round-trip for {r:?}");
    }
}

#[test]
fn job_reason_variant_name() {
    assert_eq!(JobReason::NoReason.variant_name(), "None");
    assert_eq!(JobReason::Priority.variant_name(), "Priority");
    assert_eq!(
        JobReason::Other("anything".to_string()).variant_name(),
        "Other"
    );
}

#[test]
fn job_status_default_is_unknown_none() {
    let s = JobStatus::default();
    assert_eq!(s.state, JobState::Unknown);
    assert_eq!(s.reason, JobReason::NoReason);
}

#[test]
fn job_status_constructors() {
    let s = JobStatus::new(JobState::Pending);
    assert_eq!(s.state, JobState::Pending);
    assert_eq!(s.reason, JobReason::NoReason);

    let s = JobStatus::with_reason(JobState::Pending, JobReason::Priority);
    assert_eq!(s.state, JobState::Pending);
    assert_eq!(s.reason, JobReason::Priority);
}
