//! What the crate root offers.
use slurm_async_runner::{JobReason, JobState, JobStatus};

#[test]
fn reexports_resolve_and_parse_from_slurm_tokens() {
    assert_eq!(JobState::parse("PD"), JobState::Pending);
    assert_eq!(JobState::parse("OUT_OF_MEMORY"), JobState::OutOfMemory);

    let r = JobReason::parse("Priority");
    assert_eq!(r, JobReason::Priority);

    let s = JobStatus::with_reason(JobState::Pending, JobReason::Priority);
    assert_eq!(s.state, JobState::Pending);
    assert_eq!(s.reason, JobReason::Priority);

    // Unknown / forward-compat fallbacks survive the re-export.
    assert_eq!(JobState::parse("FUTURE_TOKEN"), JobState::Unknown);
    assert!(matches!(
        JobReason::parse("FutureReason"),
        JobReason::Other(ref s) if s == "FutureReason"
    ));
}
