//! Snapshots of jobs.
use slurm_async_runner::entities::reason::JobReason;
use slurm_async_runner::entities::status::{JobState, JobStatus};
use slurm_async_runner::ident::Timestamp;
use slurm_async_runner::sbatch::env::EnvMap;
use slurm_async_runner::sbatch::handle::{
    FinishedInfo, LogPathSpec, SbatchJobSnapshot, SbatchLifecycle,
};

const NOW: Timestamp = Timestamp {
    secs: 1_778_544_000,
    nanos: 0,
};

fn snap(jobid: u64) -> SbatchJobSnapshot {
    let mut sent_env = EnvMap::new();
    sent_env.insert("FOO".into(), "bar".into());
    SbatchJobSnapshot {
        uuid: 7,
        jobid,
        array_task_id: None,
        argv: vec!["sbatch".into(), "/w/job.sh".into()],
        sent_env,
        script_path: "/w/job.sh".into(),
        chdir: Some("/w".into()),
        partition: Some("gr19999b".into()),
        job_name: Some("g09run".into()),
        submitted_at: NOW,
        log: LogPathSpec {
            output_template: Some("slurm-%j.out".into()),
            error_template: Some("slurm-%j.err".into()),
        },
        lifecycle: SbatchLifecycle::default(),
    }
}

#[test]
fn handle_output_path_substitutes_jobid_lazily() {
    let s = snap(12345);
    assert_eq!(s.output_path("", ""), Some("slurm-12345.out".to_string()));
    assert_eq!(s.error_path("", ""), Some("slurm-12345.err".to_string()));
}

#[test]
fn handle_lifecycle_running_requires_state_and_no_vanish() {
    let mut s = snap(1);
    assert!(!s.is_running());
    s.lifecycle.last_observed_state = Some(JobStatus {
        state: JobState::Running,
        reason: JobReason::NoReason,
    });
    assert!(s.is_running());
    s.lifecycle.left_active_listing = true;
    assert!(!s.is_running());
}

#[test]
fn handle_lifecycle_finished_records_exit_code() {
    let mut s = snap(1);
    assert!(!s.is_finished());
    assert_eq!(s.exit_code(), None);
    s.lifecycle.finished = Some(FinishedInfo {
        final_state: JobState::Completed,
        final_reason: JobReason::NoReason,
        exit_code: Some(0),
        finished_at: NOW,
    });
    assert!(s.is_finished());
    assert_eq!(s.exit_code(), Some(0));
}


#[test]
fn tests_output_path_substitutes_jobid_lazily() {
    let s = snap(12345);
    assert_eq!(s.output_path("", ""), Some("slurm-12345.out".to_string()));
    assert_eq!(s.error_path("", ""), Some("slurm-12345.err".to_string()));
}

#[test]
fn tests_lifecycle_running_requires_state_and_no_vanish() {
    let mut s = snap(1);
    assert!(!s.is_running());
    s.lifecycle.last_observed_state = Some(JobStatus {
        state: JobState::Running,
        reason: JobReason::NoReason,
    });
    assert!(s.is_running());
    s.lifecycle.left_active_listing = true;
    assert!(!s.is_running());
}

#[test]
fn tests_lifecycle_finished_records_exit_code() {
    let mut s = snap(1);
    assert!(!s.is_finished());
    assert_eq!(s.exit_code(), None);
    s.lifecycle.finished = Some(FinishedInfo {
        final_state: JobState::Completed,
        final_reason: JobReason::NoReason,
        exit_code: Some(0),
        finished_at: NOW,
    });
    assert!(s.is_finished());
    assert_eq!(s.exit_code(), Some(0));
}
