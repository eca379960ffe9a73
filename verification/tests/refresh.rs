//! Refreshing a snapshot from canned listings.
use slurm_async_runner::dispatcher::CaptureOutput;
use slurm_async_runner::entities::reason::JobReason;
use slurm_async_runner::entities::status::{JobState, JobStatus};
use slurm_async_runner::ident::Timestamp;
use slurm_async_runner::runner::listing::{check_exit_codes, check_task_exit_code, JobOutcome};
use slurm_async_runner::runner::query::{
    read_task_outcome, task_key, OutcomeStep,
};
use slurm_async_runner::sbatch::env::EnvMap;
use slurm_async_runner::sbatch::handle::{
    outcome_of, outcome_or_unknown, wait_next, LogPathSpec, LogReadError, LogStream, OutcomeAsk,
    QueryFailure, RefreshStep, SbatchJobSnapshot, SbatchLifecycle, WaitStep,
};

const NOW: Timestamp = Timestamp {
    secs: 1_778_544_000,
    nanos: 0,
};

fn snap(jobid: u64) -> SbatchJobSnapshot {
    SbatchJobSnapshot {
        uuid: 1,
        jobid,
        array_task_id: None,
        argv: vec!["sbatch".into(), "/w/job.sh".into()],
        sent_env: EnvMap::new(),
        script_path: "/w/job.sh".into(),
        chdir: Some("/w".into()),
        partition: Some("gr19999b".into()),
        job_name: Some("g09run".into()),
        submitted_at: NOW,
        log: LogPathSpec {
            output_template: Some("slurm-%j.out".into()),
            error_template: Some("slurm-%j.err".into()),
        },
        lifecycle: SbatchLifecycle::default(),
    }
}

fn snap_array_task(master_jobid: u64, idx: u32) -> SbatchJobSnapshot {
    let mut s = snap(master_jobid);
    s.array_task_id = Some(idx);
    s
}

fn cap_ok(stdout: &str) -> CaptureOutput {
    CaptureOutput {
        exit_code: 0,
        stdout: stdout.to_string(),
        stderr: String::new(),
    }
}

fn failure(stderr: &str) -> CaptureOutput {
    CaptureOutput {
        exit_code: 1,
        stdout: String::new(),
        stderr: stderr.to_string(),
    }
}

fn transient() -> CaptureOutput {
    failure("slurm_load_jobs error: Socket timed out on send/recv operation\n")
}

fn vanished() -> CaptureOutput {
    failure("slurm_load_jobs error: Invalid job id specified\n")
}

/// Canned answers by tool, and what was run.
struct Canned {
    qgroup: Option<CaptureOutput>,
    squeue: Vec<CaptureOutput>,
    sacct: CaptureOutput,
    seen: Vec<Vec<String>>,
}

impl Canned {
    fn new(qgroup: &str, squeue: &str, sacct: &str) -> Canned {
        Canned {
            qgroup: Some(cap_ok(qgroup)),
            squeue: vec![cap_ok(squeue)],
            sacct: cap_ok(sacct),
            seen: Vec::new(),
        }
    }

    fn capture(&mut self, argv: &[String]) -> Option<CaptureOutput> {
        self.seen.push(argv.to_vec());
        match argv[0].as_str() {
            "qgroup" => self.qgroup.clone(),
            "squeue" => {
                if self.squeue.len() > 1 {
                    Some(self.squeue.remove(0))
                } else {
                    Some(self.squeue[0].clone())
                }
            }
            "sacct" => Some(self.sacct.clone()),
            _ => Some(CaptureOutput::default()),
        }
    }

    fn calls(&self, tool: &str) -> usize {
        self.seen.iter().filter(|a| a[0] == tool).count()
    }

    fn refresh(&mut self, snap: &mut SbatchJobSnapshot) -> Result<(), String> {
        let mut step = snap.begin_refresh();
        loop {
            match step {
                RefreshStep::Capture { stage, argv } => {
                    let out = self.capture(&argv);
                    step = snap.advance_refresh(stage, out.as_ref(), NOW);
                }
                RefreshStep::Save => return Ok(()),
                RefreshStep::Failed(QueryFailure::NotRun) => return Err("not run".to_string()),
                RefreshStep::Failed(QueryFailure::Exited(e)) => return Err(e.to_string()),
            }
        }
    }

    fn ask_sacct(&mut self, snap: &SbatchJobSnapshot) -> Result<JobOutcome, String> {
        let mut step = match snap.ask_outcome() {
            OutcomeAsk::Task { argv, index } => {
                let out = self.capture(&argv).unwrap();
                assert!(check_task_exit_code(&out.stdout, &task_key(snap.jobid, index)));
                return read_task_outcome(snap.jobid, index, &out)
                    .map(outcome_or_unknown)
                    .map_err(|e| e.to_string());
            }
            OutcomeAsk::Job(step) => step,
        };
        loop {
            match step {
                OutcomeStep::Capture { argv, query } => {
                    let out = self.capture(&argv).unwrap();
                    assert!(!query.awaits_sacct() || check_exit_codes(&out.stdout));
                    step = query.advance(&out);
                }
                OutcomeStep::Done(m) => return Ok(outcome_of(&m, snap.jobid)),
                OutcomeStep::Failed(e) => return Err(e.to_string()),
            }
        }
    }

    fn refresh_with_sacct(&mut self, snap: &mut SbatchJobSnapshot) -> Result<bool, String> {
        self.refresh(snap)?;
        if !snap.needs_sacct() {
            return Ok(false);
        }
        let outcome = self.ask_sacct(snap)?;
        Ok(snap.apply_outcome(outcome, NOW))
    }

    fn wait_terminal(&mut self, snap: &mut SbatchJobSnapshot) -> Result<(), String> {
        let mut failures = 0;
        loop {
            let refreshed = self.refresh(snap);
            let step = match &refreshed {
                Ok(()) => wait_next(failures, Some(&*snap)),
                Err(_) => wait_next(failures, None),
            };
            match step {
                WaitStep::Done => return Ok(()),
                WaitStep::GiveUp => return refreshed,
                WaitStep::Again { failures: n } => failures = n,
            }
        }
    }
}

fn observed(s: &SbatchJobSnapshot) -> Option<JobState> {
    s.lifecycle.last_observed_state.as_ref().map(|s| s.state)
}

#[test]
fn refresh_uses_qgroup_when_jobid_present() {
    let mut s = snap(12345);
    let mut c = Canned::new("QUEUE USER JOBID STATUS PROC\ngr u 12345 RUN 1\n", "", "");
    c.refresh(&mut s).unwrap();
    assert_eq!(observed(&s), Some(JobState::Running));
    assert_eq!(s.lifecycle.last_observed_at, Some(NOW));
    assert!(!s.lifecycle.left_active_listing);
    assert_eq!(c.seen, vec![vec!["qgroup".to_string(), "-l".to_string()]]);
}

#[test]
fn refresh_falls_back_to_squeue_when_qgroup_misses() {
    let mut s = snap(12345);
    let mut c = Canned::new("", "12345 RUNNING None\n", "");
    c.refresh(&mut s).unwrap();
    assert_eq!(observed(&s), Some(JobState::Running));
    assert_eq!(c.seen.len(), 2);
    assert_eq!(
        c.seen[1],
        vec!["squeue", "-h", "-r", "-j", "12345", "-o", "%i %T %r"]
    );
}

#[test]
fn refresh_marks_left_active_listing_when_both_miss() {
    let mut s = snap(12345);
    let mut c = Canned::new("", "", "");
    c.refresh(&mut s).unwrap();
    assert!(s.lifecycle.left_active_listing);
    assert_eq!(s.lifecycle.last_observed_state, None);
    assert_eq!(c.calls("sacct"), 0, "refresh must NOT call sacct");
}

#[test]
fn refresh_with_sacct_skips_sacct_when_qgroup_hits() {
    let mut s = snap(12345);
    let mut c = Canned::new("QUEUE USER JOBID STATUS PROC\ngr u 12345 RUN 1\n", "", "");
    c.refresh_with_sacct(&mut s).unwrap();
    assert!(s.lifecycle.finished.is_none());
    assert_eq!(c.calls("sacct"), 0);
}

#[test]
fn refresh_with_sacct_is_idempotent_when_finished_already_set() {
    let mut s = snap(12345);
    let mut c = Canned::new("", "", "12345|COMPLETED|None|0:0\n");
    c.refresh_with_sacct(&mut s).unwrap();
    assert_eq!(c.calls("sacct"), 1);
    c.refresh_with_sacct(&mut s).unwrap();
    assert_eq!(c.calls("sacct"), 1, "second call must not re-invoke sacct");
}

#[test]
fn refresh_with_sacct_calls_sacct_when_qgroup_reports_terminal_fini() {
    let mut s = snap(12345);
    let mut c = Canned::new(
        " gr u 12345 | FINI 2026-05-12 01:48 | 1 | 1 1 1M 00:00:05\n",
        "",
        "12345|COMPLETED|None|0:0\n",
    );
    c.refresh_with_sacct(&mut s).unwrap();
    assert!(!s.lifecycle.left_active_listing);
    assert_eq!(c.calls("sacct"), 1);
    let finished = s.lifecycle.finished.unwrap();
    assert_eq!(finished.final_state, JobState::Completed);
    assert_eq!(finished.exit_code, Some(0));
    assert_eq!(finished.finished_at, NOW);
}

#[test]
fn refresh_with_sacct_calls_sacct_once_after_vanish() {
    let mut s = snap(12345);
    let mut c = Canned::new("", "", "12345|COMPLETED|None|0:0\n");
    assert!(c.refresh_with_sacct(&mut s).unwrap());
    assert!(s.lifecycle.finished.is_some());
    assert_eq!(c.calls("sacct"), 1);
}

#[test]
fn refresh_with_sacct_populates_exit_code_on_signaled() {
    let mut s = snap(12345);
    let mut c = Canned::new("", "", "12345|CANCELLED|None|0:9\n");
    c.refresh_with_sacct(&mut s).unwrap();
    assert_eq!(s.exit_code(), Some(137));
    assert!(s.is_finished());
}

#[test]
fn refresh_array_task_skips_qgroup() {
    let mut s = snap_array_task(12345, 3);
    let mut c = Canned::new(
        "QUEUE USER JOBID STATUS PROC\ngr u 12345 RUN 1\n",
        "12345_3 PENDING Priority\n",
        "",
    );
    c.refresh(&mut s).unwrap();
    assert_eq!(observed(&s), Some(JobState::Pending));
    assert_eq!(c.calls("qgroup"), 0);
    assert_eq!(c.seen[0][4], "12345_3");
}

#[test]
fn refresh_array_task_marks_vanished_when_squeue_empty() {
    let mut s = snap_array_task(12345, 3);
    let mut c = Canned::new("", "", "");
    c.refresh(&mut s).unwrap();
    assert!(s.lifecycle.left_active_listing);
    assert_eq!(c.calls("sacct"), 0);
}

#[test]
fn sacct_is_asked_by_key_or_by_id() {
    let words = |ws: &[&str]| ws.iter().map(|w| w.to_string()).collect::<Vec<_>>();
    let columns = "JobID,State,Reason,ExitCode";
    let asked = |c: &Canned| {
        c.seen
            .iter()
            .filter(|a| a[0] == "sacct")
            .cloned()
            .collect::<Vec<_>>()
    };
    let mut c = Canned::new("", "", "12345_3|COMPLETED|None|0:0\n");
    c.refresh_with_sacct(&mut snap_array_task(12345, 3)).unwrap();
    assert_eq!(
        asked(&c),
        vec![words(&["sacct", "-P", "-n", "-j", "12345_3", "-o", columns])]
    );
    let mut c = Canned::new("", "", "12345|COMPLETED|None|0:0\n");
    c.refresh_with_sacct(&mut snap(12345)).unwrap();
    assert_eq!(
        asked(&c),
        vec![words(&["sacct", "-P", "-n", "-j", "12345", "-o", columns])]
    );
    assert!(matches!(
        snap_array_task(7, 0).ask_outcome(),
        OutcomeAsk::Task { index: 0, .. }
    ));
    assert!(matches!(
        snap(7).ask_outcome(),
        OutcomeAsk::Job(OutcomeStep::Capture { argv, query })
            if argv[0] == "squeue" && !query.awaits_sacct()
    ));
}

#[test]
fn refresh_with_sacct_array_task_populates_exit_code() {
    let mut s = snap_array_task(12345, 3);
    let mut c = Canned::new(
        "",
        "",
        "12345_3|COMPLETED|None|0:0\n12345_3.batch|COMPLETED|None|0:0\n",
    );
    c.refresh_with_sacct(&mut s).unwrap();
    let finished = s.lifecycle.finished.unwrap();
    assert_eq!(finished.final_state, JobState::Completed);
    assert_eq!(finished.exit_code, Some(0));
    assert_eq!(c.calls("sacct"), 1);
}

#[test]
fn refresh_array_task_treats_stderr_only_squeue_as_vanished() {
    let mut s = snap_array_task(12345, 3);
    let mut c = Canned::new("", "", "");
    c.squeue = vec![vanished()];
    c.refresh(&mut s).unwrap();
    assert!(s.lifecycle.left_active_listing);
    assert_eq!(c.calls("sacct"), 0);
}

#[test]
fn refresh_propagates_transient_squeue_failure() {
    let mut s = snap(12345);
    let mut c = Canned::new("", "", "");
    c.squeue = vec![transient()];
    let msg = c.refresh(&mut s).unwrap_err();
    assert_eq!(
        msg,
        "`squeue` exited with 1: slurm_load_jobs error: Socket timed out on send/recv operation"
    );
    assert_eq!(s, snap(12345), "a failed refresh changes nothing");
}

#[test]
fn refresh_array_task_propagates_transient_squeue_failure() {
    let mut s = snap_array_task(12345, 3);
    let mut c = Canned::new("", "", "");
    c.squeue = vec![transient()];
    assert!(c.refresh(&mut s).unwrap_err().contains("squeue"));
    assert!(!s.lifecycle.left_active_listing);
    assert_eq!(c.calls("sacct"), 0);
}

#[test]
fn refresh_with_sacct_leaves_finished_unset_until_sacct_reports() {
    let mut s = snap(12345);
    let mut c = Canned::new("", "", "");
    assert!(!c.refresh_with_sacct(&mut s).unwrap());
    assert!(s.lifecycle.left_active_listing);
    assert!(s.lifecycle.finished.is_none());

    c.sacct = cap_ok("12345|COMPLETED|None|0:0\n");
    c.refresh_with_sacct(&mut s).unwrap();
    let finished = s.lifecycle.finished.unwrap();
    assert_eq!(finished.final_state, JobState::Completed);
    assert_eq!(finished.exit_code, Some(0));
    assert_eq!(c.calls("sacct"), 2);
}

#[test]
fn refresh_with_sacct_array_task_retries_after_sacct_lag() {
    let mut s = snap_array_task(12345, 3);
    let mut c = Canned::new("", "", "");
    c.refresh_with_sacct(&mut s).unwrap();
    assert!(s.lifecycle.finished.is_none());

    c.sacct = cap_ok("12345_3|COMPLETED|None|0:0\n");
    c.refresh_with_sacct(&mut s).unwrap();
    assert_eq!(s.exit_code(), Some(0));
}

#[test]
fn refresh_with_sacct_rolls_back_false_vanish_on_live_sacct_row() {
    let mut s = snap(12345);
    let mut c = Canned::new(
        "",
        "",
        "12345|RUNNING|None|0:0\n12345.batch|RUNNING|None|0:0\n",
    );
    assert!(c.refresh_with_sacct(&mut s).unwrap());
    assert!(s.lifecycle.finished.is_none());
    assert!(!s.lifecycle.left_active_listing);
    assert_eq!(observed(&s), Some(JobState::Running));
    assert!(s.is_running());

    c.sacct = cap_ok("12345|COMPLETED|None|0:0\n");
    c.refresh_with_sacct(&mut s).unwrap();
    assert_eq!(s.exit_code(), Some(0));
}

#[test]
fn refresh_with_sacct_array_task_rolls_back_false_vanish_on_live_row() {
    let mut s = snap_array_task(12345, 3);
    let mut c = Canned::new(
        "",
        "",
        "12345_3|RUNNING|None|0:0\n12345_3.batch|RUNNING|None|0:0\n",
    );
    c.refresh_with_sacct(&mut s).unwrap();
    assert!(s.lifecycle.finished.is_none());
    assert!(!s.lifecycle.left_active_listing);

    c.sacct = cap_ok("12345_3|FAILED|NonZeroExitCode|3:0\n");
    c.refresh_with_sacct(&mut s).unwrap();
    let finished = s.lifecycle.finished.unwrap();
    assert_eq!(finished.final_state, JobState::Failed);
    assert_eq!(finished.final_reason, JobReason::NonZeroExitCode);
    assert_eq!(finished.exit_code, Some(3));
}

#[test]
fn refresh_with_sacct_stamps_unknown_token_with_exit_code() {
    let mut s = snap(12345);
    let mut c = Canned::new("", "", "12345|SOME_FUTURE_STATE|None|0:0\n");
    c.refresh_with_sacct(&mut s).unwrap();
    let finished = s.lifecycle.finished.unwrap();
    assert_eq!(finished.final_state, JobState::Unknown);
    assert_eq!(finished.exit_code, Some(0));
}

#[test]
fn refresh_falls_back_to_squeue_when_qgroup_spawn_fails() {
    let mut s = snap(12345);
    let mut c = Canned::new("", "12345 RUNNING None\n", "");
    c.qgroup = None;
    c.refresh(&mut s).unwrap();
    assert_eq!(observed(&s), Some(JobState::Running));
    assert!(!s.lifecycle.left_active_listing);
}

#[test]
fn refresh_falls_back_to_squeue_when_qgroup_exits_with_an_error() {
    let mut s = snap(12345);
    let mut c = Canned::new("", "12345 PENDING Priority\n", "");
    c.qgroup = Some(failure("qgroup: no licence\n"));
    c.refresh(&mut s).unwrap();
    assert_eq!(
        s.lifecycle.last_observed_state,
        Some(JobStatus::with_reason(
            JobState::Pending,
            JobReason::Priority
        ))
    );
}

#[test]
fn refresh_array_tasks_observe_their_own_rows() {
    let listing = "12345_0 RUNNING None\n12345_1 PENDING Priority\n";
    let mut s0 = snap_array_task(12345, 0);
    let mut s1 = snap_array_task(12345, 1);
    let mut c = Canned::new("", listing, "");
    c.refresh(&mut s0).unwrap();
    c.refresh(&mut s1).unwrap();
    assert_eq!(observed(&s0), Some(JobState::Running));
    assert_eq!(observed(&s1), Some(JobState::Pending));
}

#[test]
fn refresh_keeps_the_vanish_flag_once_set() {
    let mut s = snap(12345);
    let mut c = Canned::new("", "", "");
    c.refresh(&mut s).unwrap();
    c.squeue = vec![cap_ok("12345 RUNNING None\n")];
    c.refresh(&mut s).unwrap();
    assert_eq!(observed(&s), Some(JobState::Running));
    assert!(s.lifecycle.left_active_listing);
    assert!(!s.is_running());
}

#[test]
fn wait_terminal_returns_when_state_is_terminal() {
    let mut s = snap(12345);
    let mut c = Canned::new("QUEUE USER JOBID STATUS PROC\ngr u 12345 CMP 1\n", "", "");
    c.wait_terminal(&mut s).unwrap();
    assert_eq!(observed(&s), Some(JobState::Completed));
}

#[test]
fn wait_terminal_returns_on_left_active_listing() {
    let mut s = snap(12345);
    let mut c = Canned::new("", "", "");
    c.wait_terminal(&mut s).unwrap();
    assert!(s.lifecycle.left_active_listing);
    assert_eq!(c.calls("sacct"), 0);
}

#[test]
fn wait_terminal_tolerates_transient_refresh_failures() {
    let mut s = snap_array_task(12345, 3);
    let mut c = Canned::new("", "", "");
    c.squeue = vec![transient(), transient(), vanished()];
    c.wait_terminal(&mut s).unwrap();
    assert!(s.lifecycle.left_active_listing);
    assert_eq!(c.calls("squeue"), 3);
}

#[test]
fn wait_terminal_propagates_persistent_refresh_failure() {
    let mut s = snap_array_task(12345, 3);
    let mut c = Canned::new("", "", "");
    c.squeue = vec![transient()];
    let msg = c.wait_terminal(&mut s).unwrap_err();
    assert!(msg.contains("squeue"), "tool name expected, got: {msg}");
    assert_eq!(c.calls("squeue"), 5);
}

#[test]
fn wait_terminal_counts_only_failures_in_a_row() {
    let mut s = snap_array_task(12345, 3);
    let mut c = Canned::new("", "", "");
    let alive = cap_ok("12345_3 RUNNING None\n");
    c.squeue = vec![
        transient(),
        transient(),
        transient(),
        transient(),
        alive,
        transient(),
        transient(),
        transient(),
        transient(),
        vanished(),
    ];
    c.wait_terminal(&mut s).unwrap();
    assert_eq!(c.calls("squeue"), 10);
}

#[test]
fn log_lines_returns_path_not_resolved_when_no_template() {
    let mut s = snap(12345);
    s.log = LogPathSpec::default();
    let err = s.log_path(LogStream::Stdout, "", "").unwrap_err();
    assert_eq!(err, LogReadError::PathNotResolved);
    assert_eq!(
        err.to_string(),
        "log path not resolved on snapshot (template missing)"
    );
    assert_eq!(
        LogReadError::Io("denied".into()).to_string(),
        "io error reading log: denied"
    );
}

#[test]
fn log_path_picks_the_stream() {
    let s = snap_array_task(7, 2);
    assert_eq!(
        s.log_path(LogStream::Stdout, "u", "h").unwrap(),
        "slurm-7.out"
    );
    assert_eq!(
        s.log_path(LogStream::Stderr, "u", "h").unwrap(),
        "slurm-7.err"
    );
}

#[test]
fn snapshots_clone_to_equal_snapshots() {
    let mut s = snap_array_task(7, 2);
    s.sent_env.insert("A".into(), "1".into());
    let mut c = Canned::new("", "", "7_2|FAILED|NonZeroExitCode|3:0\n");
    c.refresh_with_sacct(&mut s).unwrap();
    assert_eq!(s.clone(), s);
}
