//! Queries for the state of jobs, answered from canned listings.
use slurm_async_runner::dispatcher::CaptureOutput;
use slurm_async_runner::entities::reason::JobReason;
use slurm_async_runner::entities::status::{JobState, JobStatus};
use slurm_async_runner::runner::listing::{
    check_exit_codes, check_task_exit_code, parse_sacct, parse_squeue, JobOutcome,
};
use slurm_async_runner::runner::query::{
    ensure_query_success, qgroup_argv, read_qgroup, read_squeue, read_task_outcome,
    read_task_state, squeue_only_argv, squeue_reports_vanished, task_outcome_argv, task_state_argv,
    BatchQuery, BatchStep, OutcomeQuery, OutcomeStep, QueryError,
};
use std::collections::HashMap;

fn cap_ok(stdout: &str) -> CaptureOutput {
    CaptureOutput {
        exit_code: 0,
        stdout: stdout.to_string(),
        stderr: String::new(),
    }
}

fn failure(stderr: &str) -> CaptureOutput {
    CaptureOutput {
        exit_code: 1,
        stdout: String::new(),
        stderr: stderr.to_string(),
    }
}

fn vanished_squeue() -> CaptureOutput {
    failure("slurm_load_jobs error: Invalid job id specified\n")
}

fn transient_squeue() -> CaptureOutput {
    failure("slurm_load_jobs error: Socket timed out on send/recv operation\n")
}

type Seen = Vec<Vec<String>>;

fn batch(
    ids: &[u64],
    squeue: CaptureOutput,
    sacct: CaptureOutput,
) -> (Result<HashMap<u64, JobStatus>, QueryError>, Seen) {
    let mut seen = Vec::new();
    let mut step = BatchQuery::start(ids);
    loop {
        match step {
            BatchStep::Capture { argv, query } => {
                let out = if argv[0] == "squeue" { &squeue } else { &sacct };
                seen.push(argv);
                step = query.advance(out);
            }
            BatchStep::Done(m) => return (Ok(m), seen),
            BatchStep::Failed(e) => return (Err(e), seen),
        }
    }
}

fn outcomes(
    ids: &[u64],
    squeue: CaptureOutput,
    sacct: CaptureOutput,
) -> (Result<HashMap<u64, JobOutcome>, QueryError>, Seen) {
    let mut seen = Vec::new();
    let mut step = OutcomeQuery::start(ids);
    loop {
        match step {
            OutcomeStep::Capture { argv, query } => {
                let out = if argv[0] == "squeue" { &squeue } else { &sacct };
                seen.push(argv);
                assert!(!query.awaits_sacct() || check_exit_codes(&out.stdout));
                step = query.advance(out);
            }
            OutcomeStep::Done(m) => return (Ok(m), seen),
            OutcomeStep::Failed(e) => return (Err(e), seen),
        }
    }
}

fn pinned_summary_argv(csv: &str) -> Vec<String> {
    vec![
        "squeue".into(),
        "-h".into(),
        "-r".into(),
        "-j".into(),
        csv.into(),
        "-o".into(),
        "%i %T %r".into(),
    ]
}

#[test]
fn empty_input_short_circuits() {
    let (m, seen) = batch(&[], cap_ok(""), cap_ok(""));
    assert!(m.unwrap().is_empty());
    assert!(seen.is_empty());
    let (m, seen) = outcomes(&[], cap_ok(""), cap_ok(""));
    assert!(m.unwrap().is_empty());
    assert!(seen.is_empty());
}

#[test]
fn query_job_states_batch_builds_the_batchable_summary_argv() {
    let (m, seen) = batch(&[100], cap_ok("100 RUNNING None\n"), cap_ok(""));
    assert_eq!(seen, vec![pinned_summary_argv("100")]);
    assert_eq!(m.unwrap()[&100].state, JobState::Running);
}

#[test]
fn query_job_states_with_exit_code_builds_the_batchable_summary_argv() {
    let (m, seen) = outcomes(&[100], cap_ok("100 RUNNING None\n"), cap_ok(""));
    assert_eq!(seen, vec![pinned_summary_argv("100")]);
    assert_eq!(m.unwrap()[&100].status.state, JobState::Running);
}

#[test]
fn query_job_states_squeue_only_builds_the_batchable_summary_argv() {
    assert_eq!(squeue_only_argv(&[100]), Some(pinned_summary_argv("100")));
    assert_eq!(
        squeue_only_argv(&[3, 1, 3]),
        Some(pinned_summary_argv("3,1"))
    );
    let m = read_squeue(&cap_ok("100 RUNNING None\n")).unwrap();
    assert_eq!(m[&100].state, JobState::Running);
}

#[test]
fn query_via_qgroup_short_circuits_on_empty_input() {
    assert_eq!(qgroup_argv(&[]), None);
    assert_eq!(qgroup_argv(&[1]), Some(vec!["qgroup".into(), "-l".into()]));
}

#[test]
fn query_squeue_only_short_circuits_on_empty_input() {
    assert_eq!(squeue_only_argv(&[]), None);
}

#[test]
fn query_via_qgroup_filters_to_requested_jobids() {
    let stdout = "\
queue user 1 RUN 1 1 1M 0:0:1(0:1:0)
queue user 2 RUN 1 1 1M 0:0:1(0:1:0)
queue user 3 RUN 1 1 1M 0:0:1(0:1:0)
";
    let m = read_qgroup(&[2], &cap_ok(stdout)).unwrap();
    assert_eq!(m.len(), 1);
    assert!(m.contains_key(&2));
}

#[test]
fn query_via_qgroup_reports_a_failure() {
    let e = read_qgroup(&[2], &failure("  no licence \n")).unwrap_err();
    assert_eq!(e.to_string(), "`qgroup` exited with 1: no licence");
}

#[test]
fn only_what_squeue_does_not_list_is_asked_of_sacct() {
    let (m, seen) = batch(
        &[1, 2, 3, 2],
        cap_ok("2 RUNNING None\n9 RUNNING None\n"),
        cap_ok("1|COMPLETED|None\n2|FAILED|None\n1.batch|FAILED|None\n"),
    );
    assert_eq!(seen.len(), 2);
    assert_eq!(seen[0], pinned_summary_argv("1,2,3"));
    assert_eq!(
        seen[1],
        vec!["sacct", "-P", "-n", "-j", "1,3", "-o", "JobID,State,Reason"]
    );
    let m = m.unwrap();
    assert_eq!(m.len(), 3, "every id that was asked for, and no other");
    assert_eq!(m[&1].state, JobState::Completed);
    assert_eq!(m[&2].state, JobState::Running);
    assert_eq!(m[&3], JobStatus::default());
}

#[test]
fn query_with_exit_code_squeue_only_reports_no_exit_code() {
    let (m, seen) = outcomes(
        &[12345],
        cap_ok("12345 RUNNING None\n"),
        cap_ok("12345|COMPLETED|None|0:0\n"),
    );
    assert_eq!(seen.len(), 1);
    let oc = m.unwrap().remove(&12345).unwrap();
    assert_eq!(oc.status.state, JobState::Running);
    assert_eq!(oc.exit_code, None);
}

#[test]
fn query_with_exit_code_sacct_supplies_exit_code() {
    let (m, seen) = outcomes(&[12345], cap_ok(""), cap_ok("12345|COMPLETED|None|0:0\n"));
    assert_eq!(
        seen[1],
        vec![
            "sacct",
            "-P",
            "-n",
            "-j",
            "12345",
            "-o",
            "JobID,State,Reason,ExitCode"
        ]
    );
    let oc = m.unwrap().remove(&12345).unwrap();
    assert_eq!(oc.status.state, JobState::Completed);
    assert_eq!(oc.exit_code, Some(0));
}

#[test]
fn query_with_exit_code_missing_id_defaults_to_unknown() {
    let (m, _) = outcomes(&[99999], cap_ok(""), cap_ok(""));
    let oc = m.unwrap().remove(&99999).unwrap();
    assert_eq!(oc.status, JobStatus::default());
    assert_eq!(oc.status.reason, JobReason::NoReason);
    assert_eq!(oc.exit_code, None);
}

#[test]
fn a_vanished_listing_falls_through_to_sacct() {
    let (m, seen) = batch(&[5], vanished_squeue(), cap_ok("5|TIMEOUT|TimeLimit\n"));
    assert_eq!(seen.len(), 2);
    assert_eq!(
        m.unwrap()[&5],
        JobStatus::with_reason(JobState::Timeout, JobReason::TimeLimit)
    );
}

#[test]
fn failures_of_either_command_end_a_query() {
    let (e, seen) = batch(&[5], transient_squeue(), cap_ok(""));
    assert_eq!(e.unwrap_err().tool, "squeue");
    assert_eq!(seen.len(), 1);
    let (e, _) = batch(&[5], cap_ok(""), failure("slurmdbd is unresponsive"));
    let e = e.unwrap_err();
    assert_eq!(e.tool, "sacct");
    assert_eq!(e.exit_code, 1);
    assert_eq!(e.detail, "slurmdbd is unresponsive");
    let (e, _) = outcomes(&[5], cap_ok(""), failure("slurmdbd is unresponsive"));
    assert_eq!(e.unwrap_err().tool, "sacct");
    let (e, _) = outcomes(&[5], transient_squeue(), cap_ok(""));
    assert_eq!(e.unwrap_err().tool, "squeue");
}

#[test]
fn query_array_task_state_uses_master_underscore_idx_squeue_key() {
    assert_eq!(task_state_argv(12345, 3), pinned_summary_argv("12345_3"));
    let s = read_task_state(12345, 3, &cap_ok("12345_3 RUNNING None\n"))
        .unwrap()
        .unwrap();
    assert_eq!(s.state, JobState::Running);
}

#[test]
fn query_array_task_state_returns_none_when_squeue_reports_no_row() {
    assert_eq!(read_task_state(99999, 0, &cap_ok("")).unwrap(), None);
}

#[test]
fn query_array_task_state_treats_invalid_jobid_failure_as_vanished() {
    assert_eq!(read_task_state(12345, 3, &vanished_squeue()).unwrap(), None);
}

#[test]
fn query_squeue_only_treats_invalid_jobid_failure_as_empty() {
    assert!(read_squeue(&vanished_squeue()).unwrap().is_empty());
}

#[test]
fn query_array_task_state_propagates_transient_squeue_failure() {
    let msg = read_task_state(12345, 3, &transient_squeue())
        .unwrap_err()
        .to_string();
    assert!(msg.contains("squeue") && msg.contains("Socket timed out"));
}

#[test]
fn query_squeue_only_propagates_transient_squeue_failure() {
    let msg = read_squeue(&transient_squeue()).unwrap_err().to_string();
    assert!(msg.contains("squeue") && msg.contains("Socket timed out"));
}

#[test]
fn query_array_task_outcome_propagates_sacct_failure() {
    let msg = read_task_outcome(
        12345,
        3,
        &failure("sacct: error: slurmdbd is unresponsive\n"),
    )
    .unwrap_err()
    .to_string();
    assert_eq!(
        msg,
        "`sacct` exited with 1: sacct: error: slurmdbd is unresponsive"
    );
}

#[test]
fn query_array_task_outcome_uses_master_underscore_idx_sacct_key() {
    assert_eq!(
        task_outcome_argv(12345, 3),
        vec![
            "sacct",
            "-P",
            "-n",
            "-j",
            "12345_3",
            "-o",
            "JobID,State,Reason,ExitCode"
        ]
    );
    let oc = read_task_outcome(12345, 3, &cap_ok("12345_3|COMPLETED|None|0:0\n"))
        .unwrap()
        .unwrap();
    assert_eq!(oc.status.state, JobState::Completed);
    assert_eq!(oc.exit_code, Some(0));
}

#[test]
fn vanishing_needs_a_failure_and_the_message() {
    assert!(squeue_reports_vanished(&vanished_squeue()));
    assert!(!squeue_reports_vanished(&transient_squeue()));
    let mut out = vanished_squeue();
    out.exit_code = 0;
    assert!(!squeue_reports_vanished(&out));
}

#[test]
fn negative_exit_codes_are_written_with_their_sign() {
    let mut out = failure("killed");
    out.exit_code = -9;
    let e = ensure_query_success("squeue", &out).unwrap_err();
    assert_eq!(e.to_string(), "`squeue` exited with -9: killed");
    assert!(ensure_query_success("squeue", &cap_ok("")).is_ok());
}

#[test]
fn of_several_rows_of_a_job_the_last_one_decides() {
    let m = parse_squeue("7 PENDING Priority\n7 RUNNING None\n");
    assert_eq!(m[&7], JobStatus::new(JobState::Running));
    let m = parse_sacct("7|RUNNING|None\n7|FAILED|NonZeroExitCode\n7.0|COMPLETED|None\n");
    assert_eq!(m[&7].state, JobState::Failed);
}

#[test]
fn ids_beyond_64_bits_and_signed_ids_are_no_rows() {
    let m = parse_squeue("18446744073709551616 RUNNING None\n-3 RUNNING None\n+4 RUNNING None\n");
    assert_eq!(m.len(), 1);
    assert!(m.contains_key(&4));
}

#[test]
fn exit_codes_beyond_32_bits_are_found() {
    assert!(check_exit_codes("7|FAILED|None|0:2147483519\n"));
    assert!(!check_exit_codes("7|FAILED|None|0:2147483520\n"));
    assert!(check_exit_codes("7.batch|FAILED|None|0:2147483520\n"));
    assert!(!check_task_exit_code("7_1|FAILED|None|0:2147483520\n", "7_1"));
    assert!(check_task_exit_code("7_1|FAILED|None|0:2147483520\n", "7_2"));
}

#[test]
fn a_diagnostic_prefers_stderr() {
    let mut out = failure(" on stderr \n");
    out.stdout = "on stdout".into();
    assert_eq!(out.diagnostic(), "on stderr");
    out.stderr = " \n".into();
    assert_eq!(out.diagnostic(), "on stdout");
    assert_eq!(CaptureOutput::default().diagnostic(), "");
    assert!(CaptureOutput::default().success());
    assert!(!failure("").success());
}
