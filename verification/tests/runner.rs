//! Listings of `squeue`, `sacct` and `qgroup`, and how they are merged.
use slurm_async_runner::entities::reason::JobReason;
use slurm_async_runner::entities::status::{JobState, JobStatus};
use slurm_async_runner::runner::listing::{
    parse_qgroup_l, parse_sacct, parse_sacct_array_task_with_exit_code, parse_sacct_with_exit_code,
    parse_squeue, parse_squeue_array_task,
};
use slurm_async_runner::runner::query::{csv_join, dedupe_preserving_order, merge_results};
use std::collections::HashMap;

#[test]
fn parse_squeue_three_field_rows() {
    let text = "100 PENDING Priority\n200 RUNNING None\n";
    let m = parse_squeue(text);
    assert_eq!(m.len(), 2);
    assert_eq!(
        m[&100],
        JobStatus::with_reason(JobState::Pending, JobReason::Priority)
    );
    assert_eq!(m[&200], JobStatus::new(JobState::Running));
}

#[test]
fn parse_squeue_compact_state_codes() {
    let text = "1 PD Priority\n2 R None\n3 OOM OutOfMemory\n";
    let m = parse_squeue(text);
    assert_eq!(m[&1].state, JobState::Pending);
    assert_eq!(m[&2].state, JobState::Running);
    assert_eq!(m[&3].state, JobState::OutOfMemory);
    assert_eq!(m[&3].reason, JobReason::OutOfMemory);
}

#[test]
fn parse_squeue_missing_reason_defaults_to_none() {
    let text = "42 RUNNING\n";
    let m = parse_squeue(text);
    assert_eq!(m[&42], JobStatus::new(JobState::Running));
}

#[test]
fn parse_squeue_skips_malformed_and_empty() {
    let text = "\n\
                    notanid PENDING Priority\n\
                    just-one-token\n\
                    \n\
                    777 RUNNING None\n";
    let m = parse_squeue(text);
    assert_eq!(m.len(), 1);
    assert!(m.contains_key(&777));
}

#[test]
fn parse_squeue_unknown_state_falls_back() {
    // Forward-compat: a future SLURM version emits a state we
    // don't know yet — must round-trip to JobState::Unknown.
    let text = "999 FUTURE_STATE FutureReason\n";
    let m = parse_squeue(text);
    assert_eq!(m[&999].state, JobState::Unknown);
    assert!(matches!(
        m[&999].reason,
        JobReason::Other(ref s) if s == "FutureReason"
    ));
}

#[test]
fn parse_sacct_three_field_rows() {
    let text = "100|COMPLETED|None\n200|FAILED|NonZeroExitCode\n";
    let m = parse_sacct(text);
    assert_eq!(m.len(), 2);
    assert_eq!(m[&100], JobStatus::new(JobState::Completed));
    assert_eq!(
        m[&200],
        JobStatus::with_reason(JobState::Failed, JobReason::NonZeroExitCode)
    );
}

#[test]
fn parse_sacct_filters_step_rows() {
    let text = "100|COMPLETED|None\n\
                    100.batch|COMPLETED|None\n\
                    100.extern|COMPLETED|None\n\
                    100.0|COMPLETED|None\n";
    let m = parse_sacct(text);
    assert_eq!(m.len(), 1);
    assert!(m.contains_key(&100));
}

#[test]
fn parse_sacct_handles_trailing_context_in_state() {
    // sacct prints `CANCELLED by 1234` for the State column. The
    // upstream JobState::parse trims to the first whitespace token.
    let text = "100|CANCELLED by 1234|None\n";
    let m = parse_sacct(text);
    assert_eq!(m[&100].state, JobState::Cancelled);
}

#[test]
fn parse_sacct_two_field_rows_default_reason_to_none() {
    let text = "42|COMPLETED\n";
    let m = parse_sacct(text);
    assert_eq!(m[&42], JobStatus::new(JobState::Completed));
}

#[test]
fn parse_sacct_skips_lines_without_pipe() {
    let text = "no-pipe-here\n100|COMPLETED|None\n";
    let m = parse_sacct(text);
    assert_eq!(m.len(), 1);
    assert!(m.contains_key(&100));
}

#[test]
fn parse_sacct_with_exit_code_three_fields_completed() {
    let text = "12345|COMPLETED|None|0:0\n";
    let m = parse_sacct_with_exit_code(text);
    let oc = m.get(&12345).expect("jobid present");
    assert_eq!(oc.status.state, JobState::Completed);
    assert_eq!(oc.exit_code, Some(0));
}

#[test]
fn parse_sacct_with_exit_code_signaled() {
    let text = "12345|CANCELLED by 1001|None|0:9\n";
    let m = parse_sacct_with_exit_code(text);
    let oc = m.get(&12345).expect("jobid present");
    assert_eq!(oc.status.state, JobState::Cancelled);
    assert_eq!(oc.exit_code, Some(137));
}

#[test]
fn parse_sacct_with_exit_code_filters_step_rows() {
    let text = "12345|COMPLETED|None|0:0\n12345.batch|COMPLETED|None|0:0\n";
    let m = parse_sacct_with_exit_code(text);
    assert_eq!(m.len(), 1);
    assert!(m.contains_key(&12345));
}

#[test]
fn parse_sacct_with_exit_code_handles_missing_exit_field() {
    let text = "12345|COMPLETED|None\n";
    let m = parse_sacct_with_exit_code(text);
    let oc = m.get(&12345).expect("jobid present");
    assert_eq!(oc.exit_code, None);
    assert_eq!(oc.status.state, JobState::Completed);
}

#[test]
fn merge_active_wins_over_history() {
    let active = HashMap::from([(
        1,
        JobStatus::with_reason(JobState::Running, JobReason::NoReason),
    )]);
    let history = HashMap::from([(
        1,
        JobStatus::with_reason(JobState::Completed, JobReason::NoReason),
    )]);
    let m = merge_results(&[1], &active, &history);
    assert_eq!(m[&1].state, JobState::Running);
}

#[test]
fn merge_falls_back_to_history() {
    let active = HashMap::new();
    let history = HashMap::from([(7, JobStatus::new(JobState::Completed))]);
    let m = merge_results(&[7], &active, &history);
    assert_eq!(m[&7].state, JobState::Completed);
}

#[test]
fn merge_unknown_for_missing() {
    let m = merge_results(&[42], &HashMap::new(), &HashMap::new());
    assert_eq!(m[&42], JobStatus::default());
    assert_eq!(m[&42].state, JobState::Unknown);
    assert_eq!(m[&42].reason, JobReason::NoReason);
}

#[test]
fn merge_returns_every_input_id() {
    // Contract: every input id appears as a key in the result.
    let active = HashMap::from([(1, JobStatus::new(JobState::Running))]);
    let history = HashMap::from([(2, JobStatus::new(JobState::Completed))]);
    let m = merge_results(&[1, 2, 3], &active, &history);
    assert_eq!(m.len(), 3);
    assert_eq!(m[&1].state, JobState::Running);
    assert_eq!(m[&2].state, JobState::Completed);
    assert_eq!(m[&3].state, JobState::Unknown);
}

#[test]
fn dedupe_preserves_first_occurrence_order() {
    assert_eq!(
        dedupe_preserving_order(&[3, 1, 2, 1, 3, 4]),
        vec![3, 1, 2, 4]
    );
}

#[test]
fn csv_join_basic() {
    assert_eq!(csv_join(&[]), "");
    assert_eq!(csv_join(&[1]), "1");
    assert_eq!(csv_join(&[1, 2, 3]), "1,2,3");
}

#[test]
fn parse_qgroup_l_extracts_jobid_and_state() {
    let out = "\
QUEUE     USER     JOBID          STATUS  PROC  CORE    MEM    ELAPSE(    limit)
gr19999b  b59999   12345          RUN        4     1  4570M  00:00:07( 01:00:00)
gr19999b  b59999   12346          QUE        1     1   100M  00:00:00( 00:30:00)
";
    let map = parse_qgroup_l(out);
    assert_eq!(map.len(), 2);
    assert_eq!(map.get(&12345).unwrap().state, JobState::Running);
    assert_eq!(map.get(&12346).unwrap().state, JobState::Pending);
}

#[test]
fn parse_qgroup_l_skips_blank_and_short_lines() {
    let out = "\
QUEUE USER JOBID STATUS

short
gr19999b u 9999 RUN 1 1 1M 0:0:1(0:1:0)
";
    let map = parse_qgroup_l(out);
    assert_eq!(map.len(), 1);
    assert!(map.contains_key(&9999));
}

#[test]
fn parse_qgroup_l_handles_completed_state() {
    let out = "\
QUEUE USER JOBID STATUS PROC
gr19999b u 5555 CMP 1
";
    let map = parse_qgroup_l(out);
    assert_eq!(map.get(&5555).map(|s| s.state), Some(JobState::Completed));
}

/// Current KUDPC `qgroup -l` output uses `|` as column dividers and
/// emits `FINI` as the "completed" status token. Regression guard for
/// the bug where `wait_terminal` timed out at 180 s even though the
/// job had finished, because the previous parser took field index 3
/// (`"|"`) as STATUS and `FINI` had no mapping in `JobState::parse`.
#[test]
fn parse_qgroup_l_handles_kudpc_pipe_separated_fini_row() {
    let out = "\
 QUEUE    SYS |   RUN  PEND OTHER | ALLOC ( MIN/ STD/ MAX)
----------------------------------------------------------------
 gr10641a  A  |     0     0     1 |     0 (   0/ 112/ 112)

 QUEUE    USER     |   RUN(ALLOC)  PEND(REQUEST) OTHER(REQUEST)
----------------------------------------------------------------
 gr10641a b39027   |     0(    0)     0(     0)     1(     1)

 QUEUE    USER     JOBID    | STAT  SUBMIT_AT        | RSC:core | PROC CORE    MEM       ELAPSE
------------------------------------------------------------------------------------------------
 gr10641a b39027   7519503  | FINI  2026-05-12 01:29 |        1 |    1    1  1070M     00:01:00
";
    let map = parse_qgroup_l(out);
    // Only the detail row carries a real jobid; the two summary
    // sections must be skipped.
    assert_eq!(map.len(), 1, "expected 1 detail row, got: {map:?}");
    assert_eq!(
        map.get(&7519503).map(|s| s.state),
        Some(JobState::Completed),
        "FINI must map to Completed so wait_terminal can exit"
    );
}

/// The pending-side equivalent of the KUDPC pipe layout — `QUE`
/// should still resolve to `Pending`, confirming the new token
/// stream filter works for non-terminal states too.
#[test]
fn parse_qgroup_l_handles_kudpc_pipe_separated_que_row() {
    let out = "\
 gr10641a b39027   7519600  | QUE   2026-05-12 02:00 |        1 |    1    1  1070M     00:00:00
";
    let map = parse_qgroup_l(out);
    assert_eq!(map.len(), 1);
    assert_eq!(map.get(&7519600).map(|s| s.state), Some(JobState::Pending));
}

#[test]
fn parse_qgroup_l_skips_summaries_with_counts() {
    let out = " QUEUE    SYS |   RUN  PEND OTHER | ALLOC\n gr10641a  A  |     3     0     1 |     0\n";
    assert!(parse_qgroup_l(out).is_empty());
    let out = " QUEUE    SYS |   RUN  PEND OTHER | ALLOC ( MIN/ STD/ MAX)\n \
 gr10641a  A  |    12     7     1 |   112 (   0/ 112/ 112)\n\n \
 QUEUE    USER     |   RUN(ALLOC)  PEND(REQUEST) OTHER(REQUEST)\n \
 gr10641a b39027   |     3(   12)     1(     4)     1(     1)\n";
    assert!(parse_qgroup_l(out).is_empty());
}

#[test]
fn parse_qgroup_l_takes_the_third_column_as_jobid() {
    let map = parse_qgroup_l("q 1000 7519503 RUN\n12 | 34 | 6 | QUE 7\nq u 8\nq u 0 RUN\nq 5 RUN x\n");
    assert_eq!(map.len(), 2);
    assert_eq!(map[&7519503].state, JobState::Running);
    assert_eq!(map[&6].state, JobState::Pending);
}

/// KUDPC qgroup -l emits two side-by-side detail rows when both a
/// finished and a failed job are still in the listing — confirms the
/// FINI/FAIL token pair resolves to terminal states so
/// `wait_terminal` exits for both outcomes.
#[test]
fn parse_qgroup_l_handles_kudpc_pipe_separated_fini_and_fail_rows() {
    let out = "\
 QUEUE    USER     JOBID    | STAT  SUBMIT_AT        | RSC:core | PROC CORE    MEM       ELAPSE
------------------------------------------------------------------------------------------------
 gr10641a b39027   7519510  | FINI  2026-05-12 01:48 |        1 |    1    1  1070M     00:01:00
 gr10641a b39027   7519511  | FAIL  2026-05-12 01:49 |        1 |    1    1  1070M     00:01:00
";
    let map = parse_qgroup_l(out);
    assert_eq!(map.len(), 2, "expected 2 detail rows, got: {map:?}");
    assert_eq!(
        map.get(&7519510).map(|s| s.state),
        Some(JobState::Completed),
    );
    assert_eq!(map.get(&7519511).map(|s| s.state), Some(JobState::Failed));
}

#[test]
fn parse_squeue_array_task_extracts_state_and_reason() {
    // squeue with -r -o "%i %T %r" gives `KEY STATE REASON` per row.
    let out = "12345_3 RUNNING None\n";
    let s = parse_squeue_array_task(out, "12345_3").expect("Some");
    assert_eq!(s.state, JobState::Running);
    assert_eq!(s.reason, JobReason::NoReason);
}

#[test]
fn parse_squeue_array_task_returns_none_for_empty_output() {
    assert_eq!(parse_squeue_array_task("", "12345_3"), None);
    assert_eq!(parse_squeue_array_task("\n", "12345_3"), None);
}

#[test]
fn parse_squeue_array_task_carries_pending_reason() {
    let out = "12345_3 PENDING Priority\n";
    let s = parse_squeue_array_task(out, "12345_3").expect("Some");
    assert_eq!(s.state, JobState::Pending);
    assert_eq!(s.reason, JobReason::Priority);
}

#[test]
fn parse_squeue_array_task_ignores_rows_for_other_keys() {
    // Exact-key match: a batched listing shared with plain jobs and
    // other tasks must never contribute another row's status, and a
    // missing key must read as "left the queue" (None).
    let out = "\
100 RUNNING None
12345_2 PENDING Priority
12345_3 RUNNING None
";
    let s = parse_squeue_array_task(out, "12345_2").expect("Some");
    assert_eq!(s.state, JobState::Pending);
    assert_eq!(
        parse_squeue_array_task(out, "12345_9"),
        None,
        "a key absent from the listing must resolve to None, never another row"
    );
}

#[test]
fn parse_sacct_array_task_returns_parent_row_skipping_steps() {
    // Real sacct emits the parent row plus step rows (`.batch`, `.0`).
    // Only the parent row should contribute.
    let out = "\
12345_3|COMPLETED|None|0:0
12345_3.batch|COMPLETED|None|0:0
12345_3.extern|COMPLETED|None|0:0
";
    let oc = parse_sacct_array_task_with_exit_code(out, "12345_3").expect("Some");
    assert_eq!(oc.status.state, JobState::Completed);
    assert_eq!(oc.exit_code, Some(0));
}

#[test]
fn parse_sacct_array_task_recovers_nonzero_exit_code() {
    let out = "12345_7|FAILED|NonZeroExitCode|2:0\n";
    let oc = parse_sacct_array_task_with_exit_code(out, "12345_7").expect("Some");
    assert_eq!(oc.status.state, JobState::Failed);
    assert_eq!(oc.status.reason, JobReason::NonZeroExitCode);
    assert_eq!(oc.exit_code, Some(2));
}

#[test]
fn parse_sacct_array_task_returns_none_for_only_step_rows() {
    // Defensive: if sacct somehow returns only step rows (purged
    // parent, …), the parser must not synthesize a parent.
    let out = "12345_3.batch|COMPLETED|None|0:0\n";
    assert_eq!(
        parse_sacct_array_task_with_exit_code(out, "12345_3"),
        None
    );
}

#[test]
fn parse_sacct_array_task_returns_none_for_empty_output() {
    assert_eq!(
        parse_sacct_array_task_with_exit_code("", "12345_3"),
        None
    );
}

#[test]
fn parse_sacct_array_task_ignores_rows_for_other_tasks() {
    // Exact-key match: a listing that contains rows for other tasks
    // (e.g. a future batched query, or sacct returning the whole array)
    // must never contribute another task's outcome.
    let out = "\
12345_2|FAILED|NonZeroExitCode|2:0
12345_2.batch|FAILED||2:0
12345_3|COMPLETED|None|0:0
12345_3.batch|COMPLETED|None|0:0
";
    let oc = parse_sacct_array_task_with_exit_code(out, "12345_3").expect("Some");
    assert_eq!(oc.status.state, JobState::Completed);
    assert_eq!(oc.exit_code, Some(0));
    assert_eq!(
        parse_sacct_array_task_with_exit_code(out, "12345_9"),
        None,
        "a task absent from the listing must resolve to None, never another task's row"
    );
}
