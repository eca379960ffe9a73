//! Output of `sbatch` and `sacct`, log paths and array indices.
use slurm_async_runner::entities::array_spec::{ArrayIndex, SlurmArraySpec};
use slurm_async_runner::sbatch::parse::{
    check_steps, expand_array_indices, parse_sacct_exit_code, parse_submitted_jobid, resolve_log_path,
};

#[test]
fn parses_clean_single_line() {
    assert_eq!(
        parse_submitted_jobid("Submitted batch job 12345\n"),
        Some(12345)
    );
}

#[test]
fn parses_with_leading_warning() {
    let out = "\
sbatch: warning: ...
Submitted batch job 67890
";
    assert_eq!(parse_submitted_jobid(out), Some(67890));
}

#[test]
fn parses_multi_cluster_form() {
    let out = "Submitted batch job 42 on cluster cluster1\n";
    assert_eq!(parse_submitted_jobid(out), Some(42));
}

#[test]
fn parses_array_form_takes_parent_id() {
    let out = "Submitted batch job 12345_0\n";
    assert_eq!(parse_submitted_jobid(out), Some(12345));
}

#[test]
fn returns_none_when_no_match() {
    assert_eq!(parse_submitted_jobid(""), None);
    assert_eq!(parse_submitted_jobid("error: bad partition\n"), None);
}

#[test]
fn resolve_substitutes_jobid_only() {
    let p = resolve_log_path("slurm-%j.out", 12345, None, None, "", "");
    assert_eq!(p, "slurm-12345.out");
}

#[test]
fn resolve_substitutes_jobname_when_some() {
    let p = resolve_log_path("%x-%j.out", 12345, None, Some("g09run"), "", "");
    assert_eq!(p, "g09run-12345.out");
}

#[test]
fn resolve_leaves_jobname_token_when_none() {
    let p = resolve_log_path("%x-%j.out", 12345, None, None, "", "");
    assert_eq!(p, "%x-12345.out");
}

#[test]
fn resolve_leaves_unsupported_array_token_when_none() {
    // %a stays raw when array_task_id is None; %A still expands.
    let p = resolve_log_path("%A_%a-%j.out", 999, None, Some("nm"), "", "");
    assert_eq!(p, "999_%a-999.out");
}

#[test]
fn resolve_leaves_truly_unsupported_tokens_raw() {
    let p = resolve_log_path("%5j-%t-%j.out", 999, None, None, "", "");
    assert_eq!(p, "%5j-%t-999.out");
}

#[test]
fn resolve_substitutes_master_jobid_via_capital_a() {
    let p = resolve_log_path("slurm-%A.out", 12345, None, None, "", "");
    assert_eq!(p, "slurm-12345.out");
}

#[test]
fn resolve_substitutes_array_task_id_via_lowercase_a() {
    let p = resolve_log_path("slurm-%A_%a.out", 12345, Some(7), None, "", "");
    assert_eq!(p, "slurm-12345_7.out");
}

#[test]
fn resolve_leaves_array_task_id_token_when_none() {
    let p = resolve_log_path("slurm-%A_%a.out", 12345, None, None, "", "");
    assert_eq!(p, "slurm-12345_%a.out");
}

#[test]
fn parses_clean_zero_exit() {
    assert_eq!(parse_sacct_exit_code("0:0"), Some(0));
}

#[test]
fn parses_nonzero_exit_no_signal() {
    assert_eq!(parse_sacct_exit_code("139:0"), Some(139));
}

#[test]
fn parses_signal_kill_with_zero_exit() {
    // SIGKILL = 9 -> shell convention 128 + 9 = 137
    assert_eq!(parse_sacct_exit_code("0:9"), Some(137));
}

#[test]
fn parses_signal_segv_with_nonzero_exit() {
    // SIGSEGV = 11 -> shell convention 128 + 11 = 139.
    // Slurm sometimes emits "139:11" — signal field is authoritative.
    assert_eq!(parse_sacct_exit_code("139:11"), Some(139));
}

#[test]
fn rejects_garbled_field() {
    assert_eq!(parse_sacct_exit_code(""), None);
    assert_eq!(parse_sacct_exit_code("abc"), None);
    assert_eq!(parse_sacct_exit_code(":0"), None);
    assert_eq!(parse_sacct_exit_code("0:"), None);
    assert_eq!(parse_sacct_exit_code("0"), None);
}

#[test]
fn expand_single_value() {
    let spec: SlurmArraySpec = "5".parse().unwrap();
    assert_eq!(expand_array_indices(&spec), vec![5]);
}

#[test]
fn expand_simple_range() {
    let spec: SlurmArraySpec = "0-3".parse().unwrap();
    assert_eq!(expand_array_indices(&spec), vec![0, 1, 2, 3]);
}

#[test]
fn expand_stepped_range_even() {
    let spec: SlurmArraySpec = "0-8:2".parse().unwrap();
    assert_eq!(expand_array_indices(&spec), vec![0, 2, 4, 6, 8]);
}

#[test]
fn expand_stepped_range_odd_endpoint() {
    // 0-10:4 -> 0, 4, 8 (10 NOT included since (10-0)%4 != 0)
    let spec: SlurmArraySpec = "0-10:4".parse().unwrap();
    assert_eq!(expand_array_indices(&spec), vec![0, 4, 8]);
}

#[test]
fn expand_mixed_entries_preserves_order() {
    let spec: SlurmArraySpec = "0,2,5-7".parse().unwrap();
    assert_eq!(expand_array_indices(&spec), vec![0, 2, 5, 6, 7]);
}

#[test]
fn expand_ignores_max_concurrent() {
    let spec: SlurmArraySpec = "0-3%2".parse().unwrap();
    assert_eq!(expand_array_indices(&spec), vec![0, 1, 2, 3]);
}

#[test]
fn steps_of_zero_are_found() {
    let spec = |start: u32, end: u32, step: u32| SlurmArraySpec {
        indices: vec![ArrayIndex::Single(1), ArrayIndex::Stepped { start, end, step }],
        max_concurrent: None,
    };
    assert!(check_steps(&spec(0, 4, 2)));
    assert!(!check_steps(&spec(0, 4, 0)));
    assert!(check_steps(&spec(5, 4, 0)));
    assert_eq!(expand_array_indices(&spec(5, 4, 0)), vec![1]);
    assert_eq!(
        expand_array_indices(&spec(u32::MAX - 1, u32::MAX, 2)),
        vec![1, u32::MAX - 1]
    );
}
