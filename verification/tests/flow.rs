//! Submitting, finding, running and cancelling jobs; the store.
use slurm_async_runner::dispatcher::CaptureOutput;
use slurm_async_runner::entities::array_spec::{ArrayIndex, SlurmArraySpec};
use slurm_async_runner::entities::reason::JobReason;
use slurm_async_runner::entities::status::JobState;
use slurm_async_runner::ident::Timestamp;
use slurm_async_runner::sbatch::cmd::SbatchCmd;
use slurm_async_runner::sbatch::error::{
    SbatchAttachError, SbatchCancelError, SbatchRunError, SbatchSpawnError,
};
use slurm_async_runner::sbatch::handle::{FinishedInfo, SbatchJobSnapshot, SbatchLifecycle};
use slurm_async_runner::sbatch::manager::{
    array_snapshots, array_tasks, cancel_argv, check_run, found, judge_file, new_snapshot,
    only_match, plan_array, read_cancel, read_submission, run_result, with_array, SbatchAttachKey,
};
use slurm_async_runner::store::{
    check_kind, file_name, find_all_by_jobid, find_by_jobid, is_snapshot_name, judge_kind,
    InMemoryStateStore, JobSnapshot, KindCheck,
};

const NOW: Timestamp = Timestamp {
    secs: 1_778_544_000,
    nanos: 5,
};

fn cap(exit_code: i32, stdout: &str) -> CaptureOutput {
    CaptureOutput {
        exit_code,
        stdout: stdout.to_string(),
        stderr: String::new(),
    }
}

fn words(ws: &[&str]) -> Vec<String> {
    ws.iter().map(|w| w.to_string()).collect()
}

fn single(uuid: u128, jobid: u64) -> SbatchJobSnapshot {
    let cmd = SbatchCmd::new("/w/job.sh");
    new_snapshot(
        &cmd,
        &words(&["sbatch", "/w/job.sh"]),
        jobid,
        None,
        uuid,
        "/w/job.sh",
        NOW,
    )
}

fn task(uuid: u128, jobid: u64, index: u32) -> SbatchJobSnapshot {
    let mut s = single(uuid, jobid);
    s.array_task_id = Some(index);
    s
}

#[test]
fn spawn_happy_path_makes_a_snapshot_with_jobid() {
    let mut cmd = SbatchCmd::new("/w/job.sh");
    cmd.job_name = Some("g09run".into());
    cmd.partition = Some("gr19999b".into());
    cmd.chdir = Some("/w".into());
    cmd.output = Some("slurm-%j.out".into());
    cmd.env.insert("FOO".into(), "bar".into());
    let argv = cmd.build_argv().unwrap();
    let jobid = read_submission(&cap(0, "Submitted batch job 12345\n")).unwrap();
    let s = new_snapshot(&cmd, &argv, jobid, None, 9, "/w/job.sh", NOW);
    assert_eq!(s.jobid, 12345);
    assert_eq!(s.uuid, 9);
    assert_eq!(s.argv, argv);
    assert_eq!(s.argv[0], "sbatch");
    assert_eq!(s.sent_env.get("FOO"), Some("bar"));
    assert_eq!(s.script_path, "/w/job.sh");
    assert_eq!(s.chdir.as_deref(), Some("/w"));
    assert_eq!(s.partition.as_deref(), Some("gr19999b"));
    assert_eq!(s.job_name.as_deref(), Some("g09run"));
    assert_eq!(s.submitted_at, NOW);
    assert_eq!(s.log.output_template.as_deref(), Some("slurm-%j.out"));
    assert_eq!(s.log.error_template, None);
    assert_eq!(s.lifecycle, SbatchLifecycle::default());
    assert!(!s.is_running());
    assert!(!s.is_finished());
}

#[test]
fn spawn_returns_submit_failed_on_nonzero_exit() {
    let e = read_submission(&cap(1, "error: bad partition\n")).unwrap_err();
    assert_eq!(
        e,
        SbatchSpawnError::SubmitFailed {
            exit_code: 1,
            output: "error: bad partition".into()
        }
    );
    assert_eq!(
        e.to_string(),
        "sbatch invocation failed (exit=1): error: bad partition"
    );
}

#[test]
fn spawn_returns_jobid_parse_error_when_stdout_is_garbage() {
    let e = read_submission(&cap(0, "warning but no parseable id\n")).unwrap_err();
    assert_eq!(
        e.to_string(),
        "sbatch stdout did not contain a parseable jobid: warning but no parseable id\n"
    );
}

#[test]
fn spawn_errors_have_messages() {
    assert_eq!(
        SbatchSpawnError::SubmittedButUnpersisted {
            jobid: 7,
            source: "disk full".into()
        }
        .to_string(),
        "sbatch submitted jobid=7 but snapshot save failed: disk full"
    );
    assert_eq!(SbatchSpawnError::Other("x".into()).to_string(), "x");
    assert_eq!(
        SbatchSpawnError::InvalidExportKey { key: "a\"b".into() }.to_string(),
        "--export key contains forbidden char (`,` or `=`): \"a\\\"b\""
    );
}

#[test]
fn spawn_array_creates_one_snapshot_per_task() {
    let spec: SlurmArraySpec = "0-3".parse().unwrap();
    let indices = plan_array(&spec).unwrap();
    let cmd = with_array(SbatchCmd::new("/w/job.sh"), spec);
    let argv = cmd.build_argv().unwrap();
    assert_eq!(argv, words(&["sbatch", "--array=0-3", "/w/job.sh"]));
    let master = read_submission(&cap(0, "Submitted batch job 50000\n")).unwrap();
    let stamps: Vec<(u128, Timestamp)> = (0..4).map(|i| (100 + i, NOW)).collect();
    let all = array_snapshots(&cmd, &argv, master, &indices, &stamps, "/w/job.sh");
    assert_eq!(all.len(), 4);
    for (i, s) in all.iter().enumerate() {
        assert_eq!(s.jobid, 50000);
        assert_eq!(s.array_task_id, Some(i as u32));
        assert_eq!(s.uuid, 100 + i as u128);
        assert_eq!(s.argv, argv);
    }
}

#[test]
fn spawn_array_overrides_the_array_of_the_command() {
    let mut cmd = SbatchCmd::new("/w/job.sh");
    cmd.array_spec = Some("9".parse().unwrap());
    let cmd = with_array(cmd, "5,0-2".parse().unwrap());
    assert_eq!(cmd.build_argv().unwrap()[1], "--array=5,0-2");
    assert_eq!(
        plan_array(&"5,0-2".parse().unwrap()).unwrap(),
        vec![5, 0, 1, 2],
        "in the order written"
    );
}

#[test]
fn spawn_array_rejects_an_array_without_tasks() {
    let spec = SlurmArraySpec {
        indices: vec![ArrayIndex::Range { start: 5, end: 3 }],
        max_concurrent: None,
    };
    assert!(plan_array(&spec)
        .unwrap_err()
        .to_string()
        .starts_with("spawn_array: SlurmArraySpec yielded zero task indices"));
}

#[test]
fn attach_array_jobid_returns_all_tasks_sorted() {
    let all = vec![
        task(1, 60000, 2),
        single(2, 60000),
        task(3, 60000, 0),
        task(4, 60000, 1),
        task(5, 60000, 0),
    ];
    let tasks = array_tasks(all);
    let got: Vec<(Option<u32>, u128)> = tasks.iter().map(|s| (s.array_task_id, s.uuid)).collect();
    assert_eq!(
        got,
        vec![(Some(0), 3), (Some(0), 5), (Some(1), 4), (Some(2), 1)]
    );
}

#[test]
fn attach_array_jobid_empty_when_no_match() {
    assert!(array_tasks(Vec::new()).is_empty());
    assert!(array_tasks(vec![single(1, 2)]).is_empty());
}

#[test]
fn attach_jobid_returns_multiple_match_for_array_master() {
    let e = only_match(70000, vec![task(1, 70000, 0), task(2, 70000, 1)]).unwrap_err();
    assert_eq!(
        e,
        SbatchAttachError::MultipleMatch {
            jobid: 70000,
            count: 2
        }
    );
    assert_eq!(e.to_string(), "jobid 70000 matches 2 snapshots");
}

#[test]
fn attach_jobid_finds_the_only_snapshot() {
    assert_eq!(only_match(7, vec![single(1, 7)]).unwrap(), single(1, 7));
    let e = only_match(7, Vec::new()).unwrap_err();
    assert_eq!(
        e,
        SbatchAttachError::NotFound {
            key: "JobId(7)".into()
        }
    );
}

#[test]
fn attach_uuid_reports_the_key() {
    let key = SbatchAttachKey::Uuid(0xa1a2a3a4b1b2c1c2d1d2d3d4d5d6d7d8);
    assert_eq!(found(&key, Some(single(1, 7))).unwrap(), single(1, 7));
    assert_eq!(
        found(&key, None).unwrap_err().to_string(),
        "no snapshot found for Uuid(a1a2a3a4-b1b2-c1c2-d1d2-d3d4d5d6d7d8)"
    );
    assert_eq!(
        SbatchAttachKey::File("/a \"b\"".into()).show(),
        "File(\"/a \\\"b\\\"\")"
    );
}

#[test]
fn attach_file_rejects_wrong_kind_snapshot() {
    let check = check_kind(br#"{"kind":"tssrun"}"#, SbatchJobSnapshot::kind());
    match judge_file(check, SbatchJobSnapshot::kind()) {
        Err(SbatchAttachError::KindMismatch { expected, got }) => {
            assert_eq!(expected, "sbatch");
            assert_eq!(got, "tssrun");
        }
        other => panic!("expected KindMismatch, got {other:?}"),
    }
}

#[test]
fn attach_file_accepts_its_own_kind_and_none() {
    for bytes in [
        &br#"{"kind":"sbatch","jobid":1}"#[..],
        &br#"{"jobid":1}"#[..],
        &br#"{"kind":3}"#[..],
        &br#"[1]"#[..],
    ] {
        let check = check_kind(bytes, "sbatch");
        assert_eq!(check, KindCheck::Matches);
        assert!(judge_file(check, "sbatch").is_ok());
    }
}

#[test]
fn attach_file_rejects_what_is_no_json() {
    let check = check_kind(b"{", "sbatch");
    assert!(matches!(check, KindCheck::NotJson { .. }));
    assert!(matches!(
        judge_file(check, "sbatch"),
        Err(SbatchAttachError::Io(m)) if m.contains("EOF")
    ));
}

#[test]
fn kinds_are_judged_from_the_member() {
    assert_eq!(judge_kind(Ok(None), "a"), KindCheck::Matches);
    assert_eq!(judge_kind(Ok(Some("a".into())), "a"), KindCheck::Matches);
    assert_eq!(
        judge_kind(Ok(Some("b".into())), "a"),
        KindCheck::Other { got: "b".into() }
    );
    assert_eq!(
        judge_kind(Err("e".into()), "a"),
        KindCheck::NotJson {
            message: "e".into()
        }
    );
    assert_eq!(
        SbatchAttachError::KindMismatch {
            expected: "a".into(),
            got: "b".into()
        }
        .to_string(),
        "snapshot kind mismatch: expected \"a\", got \"b\""
    );
    assert_eq!(SbatchAttachError::Io("e".into()).to_string(), "e");
}

#[test]
fn cancel_invokes_scancel_with_jobid() {
    assert_eq!(cancel_argv("scancel", 12345), words(&["scancel", "12345"]));
    assert!(read_cancel(&cap(0, "")).is_ok());
}

#[test]
fn cancel_uses_scancel_bin_override_when_set() {
    assert_eq!(
        cancel_argv("/tmp/fake-scancel", 99),
        words(&["/tmp/fake-scancel", "99"])
    );
}

#[test]
fn cancel_returns_scancel_error_on_nonzero_exit() {
    match read_cancel(&cap(1, "scancel: error: Invalid job id")) {
        Err(SbatchCancelError::Scancel { exit_code, output }) => {
            assert_eq!(exit_code, 1);
            assert!(output.contains("Invalid job id"));
        }
        other => panic!("expected Scancel error, got {other:?}"),
    }
    assert_eq!(
        read_cancel(&cap(1, "x")).unwrap_err().to_string(),
        "scancel failed (exit=1): x"
    );
    assert_eq!(SbatchCancelError::Other("y".into()).to_string(), "y");
}

#[test]
fn run_rejects_array_spec_before_spawn() {
    let mut cmd = SbatchCmd::new("/w/job.sh");
    assert!(check_run(&cmd).is_ok());
    cmd.array_spec = Some("0-2".parse().unwrap());
    assert_eq!(check_run(&cmd), Err(SbatchRunError::ArrayNotSupported));
}

fn finished(final_state: JobState, exit_code: Option<i32>) -> Option<FinishedInfo> {
    Some(FinishedInfo {
        final_state,
        final_reason: JobReason::NoReason,
        exit_code,
        finished_at: NOW,
    })
}

#[test]
fn run_happy_path_returns_finished_info_with_exit_code_zero() {
    let f = run_result(4242, finished(JobState::Completed, Some(0))).unwrap();
    assert_eq!(f.final_state, JobState::Completed);
    assert_eq!(f.exit_code, Some(0));
}

#[test]
fn run_returns_job_failed_when_sacct_reports_failed_state() {
    let e = run_result(9090, finished(JobState::Failed, Some(2))).unwrap_err();
    assert_eq!(
        e,
        SbatchRunError::JobFailed {
            state: JobState::Failed,
            exit_code: Some(2)
        }
    );
    assert_eq!(e.to_string(), "job ended in state FAILED (exit=2)");
}

#[test]
fn run_returns_missing_finished_without_a_report() {
    let e = run_result(5, None).unwrap_err();
    assert_eq!(e, SbatchRunError::MissingFinished { jobid: 5 });
    assert_eq!(e.to_string(), "sacct did not report how jobid=5 ended");
    assert_eq!(
        run_result(5, finished(JobState::Timeout, None))
            .unwrap_err()
            .to_string(),
        "job ended in state TIMEOUT"
    );
}

#[test]
fn run_errors_have_messages() {
    assert_eq!(
        SbatchRunError::ArrayNotSupported.to_string(),
        "run does not support array submissions"
    );
    assert_eq!(
        SbatchRunError::Wait("w".into()).to_string(),
        "waiting for the job failed: w"
    );
    assert_eq!(
        SbatchRunError::Sacct("s".into()).to_string(),
        "asking sacct failed: s"
    );
    assert_eq!(
        SbatchRunError::Spawn(SbatchSpawnError::Other("o".into())).to_string(),
        "o"
    );
}

#[test]
fn in_memory_save_load_round_trip() {
    let mut store: InMemoryStateStore<SbatchJobSnapshot> = InMemoryStateStore::new();
    assert!(store.is_empty());
    store.save(single(7, 70));
    assert_eq!(store.load(7), Some(&single(7, 70)));
    assert_eq!(store.load(8), None);
}

#[test]
fn in_memory_save_overwrites_same_uuid() {
    let mut store: InMemoryStateStore<SbatchJobSnapshot> = InMemoryStateStore::new();
    store.save(single(7, 70));
    store.save(single(8, 80));
    store.save(single(7, 71));
    assert_eq!(store.load(7).unwrap().jobid, 71);
    assert_eq!(store.load(8).unwrap().jobid, 80);
    assert_eq!(store.len(), 2);
}

#[test]
fn snapshots_are_found_by_jobid() {
    let all = || vec![task(1, 5, 0), single(2, 6), task(3, 5, 1)];
    let uuids: Vec<u128> = find_all_by_jobid(all(), 5).iter().map(|s| s.uuid).collect();
    assert_eq!(uuids, vec![1, 3]);
    assert_eq!(find_by_jobid(all(), 5).unwrap().uuid, 1);
    assert_eq!(find_by_jobid(all(), 6).unwrap().uuid, 2);
    assert_eq!(find_by_jobid(all(), 999), None);
}

#[test]
fn files_are_named_after_the_uuid() {
    assert_eq!(
        file_name(0xa1a2a3a4b1b2c1c2d1d2d3d4d5d6d7d8),
        "a1a2a3a4-b1b2-c1c2-d1d2-d3d4d5d6d7d8.json"
    );
    assert_eq!(file_name(0), "00000000-0000-0000-0000-000000000000.json");
    assert!(is_snapshot_name(&file_name(1)));
    assert!(!is_snapshot_name(".json"));
    assert!(!is_snapshot_name("a.toml"));
    assert!(!is_snapshot_name("json"));
}

#[test]
fn snapshots_name_their_kind() {
    let s = single(7, 70);
    assert_eq!(s.uuid(), 7);
    assert_eq!(s.jobid(), Some(70));
    assert_eq!(SbatchJobSnapshot::kind(), "sbatch");
}
