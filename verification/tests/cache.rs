//! Sharing listings between askers.
use slurm_async_runner::dispatcher::CaptureOutput;
use slurm_async_runner::runner::query::{squeue_only_argv, task_outcome_argv, task_state_argv};
use slurm_async_runner::sbatch::query_cache::{CacheStep, Fetched, QueryCache};
use slurm_async_runner::sbatch::query_shape::QueryShape;

const SECOND: u64 = 1_000_000_000;

fn words(ws: &[&str]) -> Vec<String> {
    ws.iter().map(|w| w.to_string()).collect()
}

fn summary_argv(csv: &str) -> Vec<String> {
    words(&["squeue", "-h", "-j", csv, "-o", "%i %T %r"])
}

fn exit_code_argv(csv: &str) -> Vec<String> {
    words(&[
        "sacct",
        "-P",
        "-n",
        "-j",
        csv,
        "-o",
        "JobID,State,Reason,ExitCode",
    ])
}

/// A cache in front of commands that list every id they are asked for, or fail.
struct Cached {
    cache: QueryCache,
    fail: bool,
    ran: Vec<Vec<String>>,
}

impl Cached {
    fn new(shape: QueryShape, ttl: u64) -> Cached {
        Cached {
            cache: QueryCache::new(shape, ttl),
            fail: false,
            ran: Vec::new(),
        }
    }

    fn run(&mut self, argv: Vec<String>) -> Fetched {
        let rows = |csv: &str, row: &dyn Fn(&str) -> String| csv.split(',').map(row).collect();
        let stdout: String = if argv.len() == 6 && argv[0] == "squeue" {
            rows(&argv[3], &|id| format!("{id} RUNNING None\n"))
        } else if argv.len() == 7 && argv[0] == "sacct" {
            rows(&argv[4], &|id| {
                format!("{id}|COMPLETED|None|0:0\n{id}.batch|COMPLETED||0:0\n{id}.extern|COMPLETED||0:0\n")
            })
        } else if argv[0] == "qgroup" {
            format!("queue user 101 RUN 1 ({})\n", argv.join(" "))
        } else {
            String::new()
        };
        self.ran.push(argv);
        if self.fail {
            return Err("No such file or directory (os error 2)".to_string());
        }
        Ok(CaptureOutput {
            exit_code: 0,
            stdout,
            stderr: String::new(),
        })
    }

    fn capture(&mut self, argv: &[String], now: u64) -> Fetched {
        let shape = self.cache.shape();
        let Some(requested) = shape.parse(argv) else {
            return self.run(argv.to_vec());
        };
        match self.cache.request(&requested, now) {
            CacheStep::Replay(f) => f,
            CacheStep::Fetch { batch } => {
                let fetched = self.run(shape.build(&batch));
                self.cache.store(batch, now, fetched.clone());
                fetched
            }
        }
    }
}

#[test]
fn second_query_for_same_id_within_ttl_is_replayed() {
    let mut d = Cached::new(QueryShape::SqueueSummary, 60 * SECOND);
    let first = d.capture(&summary_argv("100"), 0);
    let second = d.capture(&summary_argv("100"), 59 * SECOND);
    assert_eq!(d.ran.len(), 1);
    assert_eq!(first, second);
}

#[test]
fn unseen_id_forces_live_rebatch_with_union_of_recent_ids() {
    let mut d = Cached::new(QueryShape::SqueueSummary, 60 * SECOND);
    d.capture(&summary_argv("100"), 0).unwrap();
    let out = d.capture(&summary_argv("200"), 1).unwrap();
    assert_eq!(d.ran.len(), 2, "an unseen id must force a live query");
    assert_eq!(d.ran[1], summary_argv("100,200"));
    assert!(out.stdout.contains("200 RUNNING"));
    d.capture(&summary_argv("100"), 2).unwrap();
    d.capture(&summary_argv("200"), 3).unwrap();
    assert_eq!(d.ran.len(), 2);
}

#[test]
fn multi_id_subset_of_cached_batch_is_replayed() {
    let mut d = Cached::new(QueryShape::SqueueSummary, 60 * SECOND);
    d.capture(&summary_argv("100,200"), 0).unwrap();
    d.capture(&summary_argv("200"), 0).unwrap();
    d.capture(&summary_argv("100,200"), 0).unwrap();
    assert_eq!(d.ran.len(), 1);
}

#[test]
fn subset_replays_and_superset_goes_live_rebatched() {
    let mut d = Cached::new(QueryShape::SqueueTasks, 60 * SECOND);
    d.capture(&squeue_only_argv(&[1, 2]).unwrap(), 0).unwrap();
    d.capture(&squeue_only_argv(&[2]).unwrap(), 0).unwrap();
    assert_eq!(d.ran.len(), 1);
    d.capture(&squeue_only_argv(&[3]).unwrap(), 0).unwrap();
    assert_eq!(d.ran.len(), 2, "an unseen key must go live");
    assert_eq!(d.ran[1], squeue_only_argv(&[1, 2, 3]).unwrap());
}

#[test]
fn non_summary_argv_bypasses_cache_entirely() {
    let mut d = Cached::new(QueryShape::SqueueSummary, 60 * SECOND);
    let array = words(&["squeue", "-h", "-j", "123_4", "-o", "%T %r"]);
    d.capture(&array, 0).unwrap();
    d.capture(&array, 0).unwrap();
    assert_eq!(d.ran, vec![array.clone(), array]);
    let sacct = words(&["sacct", "-P", "-n", "-j", "100", "-o", "JobID,State,Reason"]);
    d.capture(&sacct, 0).unwrap();
    d.capture(&sacct, 0).unwrap();
    assert_eq!(d.ran.len(), 4);
}

#[test]
fn ttl_zero_disables_caching_and_batches_only_the_requested_ids() {
    let mut d = Cached::new(QueryShape::SqueueSummary, 0);
    d.capture(&summary_argv("100"), 0).unwrap();
    d.capture(&summary_argv("100"), 0).unwrap();
    d.capture(&summary_argv("200"), 0).unwrap();
    assert_eq!(
        d.ran,
        vec![
            summary_argv("100"),
            summary_argv("100"),
            summary_argv("200")
        ]
    );
}

#[test]
fn squeue_cache_spawn_failure_is_cached_and_replayed_as_error() {
    let mut d = Cached::new(QueryShape::SqueueSummary, 60 * SECOND);
    d.fail = true;
    let first = d.capture(&summary_argv("100"), 0).unwrap_err();
    let second = d.capture(&summary_argv("100"), 0).unwrap_err();
    assert_eq!(d.ran.len(), 1);
    assert_eq!(first, "No such file or directory (os error 2)");
    assert_eq!(
        second,
        "No such file or directory (os error 2) (replayed from squeue batch cache)"
    );
}

#[test]
fn expired_entry_misses_and_registry_ages_out_after_two_ttls() {
    let mut d = Cached::new(QueryShape::SqueueSummary, 60 * SECOND);
    d.capture(&summary_argv("1"), 0).unwrap();
    d.capture(&summary_argv("2"), 61 * SECOND).unwrap();
    assert_eq!(d.ran[1], summary_argv("1,2"));
    d.capture(&summary_argv("2"), 182 * SECOND).unwrap();
    assert_eq!(d.ran[2], summary_argv("2"));
}

#[test]
fn ids_not_requested_for_two_ttls_age_out_of_the_batch() {
    let mut d = Cached::new(QueryShape::SqueueSummary, 60 * SECOND);
    d.capture(&summary_argv("100"), 0).unwrap();
    d.capture(&summary_argv("200"), 61 * SECOND).unwrap();
    assert_eq!(d.ran[1], summary_argv("100,200"));
    d.capture(&summary_argv("200"), 182 * SECOND).unwrap();
    assert_eq!(d.ran[2], summary_argv("200"));
}

#[test]
fn finishing_burst_coalesces_to_one_sacct_spawn() {
    let mut d = Cached::new(QueryShape::SacctExitCode, 60 * SECOND);
    d.capture(&exit_code_argv("100"), 0).unwrap();
    let out = d.capture(&exit_code_argv("200"), 0).unwrap();
    assert_eq!(d.ran.len(), 2);
    assert_eq!(d.ran[1], exit_code_argv("100,200"));
    assert!(out.stdout.contains("200|COMPLETED"));
    d.capture(&exit_code_argv("100"), 0).unwrap();
    d.capture(&exit_code_argv("200"), 0).unwrap();
    d.capture(&exit_code_argv("100,200"), 0).unwrap();
    assert_eq!(d.ran.len(), 2);
}

#[test]
fn retry_within_ttl_is_replayed_not_respawned() {
    let mut d = Cached::new(QueryShape::SacctExitCode, 60 * SECOND);
    let first = d.capture(&exit_code_argv("100"), 0).unwrap();
    let second = d.capture(&exit_code_argv("100"), 0).unwrap();
    assert_eq!(d.ran.len(), 1, "a lag retry within TTL must not hit sacct");
    assert_eq!(first, second);
}

#[test]
fn array_task_and_legacy_column_queries_bypass_the_cache() {
    let mut d = Cached::new(QueryShape::SacctExitCode, 60 * SECOND);
    let array = exit_code_argv("123_4");
    d.capture(&array, 0).unwrap();
    d.capture(&array, 0).unwrap();
    assert_eq!(d.ran, vec![array.clone(), array]);
    let legacy = words(&["sacct", "-P", "-n", "-j", "100", "-o", "JobID,State,Reason"]);
    d.capture(&legacy, 0).unwrap();
    d.capture(&legacy, 0).unwrap();
    assert_eq!(d.ran.len(), 4);
}

#[test]
fn sacct_cache_ttl_zero_disables_caching_and_batching() {
    let mut d = Cached::new(QueryShape::SacctExitCode, 0);
    d.capture(&exit_code_argv("100"), 0).unwrap();
    d.capture(&exit_code_argv("100"), 0).unwrap();
    d.capture(&exit_code_argv("200"), 0).unwrap();
    assert_eq!(d.ran.len(), 3, "TTL zero must disable caching");
    assert_eq!(d.ran[2], exit_code_argv("200"));
}

#[test]
fn cached_listing_never_replays_to_an_unqueried_id() {
    let mut d = Cached::new(QueryShape::SacctExitCode, 60 * SECOND);
    d.capture(&exit_code_argv("100"), 0).unwrap();
    let out = d.capture(&exit_code_argv("300"), 0).unwrap();
    assert_eq!(d.ran.len(), 2);
    assert_eq!(d.ran[1], exit_code_argv("100,300"));
    assert!(out.stdout.contains("300|COMPLETED"));
}

#[test]
fn second_qgroup_capture_within_ttl_is_served_from_cache() {
    let argv = words(&["qgroup", "-l"]);
    let mut d = Cached::new(QueryShape::QgroupListing, 60 * SECOND);
    let first = d.capture(&argv, 0).unwrap();
    let second = d.capture(&argv, 0).unwrap();
    assert_eq!(d.ran.len(), 1);
    assert_eq!(first, second);
}

#[test]
fn non_qgroup_argv_bypasses_cache_entirely() {
    let squeue = words(&["squeue", "-h", "-j", "1"]);
    let mut d = Cached::new(QueryShape::QgroupListing, 60 * SECOND);
    d.capture(&squeue, 0).unwrap();
    d.capture(&squeue, 0).unwrap();
    assert_eq!(d.ran.len(), 2);
}

#[test]
fn expired_ttl_refetches_from_inner() {
    let argv = words(&["qgroup", "-l"]);
    let mut d = Cached::new(QueryShape::QgroupListing, 0);
    d.capture(&argv, 0).unwrap();
    d.capture(&argv, 0).unwrap();
    assert_eq!(d.ran.len(), 2);
}

#[test]
fn qgroup_cache_spawn_failure_is_cached_and_replayed_as_error() {
    let argv = words(&["qgroup", "-l"]);
    let mut d = Cached::new(QueryShape::QgroupListing, 60 * SECOND);
    d.fail = true;
    let first = d.capture(&argv, 0).unwrap_err();
    let second = d.capture(&argv, 0).unwrap_err();
    assert_eq!(d.ran.len(), 1);
    assert!(first.contains("No such file or directory"));
    assert!(second.contains("No such file or directory"));
}

#[test]
fn an_entry_as_old_as_the_ttl_has_expired() {
    let mut d = Cached::new(QueryShape::SqueueSummary, 60 * SECOND);
    d.capture(&summary_argv("1"), 5).unwrap();
    d.capture(&summary_argv("1"), 60 * SECOND + 4).unwrap();
    assert_eq!(d.ran.len(), 1);
    d.capture(&summary_argv("1"), 60 * SECOND + 5).unwrap();
    assert_eq!(d.ran.len(), 2);
}

#[test]
fn a_long_ttl_does_not_overflow_the_window() {
    let mut d = Cached::new(QueryShape::SqueueSummary, u64::MAX);
    d.capture(&summary_argv("1"), 0).unwrap();
    d.capture(&summary_argv("2"), u64::MAX - 1).unwrap();
    assert_eq!(d.ran[1], summary_argv("1,2"));
}

#[test]
fn cached_vanish_for_one_id_never_replays_to_another() {
    let mut cache = QueryCache::new(QueryShape::SqueueSummary, 60 * SECOND);
    let vanish = CaptureOutput {
        exit_code: 1,
        stdout: String::new(),
        stderr: "slurm_load_jobs error: Invalid job id specified\n".into(),
    };
    let running = CaptureOutput {
        exit_code: 0,
        stdout: "200 RUNNING None\n".into(),
        stderr: String::new(),
    };
    match cache.request(&[100], 0) {
        CacheStep::Replay(_) => panic!("nothing is cached yet"),
        CacheStep::Fetch { batch } => cache.store(batch, 0, Ok(vanish.clone())),
    }
    match cache.request(&[100], 1) {
        CacheStep::Replay(f) => assert_eq!(f, Ok(vanish)),
        CacheStep::Fetch { .. } => panic!("the asker of the batch is served"),
    }
    match cache.request(&[200], 1) {
        CacheStep::Replay(_) => panic!("200 was never asked about"),
        CacheStep::Fetch { batch } => {
            assert_eq!(QueryShape::SqueueSummary.build(&batch), summary_argv("100,200"));
            cache.store(batch, 1, Ok(running.clone()));
        }
    }
    match cache.request(&[200], 2) {
        CacheStep::Replay(f) => assert_eq!(f, Ok(running)),
        CacheStep::Fetch { .. } => panic!("200 has its own row"),
    }
}

#[test]
fn qgroup_listing_is_shared_by_all() {
    let argv = words(&["qgroup", "-l"]);
    let mut d = Cached::new(QueryShape::QgroupListing, 60 * SECOND);
    d.capture(&argv, 0).unwrap();
    d.capture(&argv, 1).unwrap();
    assert_eq!(d.ran, vec![argv.clone()]);
    let other = words(&["qgroup"]);
    d.capture(&other, 1).unwrap();
    d.capture(&other, 1).unwrap();
    assert_eq!(d.ran.len(), 3);
    d.fail = true;
    d.capture(&argv, 61 * SECOND).unwrap_err();
    let again = d.capture(&argv, 62 * SECOND).unwrap_err();
    assert!(again.ends_with("(replayed from qgroup cache)"));
}

#[test]
fn sacct_exit_code_queries_are_batched() {
    let mut d = Cached::new(QueryShape::SacctExitCode, 60 * SECOND);
    d.capture(&exit_code_argv("7"), 0).unwrap();
    d.capture(&exit_code_argv("5"), 0).unwrap();
    assert_eq!(d.ran[1], exit_code_argv("5,7"));
    d.fail = true;
    d.capture(&exit_code_argv("9"), 0).unwrap_err();
    let again = d.capture(&exit_code_argv("9"), 0).unwrap_err();
    assert!(again.ends_with("(replayed from sacct batch cache)"));
}

#[test]
fn shapes_recognize_their_own_command_lines_only() {
    let shapes = [
        QueryShape::QgroupListing,
        QueryShape::SqueueSummary,
        QueryShape::SqueueTasks,
        QueryShape::SacctExitCode,
    ];
    for a in shapes {
        for b in shapes {
            let parsed = b.parse(&a.build(&[3, 8]));
            if a != b {
                assert_eq!(parsed, None);
            } else if a == QueryShape::QgroupListing {
                assert_eq!(parsed, Some(vec![]));
            } else {
                assert_eq!(parsed, Some(vec![3, 8]));
            }
        }
        assert_eq!(a.parse(&[]), None);
        assert_eq!(a.parse(&task_state_argv(5, 1)), None);
        assert_eq!(a.parse(&task_outcome_argv(5, 1)), None);
    }
    assert_eq!(QueryShape::SqueueSummary.parse(&summary_argv("")), None);
    assert_eq!(QueryShape::SqueueSummary.parse(&summary_argv("1,")), None);
    assert_eq!(QueryShape::SqueueSummary.parse(&summary_argv("1,x")), None);
    let mut long = summary_argv("1");
    long.push("--all".into());
    assert_eq!(QueryShape::SqueueSummary.parse(&long), None);
}
