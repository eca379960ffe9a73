//! Values built from their parts, and what does not fit elsewhere.
use slurm_async_runner::entities::array_spec::ArrayIndex;
use slurm_async_runner::entities::mail::{MailType, MailTypeInput};
use slurm_async_runner::entities::parts::{BuildError, Part};
use slurm_async_runner::entities::reason::JobReason;
use slurm_async_runner::entities::resource_spec::{
    Memory, MemoryUnit, ResourceSpec, ResourceSpecCPU, ResourceSpecGPU,
};
use slurm_async_runner::entities::status::{JobState, JobStatus};
use slurm_async_runner::entities::time_limit::JobTimeLimit;
use slurm_async_runner::ident::Timestamp;
use slurm_async_runner::manager::SlurmCmd;
use slurm_async_runner::path::{absolutize, PathError, PathFault};
use slurm_async_runner::sbatch::cmd::SbatchCmd;
use slurm_async_runner::sbatch::error::SbatchSpawnError;
use slurm_async_runner::sbatch::handle::SbatchJobSnapshot;
use slurm_async_runner::sbatch::manager::new_snapshot;
use slurm_async_runner::sbatch::parse::resolve_log_path;
use slurm_async_runner::store::{find_by_jobid, InMemoryStateStore};

fn giga(n: u32) -> Memory {
    Memory::from_value(n, MemoryUnit::Giga).unwrap()
}

#[test]
fn memory_from_value() {
    assert_eq!(giga(2).to_string(), "2G");
    let e = Memory::from_value(0, MemoryUnit::Kilo).unwrap_err();
    assert_eq!(e, BuildError::NotPositive(Part::MemoryValue));
    assert_eq!(e.to_string(), "memory value must be > 0");
}

#[test]
fn time_limit_from_seconds_must_be_positive() {
    assert_eq!(
        JobTimeLimit::try_from_seconds(3661).unwrap().to_string(),
        "01:01:01"
    );
    assert_eq!(
        JobTimeLimit::try_from_seconds(0).unwrap_err().to_string(),
        "seconds must be > 0"
    );
}

#[test]
fn complete_cpu_requests() {
    let cpu = ResourceSpecCPU::new(4, 8, 8, giga(8)).unwrap();
    assert_eq!(ResourceSpec::CPU(cpu).to_string(), "p=4:t=8:c=8:m=8G");
    for (p, t, c, message) in [
        (0, 0, 0, "p must be > 0"),
        (1, 0, 0, "t must be > 0"),
        (1, 1, 0, "c must be > 0"),
    ] {
        let e = ResourceSpecCPU::new(p, t, c, giga(1)).unwrap_err();
        assert_eq!(e.to_string(), message);
    }
}

#[test]
fn gpu_requests() {
    let gpu = ResourceSpecGPU::new(3).unwrap();
    assert_eq!(ResourceSpec::GPU(gpu).to_string(), "g=3");
    assert_eq!(
        ResourceSpecGPU::new(0).unwrap_err().to_string(),
        "g must be > 0"
    );
}

#[test]
fn requests_from_keys() {
    let r = ResourceSpec::from_keys(Some(60), Some(1), None, Some(giga(2)), None).unwrap();
    assert_eq!(r.to_string(), "p=60:t=1:m=2G");
    assert_eq!(r.to_string().parse::<ResourceSpec>().unwrap(), r);
    assert_eq!(r.kind(), "cpu");
    assert!(r.cpu_spec().is_some());
    assert!(r.gpu_spec().is_none());
    let g = ResourceSpec::from_keys(None, None, None, None, Some(2)).unwrap();
    assert_eq!(g.to_string(), "g=2");
    assert_eq!(g.kind(), "gpu");
    assert!(g.cpu_spec().is_none());
    assert_eq!(g.gpu_spec().unwrap().g.get(), 2);
    let nothing = ResourceSpec::from_keys(None, None, None, None, None).unwrap();
    assert_eq!(nothing, ResourceSpec::CPU(ResourceSpecCPU::default()));
    assert_eq!(nothing.to_string(), "");
}

#[test]
fn requests_from_bad_keys() {
    let zero = Some(0);
    let one = Some(1);
    for (p, t, c, g, message) in [
        (zero, zero, zero, zero, "ResourceSpec/processes must be > 0"),
        (one, zero, zero, zero, "ResourceSpec/threads must be > 0"),
        (one, one, zero, zero, "ResourceSpec/cores must be > 0"),
        (one, one, one, zero, "ResourceSpec/gpus must be > 0"),
    ] {
        let e = ResourceSpec::from_keys(p, t, c, None, g).unwrap_err();
        assert_eq!(e.to_string(), message);
    }
    let e = ResourceSpec::from_keys(None, None, None, Some(giga(1)), one).unwrap_err();
    assert_eq!(e, BuildError::MixedResources);
    assert_eq!(
        e.to_string(),
        "CPU keys (processes/threads/cores/memory) and gpus are mutually exclusive — pass one \
         group or the other"
    );
}

#[test]
fn mail_events_from_a_list() {
    let m = MailTypeInput::new(vec![MailType::END, MailType::FAIL]).unwrap();
    assert_eq!(m.to_string(), "END,FAIL");
    assert_eq!(m.types(), &[MailType::END, MailType::FAIL][..]);
    assert_eq!(MailTypeInput::try_from("END,FAIL".to_string()).unwrap(), m);
    let e = MailTypeInput::new(Vec::new()).unwrap_err();
    assert_eq!(e, BuildError::NoMailTypes);
    assert_eq!(
        e.to_string(),
        "MailTypeInput requires at least one MailType"
    );
}

#[test]
fn parts_of_array_entries() {
    let single = ArrayIndex::Single(5);
    let range = ArrayIndex::Range { start: 1, end: 9 };
    let stepped = ArrayIndex::Stepped {
        start: 0,
        end: 15,
        step: 4,
    };
    assert_eq!(single.kind(), "single");
    assert_eq!(range.kind(), "range");
    assert_eq!(stepped.kind(), "stepped");
    assert_eq!(
        (single.value(), single.start(), single.end(), single.step()),
        (Some(5), None, None, None)
    );
    assert_eq!(
        (range.value(), range.start(), range.end(), range.step()),
        (None, Some(1), Some(9), None)
    );
    assert_eq!(
        (
            stepped.value(),
            stepped.start(),
            stepped.end(),
            stepped.step()
        ),
        (None, Some(0), Some(15), Some(4))
    );
}

#[test]
fn statuses_from_texts() {
    let s = JobStatus::parse("PD", "Priority");
    assert_eq!(
        s,
        JobStatus::with_reason(JobState::Pending, JobReason::Priority)
    );
    assert_eq!(s.to_string(), "PENDING (Priority)");
    assert_eq!(JobStatus::parse("R", "").to_string(), "RUNNING (None)");
}

#[test]
fn submissions_from_texts() {
    let cmd = SbatchCmd::new("/w/job.sh")
        .with_texts(Some("45"), Some("g=1"))
        .unwrap();
    assert_eq!(
        cmd.build_argv().unwrap(),
        vec!["sbatch", "-t", "00:45:00", "--rsc", "g=1", "/w/job.sh"]
    );
    let kept = cmd.clone().with_texts(None, None).unwrap();
    assert_eq!(kept.build_argv().unwrap(), cmd.build_argv().unwrap());
    let e = SbatchCmd::new("x").with_texts(Some("abc"), Some("g=0"));
    assert_eq!(
        e.unwrap_err().to_string(),
        "time_limit parse error around 'abc'"
    );
    let e = SbatchCmd::new("x").with_texts(None, Some("g=0"));
    assert_eq!(
        e.unwrap_err().to_string(),
        "resource_spec/g parse error around 'g=0'"
    );
}

#[test]
fn resolve_substitutes_user_env() {
    assert_eq!(
        resolve_log_path("/home/%u/out-%j.log", 999, None, None, "alice", ""),
        "/home/alice/out-999.log"
    );
}

#[test]
fn resolve_substitutes_hostname_env() {
    assert_eq!(
        resolve_log_path("%N-%j.out", 42, None, None, "", "loginnode"),
        "loginnode-42.out"
    );
}

#[test]
fn empty_paths_have_no_absolute_form() {
    let e = absolutize("").unwrap_err();
    assert_eq!(e.fault, PathFault::Unresolved);
    assert_eq!(e.to_string(), "failed to absolutize ");
    assert!(SlurmCmd::default().build_argv("").is_err());
    assert!(matches!(
        SbatchCmd::new("").build_argv(),
        Err(SbatchSpawnError::Other(m)) if m == "failed to absolutize "
    ));
    let mut cmd = SbatchCmd::new("/w/job.sh");
    cmd.chdir = Some(String::new());
    assert!(cmd.build_argv().is_err());
}

#[test]
fn paths_that_are_not_unicode_are_shown_in_full() {
    let e = PathError {
        path: "job.sh".into(),
        fault: PathFault::NotUtf8("\"/w/\\xFF/job.sh\"".into()),
    };
    assert_eq!(e.to_string(), "non-UTF8 batch path: \"/w/\\xFF/job.sh\"");
}

#[test]
fn a_directory_without_an_absolute_form_is_reported_first() {
    let mut cmd = SbatchCmd::new("");
    cmd.chdir = Some(String::new());
    cmd.env.insert("A,B".into(), "1".into());
    assert!(matches!(
        cmd.build_argv(),
        Err(SbatchSpawnError::Other(m)) if m == "failed to absolutize "
    ));
    cmd.chdir = Some("/w".into());
    assert!(matches!(
        cmd.build_argv(),
        Err(SbatchSpawnError::InvalidExportKey { key }) if key == "A,B"
    ));
}

#[test]
fn relative_paths_become_absolute() {
    let p = absolutize("job.sh").unwrap();
    assert!(p.ends_with("/job.sh"));
    assert!(p.starts_with('/'));
}

fn stored(uuid: u128, jobid: u64) -> SbatchJobSnapshot {
    let now = Timestamp { secs: 0, nanos: 0 };
    new_snapshot(&SbatchCmd::new("x"), &[], jobid, None, uuid, "/x", now)
}

#[test]
fn in_memory_list_returns_all() {
    let mut store: InMemoryStateStore<SbatchJobSnapshot> = InMemoryStateStore::new();
    store.save(stored(1, 10));
    store.save(stored(2, 20));
    let mut jobs: Vec<u64> = store.list().iter().map(|s| s.jobid).collect();
    jobs.sort();
    assert_eq!(jobs, vec![10, 20]);
}

#[test]
fn in_memory_find_by_jobid_uses_default_impl() {
    let mut store: InMemoryStateStore<SbatchJobSnapshot> = InMemoryStateStore::new();
    store.save(stored(1, 100));
    let all = || -> Vec<SbatchJobSnapshot> { store.list().into_iter().cloned().collect() };
    assert_eq!(find_by_jobid(all(), 100), Some(stored(1, 100)));
    assert_eq!(find_by_jobid(all(), 999), None);
}
