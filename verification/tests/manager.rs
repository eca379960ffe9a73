//! Dispatching batch scripts.
use slurm_async_runner::manager::{SlurmCmd, SlurmManager};

#[test]
fn slurm_cmd_default_is_srun() {
    assert_eq!(SlurmCmd::default().srun_cmd, "srun");
}

#[test]
fn slurm_cmd_new_overrides_launcher() {
    assert_eq!(SlurmCmd::new("bash").srun_cmd, "bash");
}

#[test]
fn build_argv_uses_absolute_path() {
    let c = SlurmCmd::default();
    let argv = c.build_argv("/tmp/example.sh").unwrap();
    assert_eq!(
        argv,
        vec!["srun".to_string(), "/tmp/example.sh".to_string()]
    );
}

#[test]
fn build_argv_relative_path_becomes_absolute() {
    let c = SlurmCmd::default();
    let argv = c.build_argv("foo.sh").unwrap();
    assert_eq!(argv[0], "srun");
    assert_eq!(argv[1], std::path::absolute("foo.sh").unwrap().display().to_string());
}

#[test]
fn manager_default_uses_srun() {
    assert_eq!(SlurmManager::default().slurm_cmd.srun_cmd, "srun");
}

#[test]
fn manager_new_with_explicit_cmd() {
    let m = SlurmManager::new(Some(SlurmCmd::new("bash")));
    assert_eq!(m.slurm_cmd.srun_cmd, "bash");
}

#[test]
fn manager_build_argv_delegates() {
    let m = SlurmManager::default();
    let argv = m.build_argv("/tmp/x.sh").unwrap();
    assert_eq!(argv, vec!["srun".to_string(), "/tmp/x.sh".to_string()]);
}
