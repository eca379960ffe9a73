//! Command lines of `sbatch`.
use slurm_async_runner::entities::resource_spec::{ResourceSpec, ResourceSpecCPU, ResourceSpecGPU};
use slurm_async_runner::positive::PositiveU32;
use slurm_async_runner::sbatch::cmd::SbatchCmd;
use slurm_async_runner::sbatch::error::SbatchSpawnError;

#[test]
fn minimal_argv_is_bin_then_script() {
    let cmd = SbatchCmd::new("/work/job.sh");
    let argv = cmd.build_argv().unwrap();
    assert_eq!(argv, vec!["sbatch".to_string(), "/work/job.sh".to_string()]);
}

#[test]
fn relative_script_is_absolutized() {
    let cmd = SbatchCmd::new("job.sh");
    let argv = cmd.build_argv().unwrap();
    assert_eq!(argv[0], "sbatch");
    assert_eq!(argv[1], std::path::absolute("job.sh").unwrap().display().to_string());
}

#[test]
fn full_flags_cpu_variant_argv_layout() {
    let mut cmd = SbatchCmd::new("/w/job.sh");
    cmd.job_name = Some("g09run".into());
    cmd.partition = Some("gr19999b".into());
    cmd.time_limit = Some("1:0:0".parse().unwrap());
    cmd.rsc = Some(ResourceSpec::CPU(ResourceSpecCPU {
        p: PositiveU32::new(4),
        t: PositiveU32::new(8),
        c: PositiveU32::new(8),
        m: Some("2G".parse().unwrap()),
    }));
    cmd.output = Some("slurm-%j.out".into());
    cmd.error = Some("slurm-%j.err".into());
    cmd.chdir = Some("/w".to_string());
    cmd.env.insert("OMP_NUM_THREADS".into(), "8".into());
    cmd.env.insert("FOO".into(), "bar".into());
    cmd.args = vec!["--flag".into(), "v".into()];
    let argv = cmd.build_argv().unwrap();
    assert_eq!(
        argv,
        vec![
            "sbatch".to_string(),
            "-J".into(),
            "g09run".into(),
            "-p".into(),
            "gr19999b".into(),
            "-t".into(),
            "01:00:00".into(),
            "--rsc".into(),
            "p=4:t=8:c=8:m=2G".into(),
            "-o".into(),
            "slurm-%j.out".into(),
            "-e".into(),
            "slurm-%j.err".into(),
            "--chdir".into(),
            "/w".into(),
            "--export=ALL,FOO=bar,OMP_NUM_THREADS=8".into(),
            "/w/job.sh".into(),
            "--flag".into(),
            "v".into(),
        ]
    );
}

#[test]
fn empty_env_omits_export_flag() {
    let cmd = SbatchCmd::new("/w/job.sh");
    let argv = cmd.build_argv().unwrap();
    assert!(!argv.iter().any(|a| a.starts_with("--export")));
}

#[test]
fn rsc_empty_cpu_omits_rsc_flag() {
    let mut cmd = SbatchCmd::new("/w/job.sh");
    cmd.rsc = Some(ResourceSpec::CPU(ResourceSpecCPU::default()));
    let argv = cmd.build_argv().unwrap();
    assert!(!argv.iter().any(|a| a == "--rsc"));
}

#[test]
fn gpu_variant_renders_g_flag() {
    let mut cmd = SbatchCmd::new("/w/job.sh");
    cmd.rsc = Some(ResourceSpec::GPU(ResourceSpecGPU {
        g: PositiveU32::new(1).unwrap(),
    }));
    let argv = cmd.build_argv().unwrap();
    assert!(argv.contains(&"--rsc".to_string()));
    assert!(argv.contains(&"g=1".to_string()));
}

#[test]
fn no_requeue_flag_is_emitted_when_true() {
    let mut cmd = SbatchCmd::new("/w/job.sh");
    cmd.no_requeue = true;
    let argv = cmd.build_argv().unwrap();
    assert!(argv.iter().any(|a| a == "--no-requeue"));
}

#[test]
fn no_requeue_flag_is_omitted_when_false() {
    let cmd = SbatchCmd::new("/w/job.sh");
    let argv = cmd.build_argv().unwrap();
    assert!(!argv.iter().any(|a| a == "--no-requeue"));
}

#[test]
fn comment_flag_emits_value() {
    let mut cmd = SbatchCmd::new("/w/job.sh");
    cmd.comment = Some("post-deadline rerun".to_string());
    let argv = cmd.build_argv().unwrap();
    let i = argv
        .iter()
        .position(|a| a == "--comment")
        .expect("--comment present");
    assert_eq!(argv[i + 1], "post-deadline rerun");
}

#[test]
fn comment_omitted_when_none() {
    let cmd = SbatchCmd::new("/w/job.sh");
    let argv = cmd.build_argv().unwrap();
    assert!(!argv.iter().any(|a| a == "--comment"));
}

#[test]
fn dependency_emits_dash_d_with_display_form() {
    let mut cmd = SbatchCmd::new("/w/job.sh");
    cmd.dependency = Some("afterok:200".parse().unwrap());
    let argv = cmd.build_argv().unwrap();
    let i = argv.iter().position(|a| a == "-d").expect("-d present");
    assert_eq!(argv[i + 1], "afterok:200");
}

#[test]
fn dependency_with_and_join_emits_comma_form() {
    let mut cmd = SbatchCmd::new("/w/job.sh");
    cmd.dependency = Some("afterok:200,afterany:201".parse().unwrap());
    let argv = cmd.build_argv().unwrap();
    let i = argv.iter().position(|a| a == "-d").expect("-d present");
    assert_eq!(argv[i + 1], "afterok:200,afterany:201");
}

#[test]
fn dependency_with_or_join_emits_question_form() {
    let mut cmd = SbatchCmd::new("/w/job.sh");
    cmd.dependency = Some("afterok:200?afterany:201".parse().unwrap());
    let argv = cmd.build_argv().unwrap();
    let i = argv.iter().position(|a| a == "-d").expect("-d present");
    assert_eq!(argv[i + 1], "afterok:200?afterany:201");
}

#[test]
fn dependency_omitted_when_none() {
    let cmd = SbatchCmd::new("/w/job.sh");
    let argv = cmd.build_argv().unwrap();
    assert!(!argv.iter().any(|a| a == "-d"));
}

#[test]
fn mail_user_emits_flag_and_value() {
    let mut cmd = SbatchCmd::new("/w/job.sh");
    cmd.mail_user = Some("alice@example.com".to_string());
    let argv = cmd.build_argv().unwrap();
    let i = argv
        .iter()
        .position(|a| a == "--mail-user")
        .expect("--mail-user present");
    assert_eq!(argv[i + 1], "alice@example.com");
}

#[test]
fn mail_user_omitted_when_none() {
    let cmd = SbatchCmd::new("/w/job.sh");
    let argv = cmd.build_argv().unwrap();
    assert!(!argv.iter().any(|a| a == "--mail-user"));
}

#[test]
fn mail_types_emits_comma_separated_list() {
    let mut cmd = SbatchCmd::new("/w/job.sh");
    cmd.mail_types = Some("BEGIN,END".to_string().try_into().unwrap());
    let argv = cmd.build_argv().unwrap();
    let i = argv
        .iter()
        .position(|a| a == "--mail-type")
        .expect("--mail-type present");
    assert_eq!(argv[i + 1], "BEGIN,END");
}

#[test]
fn mail_types_single_value_emits_one_token() {
    let mut cmd = SbatchCmd::new("/w/job.sh");
    cmd.mail_types = Some("FAIL".to_string().try_into().unwrap());
    let argv = cmd.build_argv().unwrap();
    let i = argv
        .iter()
        .position(|a| a == "--mail-type")
        .expect("--mail-type present");
    assert_eq!(argv[i + 1], "FAIL");
}

#[test]
fn mail_types_omitted_when_none() {
    let cmd = SbatchCmd::new("/w/job.sh");
    let argv = cmd.build_argv().unwrap();
    assert!(!argv.iter().any(|a| a == "--mail-type"));
}

#[test]
fn mail_user_and_mail_types_emit_in_stable_order() {
    let mut cmd = SbatchCmd::new("/w/job.sh");
    cmd.mail_user = Some("bob@example.com".to_string());
    cmd.mail_types = Some("ALL".to_string().try_into().unwrap());
    let argv = cmd.build_argv().unwrap();
    let user_idx = argv.iter().position(|a| a == "--mail-user").unwrap();
    let type_idx = argv.iter().position(|a| a == "--mail-type").unwrap();
    assert!(
        user_idx < type_idx,
        "expected --mail-user before --mail-type, got argv={argv:?}"
    );
}

#[test]
fn export_key_with_comma_is_rejected() {
    let mut cmd = SbatchCmd::new("/w/job.sh");
    cmd.env.insert("BAD,KEY".to_string(), "ok".to_string());
    let err = cmd.build_argv().unwrap_err();
    match err {
        slurm_async_runner::sbatch::error::SbatchSpawnError::InvalidExportKey { key } => {
            assert_eq!(key, "BAD,KEY");
        }
        other => panic!("expected InvalidExportKey, got {other:?}"),
    }
}

#[test]
fn export_key_with_equals_is_rejected() {
    let mut cmd = SbatchCmd::new("/w/job.sh");
    cmd.env.insert("BAD=KEY".to_string(), "ok".to_string());
    let err = cmd.build_argv().unwrap_err();
    assert!(
        matches!(
            err,
            slurm_async_runner::sbatch::error::SbatchSpawnError::InvalidExportKey { .. }
        ),
        "expected InvalidExportKey, got {err:?}"
    );
}

#[test]
fn export_value_with_comma_is_rejected() {
    let mut cmd = SbatchCmd::new("/w/job.sh");
    cmd.env.insert("FOO".to_string(), "1,2".to_string());
    let err = cmd.build_argv().unwrap_err();
    match err {
        slurm_async_runner::sbatch::error::SbatchSpawnError::InvalidExportValue { key, value } => {
            assert_eq!(key, "FOO");
            assert_eq!(value, "1,2");
        }
        other => panic!("expected InvalidExportValue, got {other:?}"),
    }
}

#[test]
fn export_value_with_equals_is_rejected() {
    let mut cmd = SbatchCmd::new("/w/job.sh");
    cmd.env.insert("FOO".to_string(), "a=b".to_string());
    let err = cmd.build_argv().unwrap_err();
    assert!(
        matches!(
            err,
            slurm_async_runner::sbatch::error::SbatchSpawnError::InvalidExportValue { .. }
        ),
        "expected InvalidExportValue, got {err:?}"
    );
}

#[test]
fn export_valid_pairs_pass_through_unchanged() {
    let mut cmd = SbatchCmd::new("/w/job.sh");
    cmd.env.insert("FOO".to_string(), "bar".to_string());
    cmd.env
        .insert("OMP_NUM_THREADS".to_string(), "8".to_string());
    let argv = cmd.build_argv().expect("valid pairs accepted");
    assert!(
        argv.iter()
            .any(|a| a == "--export=ALL,FOO=bar,OMP_NUM_THREADS=8"),
        "expected canonical --export form, got argv={argv:?}"
    );
}

#[test]
fn exported_variables_can_be_read_back() {
    let mut c = SbatchCmd::new("/w/job.sh");
    c.env.insert("B".into(), "two words".into());
    c.env.insert("A".into(), String::new());
    c.env.insert("B2".into(), "%j".into());
    let argv = c.build_argv().unwrap();
    let payload = argv[1].strip_prefix("--export=").unwrap();
    let mut parts = payload.split(',');
    assert_eq!(parts.next(), Some("ALL"));
    let read: Vec<(&str, &str)> = parts.map(|p| p.split_once('=').unwrap()).collect();
    assert_eq!(read, vec![("A", ""), ("B", "two words"), ("B2", "%j")]);
}
