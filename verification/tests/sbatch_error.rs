//! Messages of submission errors.
use slurm_async_runner::sbatch::error::SbatchSpawnError;

#[test]
fn invalid_export_key_carries_offending_string() {
    let e = SbatchSpawnError::InvalidExportKey {
        key: "BAD,KEY".to_string(),
    };
    let msg = e.to_string();
    assert!(
        msg.contains("BAD,KEY"),
        "expected key in message, got: {msg}"
    );
}

#[test]
fn invalid_export_value_carries_offending_strings() {
    let e = SbatchSpawnError::InvalidExportValue {
        key: "FOO".to_string(),
        value: "a=b".to_string(),
    };
    let msg = e.to_string();
    assert!(msg.contains("FOO"), "expected key in message, got: {msg}");
    assert!(msg.contains("a=b"), "expected value in message, got: {msg}");
}
