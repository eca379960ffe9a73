//! The textual form of `--signal`.
use slurm_async_runner::entities::signal::{SignalIdent, SlurmSignalSpec};

#[test]
fn parses_signal_name_only() {
    let s: SlurmSignalSpec = "USR1".parse().unwrap();
    assert!(!s.allow_resignal);
    assert_eq!(s.signal, SignalIdent::Name("USR1".to_string()));
    assert_eq!(s.seconds_before_end, None);
    assert_eq!(s.to_string(), "USR1");
}

#[test]
fn parses_signal_number_only() {
    let s: SlurmSignalSpec = "15".parse().unwrap();
    assert_eq!(s.signal, SignalIdent::Number(15));
    assert_eq!(s.to_string(), "15");
}

#[test]
fn parses_signal_with_at_seconds() {
    let s: SlurmSignalSpec = "USR1@60".parse().unwrap();
    assert_eq!(s.signal, SignalIdent::Name("USR1".to_string()));
    assert_eq!(s.seconds_before_end, Some(60));
    assert_eq!(s.to_string(), "USR1@60");
}

#[test]
fn parses_signal_with_r_prefix() {
    let s: SlurmSignalSpec = "R:USR1".parse().unwrap();
    assert!(s.allow_resignal);
    assert_eq!(s.signal, SignalIdent::Name("USR1".to_string()));
    assert_eq!(s.to_string(), "R:USR1");
}

#[test]
fn parses_full_form() {
    let s: SlurmSignalSpec = "R:SIGTERM@30".parse().unwrap();
    assert!(s.allow_resignal);
    assert_eq!(s.signal, SignalIdent::Name("SIGTERM".to_string()));
    assert_eq!(s.seconds_before_end, Some(30));
    assert_eq!(s.to_string(), "R:SIGTERM@30");
}

#[test]
fn parses_full_form_with_number() {
    let s: SlurmSignalSpec = "R:9@5".parse().unwrap();
    assert!(s.allow_resignal);
    assert_eq!(s.signal, SignalIdent::Number(9));
    assert_eq!(s.seconds_before_end, Some(5));
    assert_eq!(s.to_string(), "R:9@5");
}

#[test]
fn signal_rejects_empty_string() {
    assert!("".parse::<SlurmSignalSpec>().is_err());
}

#[test]
fn rejects_lowercase_r_prefix() {
    assert!("r:USR1".parse::<SlurmSignalSpec>().is_err());
}

#[test]
fn rejects_signal_number_zero() {
    assert!("0".parse::<SlurmSignalSpec>().is_err());
}

#[test]
fn rejects_signal_number_above_64() {
    assert!("65".parse::<SlurmSignalSpec>().is_err());
}

#[test]
fn rejects_seconds_zero() {
    assert!("USR1@0".parse::<SlurmSignalSpec>().is_err());
}

#[test]
fn rejects_seconds_overflow() {
    assert!("USR1@70000".parse::<SlurmSignalSpec>().is_err());
}

#[test]
fn rejects_empty_signal_with_r_prefix() {
    assert!("R:".parse::<SlurmSignalSpec>().is_err());
}

#[test]
fn rejects_empty_signal_with_seconds() {
    assert!("@60".parse::<SlurmSignalSpec>().is_err());
}

#[test]
fn rejects_signal_name_with_comma() {
    assert!("USR1,FOO".parse::<SlurmSignalSpec>().is_err());
}

#[test]
fn rejects_signal_name_with_lowercase() {
    // Spec: SignalIdent::Name MUST match ^[A-Z][A-Z0-9_]*$
    assert!("usr1".parse::<SlurmSignalSpec>().is_err());
}

#[test]
fn rejects_signal_name_starting_with_digit() {
    // "9SIG" — first char is digit but doesn't parse as full number
    assert!("9SIG".parse::<SlurmSignalSpec>().is_err());
}
