//! The textual form of `--array`.
use slurm_async_runner::entities::array_spec::{ArrayIndex, SlurmArraySpec};

#[test]
fn parses_single_index() {
    let s: SlurmArraySpec = "5".parse().unwrap();
    assert_eq!(
        s,
        SlurmArraySpec {
            indices: vec![ArrayIndex::Single(5)],
            max_concurrent: None,
        }
    );
    assert_eq!(s.to_string(), "5");
}

#[test]
fn parses_simple_range() {
    let s: SlurmArraySpec = "0-15".parse().unwrap();
    assert_eq!(
        s,
        SlurmArraySpec {
            indices: vec![ArrayIndex::Range { start: 0, end: 15 }],
            max_concurrent: None,
        }
    );
    assert_eq!(s.to_string(), "0-15");
}

#[test]
fn parses_stepped_range() {
    let s: SlurmArraySpec = "0-15:4".parse().unwrap();
    assert_eq!(
        s,
        SlurmArraySpec {
            indices: vec![ArrayIndex::Stepped {
                start: 0,
                end: 15,
                step: 4
            }],
            max_concurrent: None,
        }
    );
    assert_eq!(s.to_string(), "0-15:4");
}

#[test]
fn parses_concurrency_cap() {
    let s: SlurmArraySpec = "0-15%4".parse().unwrap();
    assert_eq!(
        s,
        SlurmArraySpec {
            indices: vec![ArrayIndex::Range { start: 0, end: 15 }],
            max_concurrent: Some(4),
        }
    );
    assert_eq!(s.to_string(), "0-15%4");
}

#[test]
fn parses_mixed_list_with_step_and_cap() {
    let s: SlurmArraySpec = "0,6,16-32:2%3".parse().unwrap();
    assert_eq!(
        s,
        SlurmArraySpec {
            indices: vec![
                ArrayIndex::Single(0),
                ArrayIndex::Single(6),
                ArrayIndex::Stepped {
                    start: 16,
                    end: 32,
                    step: 2
                },
            ],
            max_concurrent: Some(3),
        }
    );
    assert_eq!(s.to_string(), "0,6,16-32:2%3");
}

#[test]
fn kudpc_example_kyoto_doc() {
    // Example from KUDPC docs: -a 1-3
    let s: SlurmArraySpec = "1-3".parse().unwrap();
    assert_eq!(s.to_string(), "1-3");
    // Step example: 1-5:2
    let s: SlurmArraySpec = "1-5:2".parse().unwrap();
    assert_eq!(
        s,
        SlurmArraySpec {
            indices: vec![ArrayIndex::Stepped {
                start: 1,
                end: 5,
                step: 2
            }],
            max_concurrent: None,
        }
    );
}

#[test]
fn array_spec_rejects_empty_string() {
    assert!("".parse::<SlurmArraySpec>().is_err());
}

#[test]
fn rejects_reversed_range() {
    assert!("5-3".parse::<SlurmArraySpec>().is_err());
}

#[test]
fn rejects_zero_step() {
    assert!("0-15:0".parse::<SlurmArraySpec>().is_err());
}

#[test]
fn rejects_zero_concurrency_cap() {
    assert!("0-15%0".parse::<SlurmArraySpec>().is_err());
}

#[test]
fn rejects_step_without_range() {
    assert!("5:2".parse::<SlurmArraySpec>().is_err());
}

#[test]
fn rejects_negative_index() {
    assert!("-5".parse::<SlurmArraySpec>().is_err());
}

#[test]
fn rejects_dangling_range() {
    assert!("0-".parse::<SlurmArraySpec>().is_err());
    assert!("-".parse::<SlurmArraySpec>().is_err());
}

#[test]
fn rejects_only_concurrency() {
    assert!("%4".parse::<SlurmArraySpec>().is_err());
}
