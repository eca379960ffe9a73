//! The textual form of `--dependency`.
use slurm_async_runner::entities::dependency::{
    DependencyClause, DependencyJobRef, DependencyJoin, DependencyType, SlurmDependency,
};

#[test]
fn parses_kudpc_example_afterok_200() {
    let d: SlurmDependency = "afterok:200".parse().unwrap();
    assert_eq!(
        d,
        SlurmDependency {
            clauses: vec![DependencyClause {
                dep_type: DependencyType::AfterOk,
                job_refs: vec![DependencyJobRef::new(200)],
            }],
            join: DependencyJoin::And,
        }
    );
    assert_eq!(d.to_string(), "afterok:200");
}

#[test]
fn parses_each_kudpc_dependency_type() {
    for kw in ["after", "afterany", "afterok", "afternotok"] {
        let raw = format!("{kw}:42");
        let d: SlurmDependency = raw.parse().unwrap();
        assert_eq!(d.to_string(), raw);
    }
}

#[test]
fn parses_multiple_job_ids_in_one_clause() {
    let d: SlurmDependency = "afterok:200:201:202".parse().unwrap();
    assert_eq!(d.clauses.len(), 1);
    assert_eq!(d.clauses[0].job_refs.len(), 3);
    assert_eq!(d.to_string(), "afterok:200:201:202");
}

#[test]
fn parses_and_joined_clauses() {
    let d: SlurmDependency = "afterok:200,afterany:201".parse().unwrap();
    assert_eq!(d.join, DependencyJoin::And);
    assert_eq!(d.clauses.len(), 2);
    assert_eq!(d.to_string(), "afterok:200,afterany:201");
}

#[test]
fn parses_or_joined_clauses() {
    let d: SlurmDependency = "afterok:200?afterany:201".parse().unwrap();
    assert_eq!(d.join, DependencyJoin::Or);
    assert_eq!(d.clauses.len(), 2);
    assert_eq!(d.to_string(), "afterok:200?afterany:201");
}

#[test]
fn parses_after_with_delay() {
    let d: SlurmDependency = "after:200+5".parse().unwrap();
    assert_eq!(
        d,
        SlurmDependency {
            clauses: vec![DependencyClause {
                dep_type: DependencyType::After,
                job_refs: vec![DependencyJobRef {
                    job_id: 200,
                    delay_minutes: Some(5),
                }],
            }],
            join: DependencyJoin::And,
        }
    );
    assert_eq!(d.to_string(), "after:200+5");
}

#[test]
fn parses_singleton() {
    let d: SlurmDependency = "singleton".parse().unwrap();
    assert_eq!(
        d,
        SlurmDependency {
            clauses: vec![DependencyClause {
                dep_type: DependencyType::Singleton,
                job_refs: vec![],
            }],
            join: DependencyJoin::And,
        }
    );
    assert_eq!(d.to_string(), "singleton");
}

#[test]
fn parses_aftercorr_and_afterburstbuffer() {
    let d: SlurmDependency = "aftercorr:7:8".parse().unwrap();
    assert_eq!(d.clauses[0].dep_type, DependencyType::AfterCorr);
    assert_eq!(d.to_string(), "aftercorr:7:8");

    let d: SlurmDependency = "afterburstbuffer:9".parse().unwrap();
    assert_eq!(d.clauses[0].dep_type, DependencyType::AfterBurstBuffer);
    assert_eq!(d.to_string(), "afterburstbuffer:9");
}

#[test]
fn dependency_rejects_empty_string() {
    assert!("".parse::<SlurmDependency>().is_err());
}

#[test]
fn rejects_unknown_type() {
    assert!("afternever:200".parse::<SlurmDependency>().is_err());
}

#[test]
fn rejects_mixed_and_or_separators() {
    assert!(
        "afterok:200,afterany:201?afterok:202"
            .parse::<SlurmDependency>()
            .is_err()
    );
}

#[test]
fn rejects_clause_with_no_job_id() {
    assert!("afterok".parse::<SlurmDependency>().is_err());
    assert!("afterok:".parse::<SlurmDependency>().is_err());
}

#[test]
fn rejects_singleton_with_job_id() {
    assert!("singleton:200".parse::<SlurmDependency>().is_err());
}

#[test]
fn rejects_delay_on_non_after_type() {
    // `+<minutes>` is only legal for the `after` type per Slurm docs.
    assert!("afterok:200+5".parse::<SlurmDependency>().is_err());
}

#[test]
fn rejects_non_numeric_job_id() {
    assert!("afterok:abc".parse::<SlurmDependency>().is_err());
}

#[test]
fn dependency_rejects_dangling_separator() {
    assert!("afterok:200,".parse::<SlurmDependency>().is_err());
    assert!(",afterok:200".parse::<SlurmDependency>().is_err());
}
