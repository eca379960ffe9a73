//! The textual form of `--time`.
use slurm_async_runner::entities::time_limit::{JobTimeLimit, TimeSpan};
use slurm_async_runner::positive::PositiveU32;

fn nz(n: u32) -> PositiveU32 {
    PositiveU32::new(n).unwrap()
}

fn from_secs(n: u32) -> JobTimeLimit {
    JobTimeLimit::from_seconds(nz(n))
}

fn seconds(secs: i64) -> TimeSpan {
    TimeSpan { secs, nanos: 0 }
}

#[test]
fn parses_kudpc_one_hour() {
    let t: JobTimeLimit = "01:00:00".parse().unwrap();
    assert_eq!(t, from_secs(3600));
    assert_eq!(t.to_string(), "01:00:00");
}

#[test]
fn parses_h_m_s_form() {
    let t: JobTimeLimit = "12:34:56".parse().unwrap();
    assert_eq!(t.total_seconds(), 12 * 3600 + 34 * 60 + 56);
    assert_eq!(t.to_string(), "12:34:56");
}

#[test]
fn parses_minutes_only() {
    // Slurm: bare integer = minutes
    let t: JobTimeLimit = "30".parse().unwrap();
    assert_eq!(t.total_seconds(), 30 * 60);
    assert_eq!(t.to_string(), "00:30:00");
}

#[test]
fn parses_minutes_seconds_form() {
    // Slurm: 2-part = minutes:seconds (NOT hours:minutes)
    let t: JobTimeLimit = "5:30".parse().unwrap();
    assert_eq!(t.total_seconds(), 5 * 60 + 30);
    assert_eq!(t.to_string(), "00:05:30");
}

#[test]
fn parses_days_hours_form() {
    let t: JobTimeLimit = "1-0".parse().unwrap();
    assert_eq!(t.total_seconds(), 24 * 3600);
    assert_eq!(t.to_string(), "24:00:00");
}

#[test]
fn parses_days_hours_minutes_form() {
    let t: JobTimeLimit = "2-3:30".parse().unwrap();
    assert_eq!(t.total_seconds(), 2 * 86_400 + 3 * 3600 + 30 * 60);
    assert_eq!(t.to_string(), "51:30:00");
}

#[test]
fn parses_days_hours_minutes_seconds_form() {
    let t: JobTimeLimit = "3-12:00:00".parse().unwrap();
    assert_eq!(t.total_seconds(), 3 * 86_400 + 12 * 3600);
    assert_eq!(t.to_string(), "84:00:00");
}

#[test]
fn display_emits_canonical_hms_for_24h_plus() {
    let t = from_secs(25 * 3600);
    assert_eq!(t.to_string(), "25:00:00");
    let again: JobTimeLimit = t.to_string().parse().unwrap();
    assert_eq!(again, t);
}

#[test]
fn accepts_minute_overflow_field() {
    // `00:90:00` -> 90 minutes -> 1h30m. Slurm accepts this leniently;
    // we follow suit.
    let t: JobTimeLimit = "00:90:00".parse().unwrap();
    assert_eq!(t.total_seconds(), 90 * 60);
    assert_eq!(t.to_string(), "01:30:00");
}

#[test]
fn component_accessors_match_canonical_form() {
    let t = from_secs(12 * 3600 + 34 * 60 + 56);
    assert_eq!(t.hours(), 12);
    assert_eq!(t.minutes(), 34);
    assert_eq!(t.seconds_part(), 56);
}

#[test]
fn time_limit_rejects_empty_string() {
    assert!("".parse::<JobTimeLimit>().is_err());
}

#[test]
fn rejects_zero_minutes() {
    // `0` would parse as 0 minutes -> unlimited per Slurm. We require
    // callers to omit the field instead.
    assert!("0".parse::<JobTimeLimit>().is_err());
}

#[test]
fn rejects_all_zero_hms() {
    assert!("00:00:00".parse::<JobTimeLimit>().is_err());
}

#[test]
fn rejects_all_zero_days_form() {
    assert!("0-0".parse::<JobTimeLimit>().is_err());
    assert!("0-0:0:0".parse::<JobTimeLimit>().is_err());
}

#[test]
fn rejects_too_many_colon_parts() {
    assert!("1:2:3:4".parse::<JobTimeLimit>().is_err());
}

#[test]
fn rejects_dangling_dash() {
    assert!("-".parse::<JobTimeLimit>().is_err());
    assert!("5-".parse::<JobTimeLimit>().is_err());
    assert!("-5".parse::<JobTimeLimit>().is_err());
}

#[test]
fn rejects_dangling_colon() {
    assert!(":".parse::<JobTimeLimit>().is_err());
    assert!("1:".parse::<JobTimeLimit>().is_err());
    assert!(":1".parse::<JobTimeLimit>().is_err());
}

#[test]
fn rejects_non_numeric_components() {
    assert!("a".parse::<JobTimeLimit>().is_err());
    assert!("1:b".parse::<JobTimeLimit>().is_err());
    assert!("1-2:c".parse::<JobTimeLimit>().is_err());
}

#[test]
fn rejects_negative_components() {
    // Negative numbers are not parseable as u32.
    assert!("-1:00:00".parse::<JobTimeLimit>().is_err());
    assert!("1:-1:0".parse::<JobTimeLimit>().is_err());
}

#[test]
fn rejects_two_dashes() {
    // Per Slurm grammar a dash is only legal once.
    assert!("1-2-3".parse::<JobTimeLimit>().is_err());
}

#[test]
fn try_from_timedelta_accepts_positive() {
    let td = seconds(2 * 3600 + 30 * 60);
    let t = JobTimeLimit::try_from_span(td).unwrap();
    assert_eq!(t.total_seconds(), 2 * 3600 + 30 * 60);
}

#[test]
fn try_from_timedelta_rejects_zero() {
    assert!(JobTimeLimit::try_from_span(seconds(0)).is_err());
}

#[test]
fn try_from_timedelta_rejects_negative() {
    assert!(JobTimeLimit::try_from_span(seconds(-1)).is_err());
}

#[test]
fn into_timedelta_round_trips() {
    let original = from_secs(12 * 3600 + 34 * 60 + 56);
    let td = original.to_span();
    let back = JobTimeLimit::try_from_span(td).unwrap();
    assert_eq!(back, original);
}

#[test]
fn spans_that_are_no_limit_are_named() {
    let message = |secs: i64, nanos: u32| {
        JobTimeLimit::try_from_span(TimeSpan { secs, nanos })
            .unwrap_err()
            .to_string()
    };
    assert_eq!(message(0, 0), "time_limit parse error around 'P0D'");
    assert_eq!(message(-5, 0), "time_limit parse error around '-PT5S'");
    assert_eq!(
        message(4_294_967_296, 0),
        "time_limit parse error around 'PT4294967296S'"
    );
    assert_eq!(message(0, 250_000_000), "time_limit parse error around 'PT0.25S'");
    assert_eq!(message(0, 1), "time_limit parse error around 'PT0.000000001S'");
    assert_eq!(
        message(-1, 500_000_000),
        "time_limit parse error around '-PT0.5S'"
    );
    assert_eq!(
        message(-3, 749_999_000),
        "time_limit parse error around '-PT2.250001S'"
    );
    assert_eq!(
        message(5_000_000_000, 120_000_000),
        "time_limit parse error around 'PT5000000000.12S'"
    );
    let fraction = TimeSpan {
        secs: 90,
        nanos: 999_999_999,
    };
    assert_eq!(
        JobTimeLimit::try_from_span(fraction).unwrap().total_seconds(),
        90
    );
}
