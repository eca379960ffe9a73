//! `--time` / `-t` wall-clock limit of a SLURM batch submission.
//!
//! ```text
//!   <minutes>
//!   <minutes>:<seconds>
//!   <hours>:<minutes>:<seconds>
//!   <days>-<hours>
//!   <days>-<hours>:<minutes>
//!   <days>-<hours>:<minutes>:<seconds>
//! ```
//!
//! Two parts are minutes and seconds: `"5:30"` is five and a half minutes. The
//! text form is always `HH:MM:SS`, where the hours may exceed 23.
use crate::error::{parse_error, SchemaFault, SchemaParseError};
use crate::positive::PositiveU32;
use crate::text;
use crate::text::lemmas;
use crate::text::model;
use crate::text::number;
use vstd::prelude::*;

verus! {

/// A positive number of seconds.
#[derive(Debug, Clone, Copy, PartialEq, Eq, Hash)]
pub struct JobTimeLimit {
    seconds: PositiveU32,
}

/// A signed duration: `secs` seconds and, on top of them, `nanos` nanoseconds.
#[derive(Debug, Clone, Copy, PartialEq, Eq, Structural, Hash)]
pub struct TimeSpan {
    pub secs: i64,
    pub nanos: u32,
}

impl TimeSpan {
    /// Within the range of `chrono::TimeDelta`, which is that of 64-bit
    /// milliseconds without the least of them.
    pub open spec fn wf(self) -> bool {
        &&& self.nanos < 1_000_000_000
        &&& -9_223_372_036_854_775_807 * 1_000_000 <= self.secs * 1_000_000_000 + self.nanos
        &&& self.secs * 1_000_000_000 + self.nanos <= 9_223_372_036_854_775_807 * 1_000_000
    }

    /// The whole seconds, rounded towards zero.
    pub open spec fn whole_seconds(self) -> int {
        if self.secs < 0 && self.nanos > 0 {
            self.secs + 1
        } else {
            self.secs as int
        }
    }
}

/// The text without the zeros at its end.
pub open spec fn without_trailing_zeros(s: Seq<char>) -> Seq<char>
    decreases s.len(),
{
    if s.len() > 0 && s.last() == '0' {
        without_trailing_zeros(s.drop_last())
    } else {
        s
    }
}

/// How `chrono` writes a duration: the sign, the whole seconds of its size and, where
/// there is one, the fraction, of nine digits without the zeros at the end.
pub open spec fn time_delta_text(span: TimeSpan) -> Seq<char> {
    let total = span.secs * 1_000_000_000 + span.nanos;
    let size = if total < 0 {
        -total
    } else {
        total
    };
    let sign = if total < 0 {
        "-"@
    } else {
        ""@
    };
    let whole = model::decimal((size / 1_000_000_000) as nat);
    let nanos = size % 1_000_000_000;
    let fraction = if nanos > 0 {
        // The leading one keeps the zeros at the front.
        seq!['.'] + without_trailing_zeros(model::decimal((1_000_000_000 + nanos) as nat).skip(1))
    } else {
        ""@
    };
    if size == 0 {
        "P0D"@
    } else {
        sign + "PT"@ + whole + fraction + "S"@
    }
}

/// `chrono::TimeDelta::num_seconds`: the total number of whole seconds. For a
/// negative duration the fraction is taken back, so that it rounds towards zero.
#[verifier::external_body]
fn num_seconds(span: TimeSpan) -> (r: i64)
    requires
        span.wf(),
    ensures
        r == span.whole_seconds(),
{
    chrono::TimeDelta::new(span.secs, span.nanos).unwrap().num_seconds()
}

/// The `Display` of `chrono::TimeDelta`: the ISO 8601 form of the duration, in seconds,
/// with a sign in front where it is negative.
#[verifier::external_body]
fn time_delta_to_string(span: TimeSpan) -> (r: String)
    requires
        span.wf(),
    ensures
        r@ == time_delta_text(span),
{
    chrono::TimeDelta::new(span.secs, span.nanos).unwrap().to_string()
}

/// One number of the textual form.
pub open spec fn component(s: Seq<char>) -> Option<nat> {
    model::parse_uint(s, u32::MAX as nat)
}

/// The seconds that up to three parts stand for, where each unit of part `i` is
/// worth `units[i]` seconds.
pub open spec fn weighted(parts: Seq<Seq<char>>, units: Seq<nat>) -> Option<nat>
    decreases parts.len(),
{
    if parts.len() == 0 {
        Some(0)
    } else if parts.len() > units.len() {
        None
    } else {
        match (weighted(parts.drop_last(), units), component(parts.last())) {
            (Some(sum), Some(n)) => Some(sum + n * units[parts.len() - 1]),
            _ => None,
        }
    }
}

/// The total of seconds that `s` spells.
pub open spec fn total(s: Seq<char>) -> Option<nat> {
    match model::split_once(s, '-') {
        Some((days, rest)) => match (
            component(days),
            weighted(model::split(rest, ':'), seq![3_600, 60, 1]),
        ) {
            (Some(d), Some(n)) => Some(d * 86_400 + n),
            _ => None,
        },
        None => {
            let parts = model::split(s, ':');
            if parts.len() == 3 {
                weighted(parts, seq![3_600, 60, 1])
            } else {
                weighted(parts, seq![60, 1])
            }
        },
    }
}

/// The limit that `s` spells: positive, and of 32 bits.
pub open spec fn parsed_limit(s: Seq<char>) -> Result<u32, SchemaFault> {
    match total(s) {
        Some(n) => if 0 < n <= u32::MAX {
            Ok(n as u32)
        } else {
            Err(SchemaFault::ParseError { key: "time_limit"@, value: s })
        },
        None => Err(SchemaFault::ParseError { key: "time_limit"@, value: s }),
    }
}

/// `HH:MM:SS`.
pub open spec fn limit_text(seconds: u32) -> Seq<char> {
    model::decimal2((seconds / 3600) as nat) + seq![':'] + model::decimal2(
        ((seconds % 3600) / 60) as nat,
    ) + seq![':'] + model::decimal2((seconds % 60) as nat)
}

impl View for JobTimeLimit {
    type V = u32;

    closed spec fn view(&self) -> u32 {
        self.seconds@
    }
}

/// Reads one number.
pub fn parse_component(raw: &[char], original: &[char]) -> (r: Result<u32, SchemaParseError>)
    ensures
        match r {
            Ok(n) => component(raw@) == Some(n as nat),
            Err(e) => component(raw@) is None && e@ == (SchemaFault::ParseError {
                key: "time_limit"@,
                value: original@,
            }),
        },
{
    match number::parse_u32(raw) {
        Some(n) => Ok(n),
        None => Err(parse_error("time_limit", original)),
    }
}

/// Reads up to three numbers and adds them up.
fn parse_weighted(parts: &Vec<&[char]>, units: &[u64; 3], skip: usize, original: &[char]) -> (r:
    Result<u64, SchemaParseError>)
    requires
        skip <= 1,
        forall|i: int| 0 <= i < 3 ==> units@[i] <= 3_600,
    ensures
        match r {
            Ok(n) => {
                &&& weighted(
                    model::views(parts@),
                    units@.skip(skip as int).map_values(|u: u64| u as nat),
                ) == Some(n as nat)
                &&& n <= 3 * 3_600 * u32::MAX
            },
            Err(e) => {
                &&& weighted(
                    model::views(parts@),
                    units@.skip(skip as int).map_values(|u: u64| u as nat),
                ) is None
                &&& e@ == (SchemaFault::ParseError { key: "time_limit"@, value: original@ })
            },
        },
{
    let ghost texts = model::views(parts@);
    let ghost weights = units@.skip(skip as int).map_values(|u: u64| u as nat);
    if parts.len() > 3 - skip {
        return Err(parse_error("time_limit", original));
    }
    let mut sum: u64 = 0;
    let mut i: usize = 0;
    while i < parts.len()
        invariant
            i <= parts.len() <= 3 - skip,
            skip <= 1,
            texts == model::views(parts@),
            weights == units@.skip(skip as int).map_values(|u: u64| u as nat),
            forall|k: int| 0 <= k < 3 ==> units@[k] <= 3_600,
            weighted(texts.take(i as int), weights) == Some(sum as nat),
            sum <= i * 3_600 * u32::MAX,
        decreases parts.len() - i,
    {
        proof {
            assert(texts.take(i + 1).drop_last() == texts.take(i as int));
            assert(texts.take(i + 1).last() == parts@[i as int]@);
            assert(weights[i as int] == units@[i + skip]);
        }
        match parse_component(parts[i], original) {
            Ok(n) => {
                let unit: u64 = units[i + skip];
                assert(0 <= n * unit <= u32::MAX * 3_600) by (nonlinear_arith)
                    requires
                        0 <= n <= u32::MAX,
                        0 <= unit <= 3_600,
                ;
                sum = sum + (n as u64) * unit;
            },
            Err(e) => {
                proof {
                    lemma_weighted_none(texts, weights, i + 1);
                }
                return Err(e);
            },
        }
        i = i + 1;
    }
    assert(texts.take(i as int) == texts);
    Ok(sum)
}

/// A part that is no number decides.
proof fn lemma_weighted_none(parts: Seq<Seq<char>>, units: Seq<nat>, n: int)
    requires
        0 <= n <= parts.len(),
        weighted(parts.take(n), units) is None,
    ensures
        weighted(parts, units) is None,
    decreases parts.len() - n,
{
    if n < parts.len() {
        assert(parts.take(n + 1).drop_last() == parts.take(n));
        lemma_weighted_none(parts, units, n + 1);
    } else {
        assert(parts.take(n) == parts);
    }
}

impl JobTimeLimit {
    /// The limit of that many seconds.
    pub fn from_seconds(seconds: PositiveU32) -> (r: JobTimeLimit)
        ensures
            r@ == seconds@,
    {
        JobTimeLimit { seconds }
    }

    /// All of it in seconds.
    pub fn total_seconds(self) -> (r: u32)
        ensures
            r == self@,
            r > 0,
    {
        self.seconds.get()
    }

    /// The hours of `HH:MM:SS`; they may exceed 23.
    pub fn hours(self) -> (r: u32)
        ensures
            r == self@ / 3600,
    {
        self.seconds.get() / 3600
    }

    /// The minutes of `HH:MM:SS`.
    pub fn minutes(self) -> (r: u32)
        ensures
            r == (self@ % 3600) / 60,
            r < 60,
    {
        (self.seconds.get() % 3600) / 60
    }

    /// The seconds of `HH:MM:SS`.
    pub fn seconds_part(self) -> (r: u32)
        ensures
            r == self@ % 60,
            r < 60,
    {
        self.seconds.get() % 60
    }

    /// `HH:MM:SS`.
    pub fn to_string(&self) -> (r: String)
        ensures
            r@ == limit_text(self@),
    {
        let mut out = String::new();
        number::push_decimal2(&mut out, self.hours() as u64);
        out.push(':');
        number::push_decimal2(&mut out, self.minutes() as u64);
        out.push(':');
        number::push_decimal2(&mut out, self.seconds_part() as u64);
        assert(out@ == limit_text(self@));
        out
    }

    /// Reads a limit.
    pub fn from_str(s: &str) -> (r: Result<JobTimeLimit, SchemaParseError>)
        ensures
            match r {
                Ok(x) => parsed_limit(s@) == Ok::<u32, SchemaFault>(x@),
                Err(e) => parsed_limit(s@) == Err::<u32, SchemaFault>(e@),
            },
    {
        let whole = text::chars_of(s);
        let cs = whole.as_slice();
        let units: [u64; 3] = [3_600, 60, 1];
        assert(units@.skip(0).map_values(|u: u64| u as nat) == seq![3_600nat, 60, 1]);
        assert(units@.skip(1).map_values(|u: u64| u as nat) == seq![60nat, 1]);
        let total: u64 = match text::split_once(cs, '-') {
            Some((days, rest)) => {
                let d: u32 = match parse_component(days, cs) {
                    Ok(d) => d,
                    Err(e) => {
                        return Err(e);
                    },
                };
                let parts = text::split(rest, ':');
                match parse_weighted(&parts, &units, 0, cs) {
                    Ok(n) => (d as u64) * 86_400 + n,
                    Err(e) => {
                        return Err(e);
                    },
                }
            },
            None => {
                let parts = text::split(cs, ':');
                let skip: usize = if parts.len() == 3 {
                    0
                } else {
                    1
                };
                match parse_weighted(&parts, &units, skip, cs) {
                    Ok(n) => n,
                    Err(e) => {
                        return Err(e);
                    },
                }
            },
        };
        if total > u32::MAX as u64 {
            return Err(parse_error("time_limit", cs));
        }
        match PositiveU32::new(total as u32) {
            Some(seconds) => Ok(JobTimeLimit { seconds }),
            None => Err(parse_error("time_limit", cs)),
        }
    }

    /// The limit of the whole seconds of a duration, where they are positive and of
    /// 32 bits.
    pub fn try_from_span(span: TimeSpan) -> (r: Result<JobTimeLimit, SchemaParseError>)
        requires
            span.wf(),
        ensures
            match r {
                Ok(x) => x@ == span.whole_seconds() && x@ > 0,
                Err(e) => {
                    &&& !(0 < span.whole_seconds() <= u32::MAX)
                    &&& e@ == (SchemaFault::ParseError {
                        key: "time_limit"@,
                        value: time_delta_text(span),
                    })
                },
            },
    {
        let total: i64 = num_seconds(span);
        if 0 < total && total <= u32::MAX as i64 {
            if let Some(seconds) = PositiveU32::new(total as u32) {
                return Ok(JobTimeLimit { seconds });
            }
        }
        Err(
            SchemaParseError::ParseError {
                key: "time_limit".to_owned(),
                value: time_delta_to_string(span),
            },
        )
    }

    /// The limit as a duration.
    pub fn to_span(self) -> (r: TimeSpan)
        ensures
            r == (TimeSpan { secs: self@ as i64, nanos: 0 }),
            r.wf(),
    {
        TimeSpan { secs: self.seconds.get() as i64, nanos: 0 }
    }
}

impl<'a> std::convert::TryFrom<&'a str> for JobTimeLimit {
    type Error = SchemaParseError;

    fn try_from(s: &'a str) -> (r: Result<JobTimeLimit, SchemaParseError>)
        ensures
            match r {
                Ok(x) => parsed_limit(s@) == Ok::<u32, SchemaFault>(x@),
                Err(e) => parsed_limit(s@) == Err::<u32, SchemaFault>(e@),
            },
    {
        JobTimeLimit::from_str(s)
    }
}

impl<'a> vstd::std_specs::convert::TryFromSpecImpl<&'a str> for JobTimeLimit {
    open spec fn obeys_try_from_spec() -> bool {
        false
    }

    open spec fn try_from_spec(s: &'a str) -> Result<JobTimeLimit, SchemaParseError> {
        arbitrary()
    }
}

impl std::convert::TryFrom<String> for JobTimeLimit {
    type Error = SchemaParseError;

    fn try_from(s: String) -> (r: Result<JobTimeLimit, SchemaParseError>)
        ensures
            match r {
                Ok(x) => parsed_limit(s@) == Ok::<u32, SchemaFault>(x@),
                Err(e) => parsed_limit(s@) == Err::<u32, SchemaFault>(e@),
            },
    {
        JobTimeLimit::from_str(s.as_str())
    }
}

impl vstd::std_specs::convert::TryFromSpecImpl<String> for JobTimeLimit {
    open spec fn obeys_try_from_spec() -> bool {
        false
    }

    open spec fn try_from_spec(s: String) -> Result<JobTimeLimit, SchemaParseError> {
        arbitrary()
    }
}

impl std::str::FromStr for JobTimeLimit {
    type Err = SchemaParseError;

    fn from_str(s: &str) -> (r: Result<Self, Self::Err>)
        ensures
            match r {
                Ok(x) => parsed_limit(s@) == Ok::<u32, SchemaFault>(x@),
                Err(e) => parsed_limit(s@) == Err::<u32, SchemaFault>(e@),
            },
    {
        JobTimeLimit::from_str(s)
    }
}

/// Hours, minutes and seconds make up the total.
pub proof fn law_time_limit_components(seconds: u32)
    ensures
        (seconds / 3600) * 3600 + ((seconds % 3600) / 60) * 60 + seconds % 60 == seconds,
{
}

/// `HH:MM:SS` reads back as the limit.
#[verifier::spinoff_prover]
pub proof fn law_time_limit_round_trip(seconds: u32)
    requires
        seconds > 0,
    ensures
        parsed_limit(limit_text(seconds)) == Ok::<u32, SchemaFault>(seconds),
{
    let h = (seconds / 3600) as nat;
    let m = ((seconds % 3600) / 60) as nat;
    let sec = (seconds % 60) as nat;
    let parts = seq![model::decimal2(h), model::decimal2(m), model::decimal2(sec)];
    lemmas::lemma_decimal2(h);
    lemmas::lemma_decimal2(m);
    lemmas::lemma_decimal2(sec);
    assert forall|i: int| 0 <= i < parts.len() implies !(#[trigger] parts[i]).contains(':')
        && !parts[i].contains('-') by {
        lemmas::lemma_digits_without(parts[i], ':');
        lemmas::lemma_digits_without(parts[i], '-');
    }
    let s = limit_text(seconds);
    let colon = seq![':'];
    assert(model::join(parts, colon) == s) by {
        assert(parts.skip(1) == seq![parts[1], parts[2]]);
        assert(parts.skip(1).skip(1) == seq![parts[2]]);
        assert(model::join(parts.skip(1).skip(1), colon) == parts[2]);
        assert(model::join(parts.skip(1), colon) == parts[1] + colon + parts[2]);
        assert(parts[0] + colon + (parts[1] + colon + parts[2]) == s);
    }
    lemmas::lemma_split_join(parts, ':');
    lemmas::lemma_join_without(parts, colon, '-');
    lemmas::lemma_split_none(s, '-');
    assert(model::is_digit(parts[0][0]) && model::is_digit(parts[1][0]) && model::is_digit(
        parts[2][0],
    ));
    assert(is_number(parts[0]) && is_number(parts[1]) && is_number(parts[2]));
    lemma_weights(parts[0], parts[1], parts[2], seq![3_600nat, 60, 1]);
    assert(weighted(parts, seq![3_600nat, 60, 1]) == Some(h * 3_600 + m * 60 + sec * 1));
    law_time_limit_components(seconds);
}

/// A limit becomes a duration of as many whole seconds.
pub proof fn law_time_limit_span_round_trip(seconds: u32)
    ensures
        (TimeSpan { secs: seconds as i64, nanos: 0 }).whole_seconds() == seconds,
{
}

/// A row of digits that stands for a number of 32 bits.
pub open spec fn is_number(s: Seq<char>) -> bool {
    s.len() > 0 && model::all_digits(s) && model::digits_value(s) <= u32::MAX
}

/// The parts are numbers.
proof fn lemma_number(s: Seq<char>)
    requires
        is_number(s),
    ensures
        component(s) == Some(model::digits_value(s)),
        !s.contains(':'),
        !s.contains('-'),
{
    assert(model::is_digit(s[0]));
    lemmas::lemma_digits_without(s, ':');
    lemmas::lemma_digits_without(s, '-');
}

/// The result is the limit of so many seconds, where that is a limit, and else the error
/// with the text.
pub open spec fn is_limit_of(r: Result<JobTimeLimit, SchemaParseError>, s: Seq<char>, n: nat) -> bool {
    if 0 < n <= u32::MAX {
        r matches Ok(x) && x@ == n
    } else {
        r matches Err(SchemaParseError::ParseError { key, value }) && key@ == "time_limit"@ && value@
            == s
    }
}

/// The forms of a limit: minutes; minutes and seconds; hours, minutes and seconds; and days
/// with hours, with hours and minutes or with all three.
pub proof fn law_time_limit_forms(
    s: &str,
    r: Result<JobTimeLimit, SchemaParseError>,
    d: Seq<char>,
    a: Seq<char>,
    b: Seq<char>,
    c: Seq<char>,
)
    requires
        call_ensures(JobTimeLimit::from_str, (s,), r),
        is_number(d),
        is_number(a),
        is_number(b),
        is_number(c),
    ensures
        ({
            let days = model::digits_value(d) * 86_400;
            let (x, y, z) = (
                model::digits_value(a),
                model::digits_value(b),
                model::digits_value(c),
            );
            &&& s@ == a ==> is_limit_of(r, s@, x * 60)
            &&& s@ == a + seq![':'] + b ==> is_limit_of(r, s@, x * 60 + y)
            &&& s@ == a + seq![':'] + b + seq![':'] + c ==> is_limit_of(
                r,
                s@,
                x * 3_600 + y * 60 + z,
            )
            &&& s@ == d + seq!['-'] + a ==> is_limit_of(r, s@, days + x * 3_600)
            &&& s@ == d + seq!['-'] + (a + seq![':'] + b) ==> is_limit_of(
                r,
                s@,
                days + x * 3_600 + y * 60,
            )
            &&& s@ == d + seq!['-'] + (a + seq![':'] + b + seq![':'] + c) ==> is_limit_of(
                r,
                s@,
                days + x * 3_600 + y * 60 + z,
            )
        }),
{
    lemma_forms(d, a, b, c);
}

/// The seconds of the forms of a limit.
#[verifier::spinoff_prover]
proof fn lemma_forms(d: Seq<char>, a: Seq<char>, b: Seq<char>, c: Seq<char>)
    requires
        is_number(d),
        is_number(a),
        is_number(b),
        is_number(c),
    ensures
        ({
            let days = model::digits_value(d) * 86_400;
            let (x, y, z) = (
                model::digits_value(a),
                model::digits_value(b),
                model::digits_value(c),
            );
            &&& total(a) == Some(x * 60)
            &&& total(a + seq![':'] + b) == Some(x * 60 + y)
            &&& total(a + seq![':'] + b + seq![':'] + c) == Some(x * 3_600 + y * 60 + z)
            &&& total(d + seq!['-'] + a) == Some(days + x * 3_600)
            &&& total(d + seq!['-'] + (a + seq![':'] + b)) == Some(days + x * 3_600 + y * 60)
            &&& total(d + seq!['-'] + (a + seq![':'] + b + seq![':'] + c)) == Some(
                days + x * 3_600 + y * 60 + z,
            )
        }),
{
    lemma_number(d);
    lemma_number(a);
    lemma_number(b);
    lemma_number(c);
    let (x, y, z) = (model::digits_value(a), model::digits_value(b), model::digits_value(c));
    let ab = a + seq![':'] + b;
    let abc = a + seq![':'] + b + seq![':'] + c;
    let bc = b + seq![':'] + c;
    assert(abc == a + seq![':'] + bc);
    lemmas::lemma_split_none(a, ':');
    lemmas::lemma_split_none(b, ':');
    lemmas::lemma_split_none(c, ':');
    lemmas::lemma_split_some(a, ':', b);
    lemmas::lemma_split_some(a, ':', bc);
    lemmas::lemma_split_some(b, ':', c);
    assert(model::split(ab, ':') == seq![a, b]);
    assert(model::split(abc, ':') == seq![a, b, c]);
    lemma_weights(a, b, c, seq![3_600nat, 60, 1]);
    lemma_weights(a, b, c, seq![60nat, 1]);
    lemma_without_dash(a, b);
    lemma_without_dash(ab, c);
    lemmas::lemma_split_none(a, '-');
    lemmas::lemma_split_none(ab, '-');
    lemmas::lemma_split_none(abc, '-');
    lemmas::lemma_split_some(d, '-', a);
    lemmas::lemma_split_some(d, '-', ab);
    lemmas::lemma_split_some(d, '-', abc);
    assert(seq![a].len() == 1 && seq![a, b].len() == 2);
}

/// A colon is no hyphen.
proof fn lemma_without_dash(a: Seq<char>, b: Seq<char>)
    requires
        !a.contains('-'),
        !b.contains('-'),
    ensures
        !(a + seq![':'] + b).contains('-'),
{
    let s = a + seq![':'] + b;
    if s.contains('-') {
        let i = choose|i: int| 0 <= i < s.len() && s[i] == '-';
        if i < a.len() {
            assert(a[i] == '-');
        } else if i > a.len() {
            assert(b[i - a.len() - 1] == '-');
        }
    }
}

/// Up to three numbers with their units.
proof fn lemma_weights(a: Seq<char>, b: Seq<char>, c: Seq<char>, units: Seq<nat>)
    requires
        is_number(a),
        is_number(b),
        is_number(c),
        units.len() >= 2,
    ensures
        weighted(seq![a], units) == Some(model::digits_value(a) * units[0]),
        weighted(seq![a, b], units) == Some(
            model::digits_value(a) * units[0] + model::digits_value(b) * units[1],
        ),
        units.len() >= 3 ==> weighted(seq![a, b, c], units) == Some(
            model::digits_value(a) * units[0] + model::digits_value(b) * units[1]
                + model::digits_value(c) * units[2],
        ),
{
    lemma_number(a);
    lemma_number(b);
    lemma_number(c);
    assert(seq![a].drop_last() == Seq::<Seq<char>>::empty());
    assert(weighted(Seq::<Seq<char>>::empty(), units) == Some(0nat));
    assert(seq![a, b].drop_last() == seq![a]);
    assert(seq![a, b, c].drop_last() == seq![a, b]);
}

/// A text with more parts than there are units, or with a part that is no number, is no
/// limit.
pub proof fn law_bad_time_limits(s: &str, r: Result<JobTimeLimit, SchemaParseError>, i: int)
    requires
        call_ensures(JobTimeLimit::from_str, (s,), r),
    ensures
        !s@.contains('-') && (model::split(s@, ':').len() > 3 || (0 <= i < model::split(
            s@,
            ':',
        ).len() && model::parse_uint(model::split(s@, ':')[i], u32::MAX as nat) is None)) ==> (
        r matches Err(SchemaParseError::ParseError { key, value }) && key@ == "time_limit"@ && value@
            == s@),
        forall|d: Seq<char>, rest: Seq<char>|
            s@ == #[trigger] (d + seq!['-'] + rest) && !d.contains('-') && (model::parse_uint(
                d,
                u32::MAX as nat,
            ) is None || model::split(rest, ':').len() > 3 || (0 <= i < model::split(
                rest,
                ':',
            ).len() && model::parse_uint(model::split(rest, ':')[i], u32::MAX as nat) is None))
                ==> (r matches Err(SchemaParseError::ParseError { key, value }) && key@
                == "time_limit"@ && value@ == s@),
{
    if !s@.contains('-') {
        lemmas::lemma_split_none(s@, '-');
        let parts = model::split(s@, ':');
        if 0 <= i < parts.len() && component(parts[i]) is None {
            lemma_bad_part(parts, seq![3_600nat, 60, 1], i);
            lemma_bad_part(parts, seq![60nat, 1], i);
        }
    }
    assert forall|d: Seq<char>, rest: Seq<char>|
        s@ == #[trigger] (d + seq!['-'] + rest) && !d.contains('-') && (model::parse_uint(
            d,
            u32::MAX as nat,
        ) is None || model::split(rest, ':').len() > 3 || (0 <= i < model::split(rest, ':').len()
            && model::parse_uint(model::split(rest, ':')[i], u32::MAX as nat) is None)) implies (
    r matches Err(SchemaParseError::ParseError { key, value }) && key@ == "time_limit"@ && value@
        == s@) by {
        lemmas::lemma_split_some(d, '-', rest);
        let parts = model::split(rest, ':');
        if 0 <= i < parts.len() && component(parts[i]) is None {
            lemma_bad_part(parts, seq![3_600nat, 60, 1], i);
        }
    }
}

/// A part that is no number makes no sum.
proof fn lemma_bad_part(parts: Seq<Seq<char>>, units: Seq<nat>, i: int)
    requires
        0 <= i < parts.len(),
        component(parts[i]) is None,
    ensures
        weighted(parts, units) is None,
{
    let head = parts.take(i + 1);
    assert(head.last() == parts[i]);
    assert(weighted(head, units) is None);
    lemma_weighted_none(parts, units, i + 1);
}

/// A limit is shown as hours, minutes and seconds, of at least two digits each, that make it
/// up; and that is what its parts are.
pub proof fn law_time_limits_are_shown(
    limit: JobTimeLimit,
    r: String,
    h: u32,
    m: u32,
    s: u32,
    total: u32,
)
    requires
        call_ensures(JobTimeLimit::to_string, (&limit,), r),
        call_ensures(JobTimeLimit::hours, (limit,), h),
        call_ensures(JobTimeLimit::minutes, (limit,), m),
        call_ensures(JobTimeLimit::seconds_part, (limit,), s),
        call_ensures(JobTimeLimit::total_seconds, (limit,), total),
    ensures
        total == limit@,
        h * 3_600 + m * 60 + s == total,
        m < 60,
        s < 60,
        r@ == two_digits(h as nat) + seq![':'] + two_digits(m as nat) + seq![':'] + two_digits(
            s as nat,
        ),
{
}

/// The number, with a zero before it where it has one digit.
pub open spec fn two_digits(n: nat) -> Seq<char> {
    (if n < 10 {
        seq!['0']
    } else {
        Seq::empty()
    }) + model::decimal(n)
}

/// The limit of a duration is that of its whole seconds, where they are positive and of 32
/// bits; and a limit becomes a duration of just as many.
pub proof fn law_durations_become_limits(
    span: TimeSpan,
    r: Result<JobTimeLimit, SchemaParseError>,
    limit: JobTimeLimit,
    back: TimeSpan,
)
    requires
        span.wf(),
        call_ensures(JobTimeLimit::try_from_span, (span,), r),
        call_ensures(JobTimeLimit::to_span, (limit,), back),
    ensures
        ({
            let nanos = span.secs * 1_000_000_000 + span.nanos;
            &&& r is Ok <==> 1_000_000_000 <= nanos < 4_294_967_296 * 1_000_000_000
            &&& r matches Ok(x) ==> x@ == nanos / 1_000_000_000
            &&& r matches Err(e) ==> (e matches SchemaParseError::ParseError { key, .. } && key@
                == "time_limit"@)
        }),
        back.secs * 1_000_000_000 + back.nanos == limit@ * 1_000_000_000,
{
    let nanos = span.secs * 1_000_000_000 + span.nanos;
    if nanos >= 0 {
        assert(span.secs >= 0);
        assert(nanos / 1_000_000_000 == span.secs);
    } else {
        assert(span.secs < 0);
    }
}

/// However the text is handed over, it is read in the same way.
pub proof fn law_time_limit_conversions_agree(
    s: &str,
    r: Result<JobTimeLimit, SchemaParseError>,
    q: Result<JobTimeLimit, SchemaParseError>,
    w: Result<JobTimeLimit, SchemaParseError>,
    owned: String,
)
    requires
        call_ensures(JobTimeLimit::from_str, (s,), r),
        call_ensures(<JobTimeLimit as std::convert::TryFrom<&str>>::try_from, (s,), q),
        call_ensures(<JobTimeLimit as std::convert::TryFrom<String>>::try_from, (owned,), w),
        owned@ == s@,
    ensures
        r is Ok <==> q is Ok,
        r is Ok ==> r->Ok_0@ == q->Ok_0@,
        r is Err ==> r->Err_0@ == q->Err_0@,
        r is Ok <==> w is Ok,
        r is Ok ==> r->Ok_0@ == w->Ok_0@,
        r is Err ==> r->Err_0@ == w->Err_0@,
{
}

} // verus!
