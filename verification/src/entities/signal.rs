//! `--signal` spec for a SLURM batch submission: `[R:]<sig_num|sig_name>[@<sig_time>]`.
//!
//! - `R:` also signals a job that already had the signal queued
//! - `sig_num` is a POSIX signal number (1..=64)
//! - `sig_name` is `SIGINT`, `SIGTERM`, `SIGKILL`, `USR1`, etc.
//! - `@<sig_time>` is how many seconds before the time limit (1..=65535)
use crate::error::{parse_error, SchemaFault, SchemaParseError};
use crate::text;
use crate::text::lemmas;
use crate::text::model;
use crate::text::number;
use vstd::prelude::*;
use vstd::slice::slice_subrange;

verus! {

/// A signal, by number or by name.
#[derive(Debug, Clone, PartialEq, Eq)]
pub enum SignalIdent {
    Number(u8),
    Name(String),
}

/// Which signal to send before the time limit, and when.
#[derive(Debug, Clone, PartialEq, Eq)]
pub struct SlurmSignalSpec {
    pub allow_resignal: bool,
    pub signal: SignalIdent,
    pub seconds_before_end: Option<u16>,
}

/// What a `SignalIdent` holds.
pub enum IdentView {
    Number(u8),
    Name(Seq<char>),
}

/// What a `SlurmSignalSpec` holds.
pub struct SignalView {
    pub allow_resignal: bool,
    pub signal: IdentView,
    pub seconds_before_end: Option<u16>,
}

impl View for SignalIdent {
    type V = IdentView;

    open spec fn view(&self) -> IdentView {
        match *self {
            SignalIdent::Number(n) => IdentView::Number(n),
            SignalIdent::Name(s) => IdentView::Name(s@),
        }
    }
}

impl View for SlurmSignalSpec {
    type V = SignalView;

    open spec fn view(&self) -> SignalView {
        SignalView {
            allow_resignal: self.allow_resignal,
            signal: self.signal@,
            seconds_before_end: self.seconds_before_end,
        }
    }
}

/// An ASCII capital letter.
pub open spec fn is_capital(c: char) -> bool {
    'A' <= c <= 'Z'
}

/// A capital letter, a digit or an underscore.
pub open spec fn is_name_char(c: char) -> bool {
    is_capital(c) || model::is_digit(c) || c == '_'
}

/// `^[A-Z][A-Z0-9_]*$`
pub open spec fn is_name(s: Seq<char>) -> bool {
    &&& s.len() > 0
    &&& is_capital(s[0])
    &&& forall|i: int| 0 <= i < s.len() ==> is_name_char(#[trigger] s[i])
}

impl IdentView {
    /// The number is one of a signal, or the name is well formed.
    pub open spec fn wf(self) -> bool {
        match self {
            IdentView::Number(n) => 1 <= n <= 64,
            IdentView::Name(s) => is_name(s),
        }
    }

    /// The text of the signal.
    pub open spec fn text(self) -> Seq<char> {
        match self {
            IdentView::Number(n) => model::decimal(n as nat),
            IdentView::Name(s) => s,
        }
    }

    /// The signal that `s` spells: digits alone are a number.
    pub open spec fn read(s: Seq<char>) -> Option<IdentView> {
        if s.len() > 0 && model::all_digits(s) {
            if 1 <= model::digits_value(s) <= 64 {
                Some(IdentView::Number(model::digits_value(s) as u8))
            } else {
                None
            }
        } else if is_name(s) {
            Some(IdentView::Name(s))
        } else {
            None
        }
    }

    /// The signal that `s` spells, or the fault.
    pub open spec fn parsed(s: Seq<char>) -> Result<IdentView, SchemaFault> {
        match Self::read(s) {
            Some(x) => Ok(x),
            None => Err(SchemaFault::ParseError { key: "signal/identifier"@, value: s }),
        }
    }
}

/// Reads a signal.
pub fn parse_signal_ident(s: &[char]) -> (r: Result<SignalIdent, SchemaParseError>)
    ensures
        match r {
            Ok(x) => IdentView::parsed(s@) == Ok::<IdentView, SchemaFault>(x@),
            Err(e) => IdentView::parsed(s@) == Err::<IdentView, SchemaFault>(e@),
        },
{
    if s.len() == 0 {
        return Err(parse_error("signal/identifier", s));
    }
    if number::all_digits(s) {
        match number::digits_value(s) {
            Some(n) => {
                if 1 <= n && n <= 64 {
                    return Ok(SignalIdent::Number(n as u8));
                }
            },
            None => {},
        }
        return Err(parse_error("signal/identifier", s));
    }
    let first = s[0];
    if !('A' <= first && first <= 'Z') {
        return Err(parse_error("signal/identifier", s));
    }
    let mut i: usize = 0;
    while i < s.len()
        invariant
            i <= s.len(),
            !model::all_digits(s@),
            forall|k: int| 0 <= k < i ==> is_name_char(#[trigger] s@[k]),
        decreases s.len() - i,
    {
        let c = s[i];
        if !(('A' <= c && c <= 'Z') || number::is_digit(c) || c == '_') {
            assert(!is_name_char(s@[i as int]));
            return Err(parse_error("signal/identifier", s));
        }
        i = i + 1;
    }
    Ok(SignalIdent::Name(text::string_of(s)))
}

impl SignalIdent {
    /// Appends the text of the signal.
    pub fn push_to(&self, out: &mut String)
        ensures
            final(out)@ == old(out)@ + self@.text(),
    {
        match self {
            SignalIdent::Number(n) => {
                number::push_decimal(out, *n as u64);
            },
            SignalIdent::Name(name) => {
                out.append(name.as_str());
            },
        }
    }

    /// The text of the signal.
    pub fn to_string(&self) -> (r: String)
        ensures
            r@ == self@.text(),
    {
        let mut out = String::new();
        self.push_to(&mut out);
        out
    }
}

impl SignalView {
    /// The signal is well formed and the time is positive.
    pub open spec fn wf(self) -> bool {
        &&& self.signal.wf()
        &&& self.seconds_before_end is Some ==> self.seconds_before_end->0 > 0
    }

    /// The text of the spec.
    pub open spec fn text(self) -> Seq<char> {
        (if self.allow_resignal {
            seq!['R', ':']
        } else {
            Seq::empty()
        }) + self.signal.text() + match self.seconds_before_end {
            Some(n) => seq!['@'] + model::decimal(n as nat),
            None => Seq::empty(),
        }
    }

    /// The spec that `s` spells. A bad signal is a fault of the signal, which is
    /// judged before the time; the rest are faults of the whole.
    pub open spec fn parsed(s: Seq<char>) -> Result<SignalView, SchemaFault> {
        let fault = SchemaFault::ParseError { key: "signal"@, value: s };
        let allow_resignal = s.len() >= 2 && s[0] == 'R' && s[1] == ':';
        let rest = if allow_resignal {
            s.skip(2)
        } else {
            s
        };
        let (sig, time) = match model::split_once(rest, '@') {
            Some((a, b)) => (a, Some(b)),
            None => (rest, None),
        };
        if sig.len() == 0 {
            Err(fault)
        } else {
            match IdentView::parsed(sig) {
                Err(e) => Err(e),
                Ok(signal) => match time {
                    None => Ok(SignalView { allow_resignal, signal, seconds_before_end: None }),
                    Some(t) => match model::parse_uint(t, u16::MAX as nat) {
                        Some(n) => if n > 0 {
                            Ok(
                                SignalView {
                                    allow_resignal,
                                    signal,
                                    seconds_before_end: Some(n as u16),
                                },
                            )
                        } else {
                            Err(fault)
                        },
                        None => Err(fault),
                    },
                },
            }
        }
    }
}

impl SlurmSignalSpec {
    /// Reads a spec.
    pub fn from_str(s: &str) -> (r: Result<SlurmSignalSpec, SchemaParseError>)
        ensures
            match r {
                Ok(x) => SignalView::parsed(s@) == Ok::<SignalView, SchemaFault>(x@) && x@.wf(),
                Err(e) => SignalView::parsed(s@) == Err::<SignalView, SchemaFault>(e@),
            },
    {
        let whole = text::chars_of(s);
        let cs = whole.as_slice();
        let allow_resignal = cs.len() >= 2 && cs[0] == 'R' && cs[1] == ':';
        let rest = if allow_resignal {
            let t = slice_subrange(cs, 2, cs.len());
            assert(t@ == cs@.skip(2));
            t
        } else {
            cs
        };
        let (sig, time): (&[char], Option<&[char]>) = match text::split_once(rest, '@') {
            Some((a, b)) => (a, Some(b)),
            None => (rest, None),
        };
        if sig.len() == 0 {
            return Err(parse_error("signal", cs));
        }
        let signal = match parse_signal_ident(sig) {
            Ok(x) => x,
            Err(e) => {
                return Err(e);
            },
        };
        let seconds_before_end: Option<u16> = match time {
            Some(t) => match number::parse_uint(t, u16::MAX as u64) {
                Some(n) => {
                    if n == 0 {
                        return Err(parse_error("signal", cs));
                    }
                    Some(n as u16)
                },
                None => {
                    return Err(parse_error("signal", cs));
                },
            },
            None => None,
        };
        Ok(SlurmSignalSpec { allow_resignal, signal, seconds_before_end })
    }

    /// The text of the spec.
    pub fn to_string(&self) -> (r: String)
        ensures
            r@ == self@.text(),
    {
        let mut out = String::new();
        if self.allow_resignal {
            out.push('R');
            out.push(':');
        }
        self.signal.push_to(&mut out);
        if let Some(n) = self.seconds_before_end {
            out.push('@');
            number::push_decimal(&mut out, n as u64);
        }
        assert(out@ == self@.text());
        out
    }
}

impl<'a> std::convert::TryFrom<&'a str> for SlurmSignalSpec {
    type Error = SchemaParseError;

    fn try_from(s: &'a str) -> (r: Result<SlurmSignalSpec, SchemaParseError>)
        ensures
            match r {
                Ok(x) => SignalView::parsed(s@) == Ok::<SignalView, SchemaFault>(x@),
                Err(e) => SignalView::parsed(s@) == Err::<SignalView, SchemaFault>(e@),
            },
    {
        SlurmSignalSpec::from_str(s)
    }
}

impl<'a> vstd::std_specs::convert::TryFromSpecImpl<&'a str> for SlurmSignalSpec {
    open spec fn obeys_try_from_spec() -> bool {
        false
    }

    open spec fn try_from_spec(s: &'a str) -> Result<SlurmSignalSpec, SchemaParseError> {
        arbitrary()
    }
}

impl std::convert::TryFrom<String> for SlurmSignalSpec {
    type Error = SchemaParseError;

    fn try_from(s: String) -> (r: Result<SlurmSignalSpec, SchemaParseError>)
        ensures
            match r {
                Ok(x) => SignalView::parsed(s@) == Ok::<SignalView, SchemaFault>(x@),
                Err(e) => SignalView::parsed(s@) == Err::<SignalView, SchemaFault>(e@),
            },
    {
        SlurmSignalSpec::from_str(s.as_str())
    }
}

impl vstd::std_specs::convert::TryFromSpecImpl<String> for SlurmSignalSpec {
    open spec fn obeys_try_from_spec() -> bool {
        false
    }

    open spec fn try_from_spec(s: String) -> Result<SlurmSignalSpec, SchemaParseError> {
        arbitrary()
    }
}

impl std::str::FromStr for SlurmSignalSpec {
    type Err = SchemaParseError;

    fn from_str(s: &str) -> (r: Result<Self, Self::Err>)
        ensures
            match r {
                Ok(x) => SignalView::parsed(s@) == Ok::<SignalView, SchemaFault>(x@) && x@.wf(),
                Err(e) => SignalView::parsed(s@) == Err::<SignalView, SchemaFault>(e@),
            },
    {
        SlurmSignalSpec::from_str(s)
    }
}

/// What follows the `R:` prefix in the text form.
spec fn unprefixed(v: SignalView) -> Seq<char> {
    match v.seconds_before_end {
        Some(n) => v.signal.text() + seq!['@'] + model::decimal(n as nat),
        None => v.signal.text(),
    }
}

/// The prefix is found where it was written, and only there.
proof fn lemma_prefix(v: SignalView)
    requires
        v.wf(),
    ensures
        ({
            let s = v.text();
            let prefixed = s.len() >= 2 && s[0] == 'R' && s[1] == ':';
            &&& prefixed == v.allow_resignal
            &&& unprefixed(v) == (if prefixed {
                s.skip(2)
            } else {
                s
            })
        }),
{
    let s = v.text();
    let rest = unprefixed(v);
    if v.allow_resignal {
        assert(s.skip(2) == rest);
    } else {
        assert(s == rest);
        let sig = v.signal.text();
        lemma_ident_text(v.signal);
        if s.len() >= 2 && s[1] == ':' {
            if sig.len() >= 2 {
                assert(sig[1] == ':');
                assert(sig.contains(':'));
            } else {
                assert(s[1] == '@');
            }
        }
    }
}

/// The text of a well-formed spec reads back as it.
pub proof fn law_signal_round_trip(v: SignalView)
    requires
        v.wf(),
    ensures
        SignalView::parsed(v.text()) == Ok::<SignalView, SchemaFault>(v),
{
    let sig = v.signal.text();
    lemma_prefix(v);
    lemma_ident_text(v.signal);
    match v.seconds_before_end {
        Some(n) => {
            lemmas::lemma_decimal(n as nat);
            lemmas::lemma_split_some(sig, '@', model::decimal(n as nat));
        },
        None => {
            lemmas::lemma_split_none(sig, '@');
        },
    }
}

/// The text of a well-formed signal reads back as it and holds none of the marks.
proof fn lemma_ident_text(x: IdentView)
    requires
        x.wf(),
    ensures
        IdentView::parsed(x.text()) == Ok::<IdentView, SchemaFault>(x),
        x.text().len() > 0,
        !x.text().contains('@'),
        !x.text().contains(':'),
{
    match x {
        IdentView::Number(n) => {
            lemmas::lemma_decimal(n as nat);
            lemmas::lemma_digits_without(x.text(), '@');
            lemmas::lemma_digits_without(x.text(), ':');
        },
        IdentView::Name(s) => {
            assert(!model::is_digit(s[0]));
            if s.contains('@') {
                let i = choose|i: int| 0 <= i < s.len() && s[i] == '@';
                assert(is_name_char(s[i]));
            }
            if s.contains(':') {
                let i = choose|i: int| 0 <= i < s.len() && s[i] == ':';
                assert(is_name_char(s[i]));
            }
        },
    }
}

/// A signal is read from `R:`, where it is there, then a number of 1 to 64 or a name, then,
/// where it is there, `@` and a positive number of seconds of 16 bits.
pub proof fn law_signals_are_read(
    s: &str,
    r: Result<SlurmSignalSpec, SchemaParseError>,
    resignal: bool,
    signal: Seq<char>,
    time: Option<Seq<char>>,
)
    requires
        call_ensures(SlurmSignalSpec::from_str, (s,), r),
        !signal.contains('@'),
        signal.len() >= 2 ==> !(signal[0] == 'R' && signal[1] == ':'),
        s@ == (if resignal {
            seq!['R', ':']
        } else {
            Seq::empty()
        }) + signal + (match time {
            Some(t) => seq!['@'] + t,
            None => Seq::empty(),
        }),
    ensures
        ({
            let number = signal.len() > 0 && model::all_digits(signal) && 1
                <= model::digits_value(signal) <= 64;
            let name = signal.len() > 0 && 'A' <= signal[0] <= 'Z' && forall|i: int|
                0 <= i < signal.len() ==> ('A' <= #[trigger] signal[i] <= 'Z' || '0' <= signal[i]
                    <= '9' || signal[i] == '_');
            let seconds = match time {
                Some(t) => model::parse_uint(t, 65_535),
                None => None,
            };
            let timely = time is Some ==> seconds is Some && seconds->0 > 0;
            &&& r is Ok <==> (number || name) && timely
            &&& r matches Ok(x) ==> {
                &&& x.allow_resignal == resignal
                &&& time is None <==> x.seconds_before_end is None
                &&& time is Some ==> x.seconds_before_end->0 == seconds->0
                &&& number ==> (x.signal matches SignalIdent::Number(n) && n
                    == model::digits_value(signal))
                &&& !number ==> (x.signal matches SignalIdent::Name(n) && n@ == signal)
            }
        }),
{
    let head = if resignal {
        seq!['R', ':']
    } else {
        Seq::empty()
    };
    let tail = match time {
        Some(t) => seq!['@'] + t,
        None => Seq::empty(),
    };
    let rest = signal + tail;
    assert(s@ == head + rest);
    if resignal {
        assert(s@[0] == 'R' && s@[1] == ':');
        assert(s@.skip(2) == rest);
    } else {
        assert(s@ == rest);
        if s@.len() >= 2 && s@[0] == 'R' && s@[1] == ':' {
            if signal.len() >= 2 {
                assert(s@[0] == signal[0] && s@[1] == signal[1]);
            } else if signal.len() == 1 {
                assert(s@[1] == tail[0]);
            } else {
                assert(s@[0] == tail[0]);
            }
        }
    }
    match time {
        Some(t) => {
            assert(rest == signal + seq!['@'] + t);
            lemmas::lemma_split_some(signal, '@', t);
        },
        None => {
            assert(rest == signal);
            lemmas::lemma_split_none(signal, '@');
        },
    }
    if signal.len() > 0 && model::all_digits(signal) {
        assert(model::is_digit(signal[0]));
    }
}

/// A signal is shown as it is read.
pub proof fn law_signals_are_shown(x: SlurmSignalSpec, r: String)
    requires
        call_ensures(SlurmSignalSpec::to_string, (&x,), r),
    ensures
        r@ == (if x.allow_resignal {
            seq!['R', ':']
        } else {
            Seq::empty()
        }) + (match x.signal {
            SignalIdent::Number(n) => model::decimal(n as nat),
            SignalIdent::Name(n) => n@,
        }) + (match x.seconds_before_end {
            Some(n) => seq!['@'] + model::decimal(n as nat),
            None => Seq::empty(),
        }),
{
}

/// However the text is handed over, it is read in the same way.
pub proof fn law_signal_conversions_agree(
    s: &str,
    r: Result<SlurmSignalSpec, SchemaParseError>,
    q: Result<SlurmSignalSpec, SchemaParseError>,
    w: Result<SlurmSignalSpec, SchemaParseError>,
    owned: String,
)
    requires
        call_ensures(SlurmSignalSpec::from_str, (s,), r),
        call_ensures(<SlurmSignalSpec as std::convert::TryFrom<&str>>::try_from, (s,), q),
        call_ensures(<SlurmSignalSpec as std::convert::TryFrom<String>>::try_from, (owned,), w),
        owned@ == s@,
    ensures
        r is Ok <==> q is Ok,
        r is Ok ==> r->Ok_0@ == q->Ok_0@,
        r is Err ==> r->Err_0@ == q->Err_0@,
        r is Ok <==> w is Ok,
        r is Ok ==> r->Ok_0@ == w->Ok_0@,
        r is Err ==> r->Err_0@ == w->Err_0@,
{
}

} // verus!
