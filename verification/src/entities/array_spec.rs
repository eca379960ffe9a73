//! `--array` / `-a` spec for a SLURM batch submission.
//!
//! ```text
//!   <entry>[,<entry>...][%<max_concurrent>]
//!   <entry>      ::= <index> | <start>-<end> | <start>-<end>:<step>
//! ```
//!
//! - `"0-15"`         indices 0..=15
//! - `"0-15:4"`       0, 4, 8, 12 (every 4th)
//! - `"0,6,16-32"`    0, 6, then 16..=32
//! - `"0-15%4"`       at most 4 tasks running concurrently
use crate::error;
use crate::error::{parse_error, SchemaFault, SchemaParseError};
use crate::text;
use crate::text::lemmas;
use crate::text::model;
use crate::text::number;
use vstd::prelude::*;

verus! {

/// One entry of an index list.
#[derive(Debug, Clone, Copy, PartialEq, Eq, Structural)]
pub enum ArrayIndex {
    /// Single index, e.g. `5`.
    Single(u32),
    /// Inclusive range, e.g. `0-15`.
    Range { start: u32, end: u32 },
    /// Inclusive range with step, e.g. `0-15:4` (= 0, 4, 8, 12).
    Stepped { start: u32, end: u32, step: u32 },
}

/// Which task indices to run, and how many at once.
#[derive(Debug, Clone, PartialEq, Eq)]
pub struct SlurmArraySpec {
    /// The entries, in the order written.
    pub indices: Vec<ArrayIndex>,
    /// Concurrency cap from the trailing `%N` (`None` = unlimited).
    pub max_concurrent: Option<u32>,
}

/// What a `SlurmArraySpec` holds.
pub struct ArraySpecView {
    pub indices: Seq<ArrayIndex>,
    pub max_concurrent: Option<u32>,
}

impl View for SlurmArraySpec {
    type V = ArraySpecView;

    open spec fn view(&self) -> ArraySpecView {
        ArraySpecView { indices: self.indices@, max_concurrent: self.max_concurrent }
    }
}

/// The bounds of `<start>-<end>`, where `start <= end`.
pub open spec fn bounds(s: Seq<char>) -> Option<(u32, u32)> {
    match model::split_once(s, '-') {
        Some((a, b)) => match (
            model::parse_uint(a, u32::MAX as nat),
            model::parse_uint(b, u32::MAX as nat),
        ) {
            (Some(start), Some(end)) => if start <= end {
                Some((start as u32, end as u32))
            } else {
                None
            },
            _ => None,
        },
        None => None,
    }
}

impl ArrayIndex {
    /// A range is not reversed, and a step is positive.
    pub open spec fn wf(self) -> bool {
        match self {
            ArrayIndex::Single(_) => true,
            ArrayIndex::Range { start, end } => start <= end,
            ArrayIndex::Stepped { start, end, step } => start <= end && step > 0,
        }
    }

    /// The entry that `s` spells.
    pub open spec fn read(s: Seq<char>) -> Option<ArrayIndex> {
        match model::split_once(s, ':') {
            Some((range, step)) => match (
                bounds(range),
                model::parse_uint(step, u32::MAX as nat),
            ) {
                (Some((start, end)), Some(step)) => if step > 0 {
                    Some(ArrayIndex::Stepped { start, end, step: step as u32 })
                } else {
                    None
                },
                _ => None,
            },
            None => if s.contains('-') {
                match bounds(s) {
                    Some((start, end)) => Some(ArrayIndex::Range { start, end }),
                    None => None,
                }
            } else {
                match model::parse_uint(s, u32::MAX as nat) {
                    Some(i) => Some(ArrayIndex::Single(i as u32)),
                    None => None,
                }
            },
        }
    }

    /// The entry that `s` spells, or the fault: always the whole entry.
    pub open spec fn parsed(s: Seq<char>) -> Result<ArrayIndex, SchemaFault> {
        match Self::read(s) {
            Some(x) => Ok(x),
            None => Err(SchemaFault::ParseError { key: "array_spec/entry"@, value: s }),
        }
    }

    /// The text of the entry.
    pub open spec fn text(self) -> Seq<char> {
        match self {
            ArrayIndex::Single(i) => model::decimal(i as nat),
            ArrayIndex::Range { start, end } => model::decimal(start as nat) + seq!['-']
                + model::decimal(end as nat),
            ArrayIndex::Stepped { start, end, step } => model::decimal(start as nat) + seq!['-']
                + model::decimal(end as nat) + seq![':'] + model::decimal(step as nat),
        }
    }

    /// Reads an entry.
    pub fn from_str(s: &str) -> (r: Result<ArrayIndex, SchemaParseError>)
        ensures
            match r {
                Ok(x) => Self::parsed(s@) == Ok::<ArrayIndex, SchemaFault>(x) && x.wf(),
                Err(e) => Self::parsed(s@) == Err::<ArrayIndex, SchemaFault>(e@),
            },
    {
        let cs = text::chars_of(s);
        Self::from_chars(cs.as_slice())
    }

    /// Reads an entry from its characters.
    pub fn from_chars(s: &[char]) -> (r: Result<ArrayIndex, SchemaParseError>)
        ensures
            match r {
                Ok(x) => Self::parsed(s@) == Ok::<ArrayIndex, SchemaFault>(x) && x.wf(),
                Err(e) => Self::parsed(s@) == Err::<ArrayIndex, SchemaFault>(e@),
            },
    {
        match text::split_once(s, ':') {
            Some((range, step_part)) => {
                let step: u32 = match number::parse_u32(step_part) {
                    Some(n) => n,
                    None => {
                        return Err(parse_error("array_spec/entry", s));
                    },
                };
                if step == 0 {
                    return Err(parse_error("array_spec/entry", s));
                }
                match parse_bounds(range) {
                    Some((start, end)) => Ok(ArrayIndex::Stepped { start, end, step }),
                    None => Err(parse_error("array_spec/entry", s)),
                }
            },
            None => if text::has(s, '-') {
                match parse_bounds(s) {
                    Some((start, end)) => Ok(ArrayIndex::Range { start, end }),
                    None => Err(parse_error("array_spec/entry", s)),
                }
            } else {
                match number::parse_u32(s) {
                    Some(i) => Ok(ArrayIndex::Single(i)),
                    None => Err(parse_error("array_spec/entry", s)),
                }
            },
        }
    }

    /// Appends the text of the entry.
    pub fn push_to(&self, out: &mut String)
        ensures
            final(out)@ == old(out)@ + self.text(),
    {
        match *self {
            ArrayIndex::Single(i) => {
                number::push_decimal(out, i as u64);
            },
            ArrayIndex::Range { start, end } => {
                number::push_decimal(out, start as u64);
                out.push('-');
                number::push_decimal(out, end as u64);
            },
            ArrayIndex::Stepped { start, end, step } => {
                number::push_decimal(out, start as u64);
                out.push('-');
                number::push_decimal(out, end as u64);
                out.push(':');
                number::push_decimal(out, step as u64);
            },
        }
        assert(out@ == old(out)@ + self.text());
    }

    /// The text of the entry.
    pub fn to_string(&self) -> (r: String)
        ensures
            r@ == self.text(),
    {
        let mut out = String::new();
        self.push_to(&mut out);
        out
    }

    /// `single`, `range` or `stepped`.
    pub fn kind(&self) -> (r: &'static str)
        ensures
            r@ == match *self {
                ArrayIndex::Single(_) => "single"@,
                ArrayIndex::Range { .. } => "range"@,
                ArrayIndex::Stepped { .. } => "stepped"@,
            },
    {
        match self {
            ArrayIndex::Single(_) => "single",
            ArrayIndex::Range { .. } => "range",
            ArrayIndex::Stepped { .. } => "stepped",
        }
    }

    /// The index, where it is a single one.
    pub fn value(&self) -> (r: Option<u32>)
        ensures
            r == match *self {
                ArrayIndex::Single(i) => Some(i),
                _ => None,
            },
    {
        match *self {
            ArrayIndex::Single(i) => Some(i),
            _ => None,
        }
    }

    /// The first index of a range.
    pub fn start(&self) -> (r: Option<u32>)
        ensures
            r == match *self {
                ArrayIndex::Single(_) => None,
                ArrayIndex::Range { start, .. } => Some(start),
                ArrayIndex::Stepped { start, .. } => Some(start),
            },
    {
        match *self {
            ArrayIndex::Single(_) => None,
            ArrayIndex::Range { start, .. } => Some(start),
            ArrayIndex::Stepped { start, .. } => Some(start),
        }
    }

    /// The bound of a range.
    pub fn end(&self) -> (r: Option<u32>)
        ensures
            r == match *self {
                ArrayIndex::Single(_) => None,
                ArrayIndex::Range { end, .. } => Some(end),
                ArrayIndex::Stepped { end, .. } => Some(end),
            },
    {
        match *self {
            ArrayIndex::Single(_) => None,
            ArrayIndex::Range { end, .. } => Some(end),
            ArrayIndex::Stepped { end, .. } => Some(end),
        }
    }

    /// The step, where there is one.
    pub fn step(&self) -> (r: Option<u32>)
        ensures
            r == match *self {
                ArrayIndex::Stepped { step, .. } => Some(step),
                _ => None,
            },
    {
        match *self {
            ArrayIndex::Stepped { step, .. } => Some(step),
            _ => None,
        }
    }
}

/// Reads `<start>-<end>`.
fn parse_bounds(s: &[char]) -> (r: Option<(u32, u32)>)
    ensures
        r == bounds(s@),
{
    match text::split_once(s, '-') {
        Some((a, b)) => match (number::parse_u32(a), number::parse_u32(b)) {
            (Some(start), Some(end)) => if start <= end {
                Some((start, end))
            } else {
                None
            },
            _ => None,
        },
        None => None,
    }
}

impl ArraySpecView {
    /// At least one entry, each well formed, and a positive cap.
    pub open spec fn wf(self) -> bool {
        &&& self.indices.len() > 0
        &&& forall|i: int| 0 <= i < self.indices.len() ==> (#[trigger] self.indices[i]).wf()
        &&& self.max_concurrent is Some ==> self.max_concurrent->0 > 0
    }

    /// The texts of the entries.
    pub open spec fn entry_texts(self) -> Seq<Seq<char>> {
        self.indices.map_values(|x: ArrayIndex| x.text())
    }

    /// The text of the spec.
    pub open spec fn text(self) -> Seq<char> {
        model::join(self.entry_texts(), seq![',']) + match self.max_concurrent {
            Some(n) => seq!['%'] + model::decimal(n as nat),
            None => Seq::empty(),
        }
    }

    /// The entries that a comma-separated list spells.
    pub open spec fn parsed_entries(s: Seq<char>) -> Result<Seq<ArrayIndex>, SchemaFault> {
        error::collect(model::split(s, ','), |p: Seq<char>| ArrayIndex::parsed(p))
    }

    /// The spec that `s` spells. A bad cap, or no entry at all, is a fault of the
    /// whole; a bad entry is a fault of that entry, the first one deciding.
    pub open spec fn parsed(s: Seq<char>) -> Result<ArraySpecView, SchemaFault> {
        let fault = SchemaFault::ParseError { key: "array_spec"@, value: s };
        match model::split_once(s, '%') {
            Some((list, cap)) => match model::parse_uint(cap, u32::MAX as nat) {
                Some(n) => if n == 0 || list.len() == 0 {
                    Err(fault)
                } else {
                    match Self::parsed_entries(list) {
                        Ok(indices) => Ok(
                            ArraySpecView { indices, max_concurrent: Some(n as u32) },
                        ),
                        Err(e) => Err(e),
                    }
                },
                None => Err(fault),
            },
            None => if s.len() == 0 {
                Err(fault)
            } else {
                match Self::parsed_entries(s) {
                    Ok(indices) => Ok(ArraySpecView { indices, max_concurrent: None }),
                    Err(e) => Err(e),
                }
            },
        }
    }
}

impl SlurmArraySpec {
    /// Reads a spec.
    pub fn from_str(s: &str) -> (r: Result<SlurmArraySpec, SchemaParseError>)
        ensures
            match r {
                Ok(x) => ArraySpecView::parsed(s@) == Ok::<ArraySpecView, SchemaFault>(x@)
                    && x@.wf(),
                Err(e) => ArraySpecView::parsed(s@) == Err::<ArraySpecView, SchemaFault>(e@),
            },
    {
        let whole = text::chars_of(s);
        let cs = whole.as_slice();
        let (list, max_concurrent): (&[char], Option<u32>) = match text::split_once(cs, '%') {
            Some((list, cap)) => match number::parse_u32(cap) {
                Some(n) => {
                    if n == 0 {
                        return Err(parse_error("array_spec", cs));
                    }
                    (list, Some(n))
                },
                None => {
                    return Err(parse_error("array_spec", cs));
                },
            },
            None => (cs, None),
        };
        if list.len() == 0 {
            return Err(parse_error("array_spec", cs));
        }
        match parse_entries(list) {
            Ok(indices) => Ok(SlurmArraySpec { indices, max_concurrent }),
            Err(e) => Err(e),
        }
    }

    /// The text of the spec.
    pub fn to_string(&self) -> (r: String)
        ensures
            r@ == self@.text(),
    {
        let mut out = String::new();
        let mut i: usize = 0;
        let ghost texts = self@.entry_texts();
        while i < self.indices.len()
            invariant
                i <= self.indices.len(),
                texts == self@.entry_texts(),
                out@ == model::join(texts.take(i as int), seq![',']),
            decreases self.indices.len() - i,
        {
            proof {
                lemmas::lemma_join_push(texts.take(i as int), seq![','], texts[i as int]);
                assert(texts.take(i + 1) == texts.take(i as int).push(texts[i as int]));
            }
            if i > 0 {
                out.push(',');
            }
            self.indices[i].push_to(&mut out);
            i = i + 1;
        }
        assert(texts.take(i as int) == texts);
        if let Some(n) = self.max_concurrent {
            out.push('%');
            number::push_decimal(&mut out, n as u64);
        }
        assert(out@ == self@.text());
        out
    }
}

/// Reads a comma-separated list of entries.
fn parse_entries(list: &[char]) -> (r: Result<Vec<ArrayIndex>, SchemaParseError>)
    ensures
        match r {
            Ok(v) => ArraySpecView::parsed_entries(list@) == Ok::<Seq<ArrayIndex>, SchemaFault>(v@)
                && v.len() > 0 && forall|i: int| 0 <= i < v.len() ==> (#[trigger] v[i]).wf(),
            Err(e) => ArraySpecView::parsed_entries(list@) == Err::<Seq<ArrayIndex>, SchemaFault>(
                e@,
            ),
        },
{
    let parts = text::split(list, ',');
    let ghost texts = model::views(parts@);
    let ghost f = |p: Seq<char>| ArrayIndex::parsed(p);
    let mut out: Vec<ArrayIndex> = Vec::new();
    let mut i: usize = 0;
    while i < parts.len()
        invariant
            i <= parts.len(),
            texts == model::views(parts@),
            texts == model::split(list@, ','),
            f == (|p: Seq<char>| ArrayIndex::parsed(p)),
            out.len() == i,
            error::collect(texts.take(i as int), f) == Ok::<Seq<ArrayIndex>, SchemaFault>(out@),
            forall|k: int| 0 <= k < out.len() ==> (#[trigger] out[k]).wf(),
        decreases parts.len() - i,
    {
        proof {
            assert(texts.take(i + 1).drop_last() == texts.take(i as int));
            assert(texts.take(i + 1).last() == parts@[i as int]@);
        }
        match ArrayIndex::from_chars(parts[i]) {
            Ok(x) => {
                out.push(x);
            },
            Err(e) => {
                proof {
                    error::lemma_collect_err(texts, f, i + 1);
                }
                return Err(e);
            },
        }
        i = i + 1;
    }
    assert(texts.take(i as int) == texts);
    Ok(out)
}

impl std::str::FromStr for ArrayIndex {
    type Err = SchemaParseError;

    fn from_str(s: &str) -> (r: Result<Self, Self::Err>)
        ensures
            match r {
                Ok(x) => ArrayIndex::parsed(s@) == Ok::<ArrayIndex, SchemaFault>(x) && x.wf(),
                Err(e) => ArrayIndex::parsed(s@) == Err::<ArrayIndex, SchemaFault>(e@),
            },
    {
        ArrayIndex::from_str(s)
    }
}

impl<'a> std::convert::TryFrom<&'a str> for SlurmArraySpec {
    type Error = SchemaParseError;

    fn try_from(s: &'a str) -> (r: Result<SlurmArraySpec, SchemaParseError>)
        ensures
            match r {
                Ok(x) => ArraySpecView::parsed(s@) == Ok::<ArraySpecView, SchemaFault>(x@),
                Err(e) => ArraySpecView::parsed(s@) == Err::<ArraySpecView, SchemaFault>(e@),
            },
    {
        SlurmArraySpec::from_str(s)
    }
}

impl<'a> vstd::std_specs::convert::TryFromSpecImpl<&'a str> for SlurmArraySpec {
    open spec fn obeys_try_from_spec() -> bool {
        false
    }

    open spec fn try_from_spec(s: &'a str) -> Result<SlurmArraySpec, SchemaParseError> {
        arbitrary()
    }
}

impl std::convert::TryFrom<String> for SlurmArraySpec {
    type Error = SchemaParseError;

    fn try_from(s: String) -> (r: Result<SlurmArraySpec, SchemaParseError>)
        ensures
            match r {
                Ok(x) => ArraySpecView::parsed(s@) == Ok::<ArraySpecView, SchemaFault>(x@),
                Err(e) => ArraySpecView::parsed(s@) == Err::<ArraySpecView, SchemaFault>(e@),
            },
    {
        SlurmArraySpec::from_str(s.as_str())
    }
}

impl vstd::std_specs::convert::TryFromSpecImpl<String> for SlurmArraySpec {
    open spec fn obeys_try_from_spec() -> bool {
        false
    }

    open spec fn try_from_spec(s: String) -> Result<SlurmArraySpec, SchemaParseError> {
        arbitrary()
    }
}

impl std::str::FromStr for SlurmArraySpec {
    type Err = SchemaParseError;

    fn from_str(s: &str) -> (r: Result<Self, Self::Err>)
        ensures
            match r {
                Ok(x) => ArraySpecView::parsed(s@) == Ok::<ArraySpecView, SchemaFault>(x@)
                    && x@.wf(),
                Err(e) => ArraySpecView::parsed(s@) == Err::<ArraySpecView, SchemaFault>(e@),
            },
    {
        SlurmArraySpec::from_str(s)
    }
}

/// The text of a well-formed entry reads back as it.
pub proof fn law_array_index_round_trip(x: ArrayIndex)
    requires
        x.wf(),
    ensures
        ArrayIndex::parsed(x.text()) == Ok::<ArrayIndex, SchemaFault>(x),
        !x.text().contains(','),
        !x.text().contains('%'),
{
    let (a, b, c): (nat, nat, nat) = match x {
        ArrayIndex::Single(i) => (i as nat, 0, 0),
        ArrayIndex::Range { start, end } => (start as nat, end as nat, 0),
        ArrayIndex::Stepped { start, end, step } => (start as nat, end as nat, step as nat),
    };
    lemmas::lemma_decimal(a);
    lemmas::lemma_decimal(b);
    lemmas::lemma_decimal(c);
    let da = model::decimal(a);
    let db = model::decimal(b);
    let dc = model::decimal(c);
    lemmas::lemma_digits_without(da, '-');
    lemmas::lemma_digits_without(da, ':');
    lemmas::lemma_digits_without(db, ':');
    lemmas::lemma_digits_without(da, ',');
    lemmas::lemma_digits_without(db, ',');
    lemmas::lemma_digits_without(dc, ',');
    lemmas::lemma_digits_without(da, '%');
    lemmas::lemma_digits_without(db, '%');
    lemmas::lemma_digits_without(dc, '%');
    let range = da + seq!['-'] + db;
    lemmas::lemma_split_some(da, '-', db);
    match x {
        ArrayIndex::Single(_) => {
            lemmas::lemma_split_none(da, ':');
        },
        ArrayIndex::Range { .. } => {
            lemmas::lemma_split_none(range, ':');
            assert(range[da.len() as int] == '-');
        },
        ArrayIndex::Stepped { .. } => {
            lemmas::lemma_split_some(range, ':', dc);
        },
    }
}

/// The text of a well-formed spec reads back as it.
pub proof fn law_array_spec_round_trip(v: ArraySpecView)
    requires
        v.wf(),
    ensures
        ArraySpecView::parsed(v.text()) == Ok::<ArraySpecView, SchemaFault>(v),
{
    let texts = v.entry_texts();
    let list = model::join(texts, seq![',']);
    let f = |p: Seq<char>| ArrayIndex::parsed(p);
    assert forall|i: int| 0 <= i < texts.len() implies f(#[trigger] texts[i]) == Ok::<
        ArrayIndex,
        SchemaFault,
    >(v.indices[i]) && !texts[i].contains(',') && !texts[i].contains('%') by {
        law_array_index_round_trip(v.indices[i]);
    }
    lemmas::lemma_split_join(texts, ',');
    error::lemma_collect_ok(texts, f, v.indices);
    lemmas::lemma_join_without(texts, seq![','], '%');
    assert(list.len() > 0) by {
        if list.len() == 0 {
            assert(model::split(list, ',') == seq![list]);
            assert(texts[0].len() == 0);
            assert(v.indices[0].text().len() == 0);
            match v.indices[0] {
                ArrayIndex::Single(i) => lemmas::lemma_decimal(i as nat),
                _ => {},
            }
        }
    }
    match v.max_concurrent {
        Some(n) => {
            lemmas::lemma_decimal(n as nat);
            lemmas::lemma_split_some(list, '%', model::decimal(n as nat));
            assert(v.text() == list + seq!['%'] + model::decimal(n as nat));
        },
        None => {
            assert(v.text() == list);
            lemmas::lemma_split_none(list, '%');
        },
    }
}

/// An entry is read from a number, from two numbers with a hyphen between them that do not
/// fall, or from these with a colon and a positive step behind them.
pub proof fn law_array_entries_are_read(
    s: &str,
    r: Result<ArrayIndex, SchemaParseError>,
    a: Seq<char>,
    b: Seq<char>,
    c: Seq<char>,
)
    requires
        call_ensures(ArrayIndex::from_str, (s,), r),
        a.len() > 0 && model::all_digits(a) && model::digits_value(a) <= u32::MAX,
        b.len() > 0 && model::all_digits(b) && model::digits_value(b) <= u32::MAX,
        c.len() > 0 && model::all_digits(c) && model::digits_value(c) <= u32::MAX,
    ensures
        ({
            let (x, y, z) = (
                model::digits_value(a),
                model::digits_value(b),
                model::digits_value(c),
            );
            &&& s@ == a ==> (r matches Ok(ArrayIndex::Single(i)) && i == x)
            &&& s@ == a + seq!['-'] + b ==> if x <= y {
                r matches Ok(ArrayIndex::Range { start, end }) && start == x && end == y
            } else {
                r is Err
            }
            &&& s@ == a + seq!['-'] + b + seq![':'] + c ==> if x <= y && z > 0 {
                r matches Ok(ArrayIndex::Stepped { start, end, step }) && start == x && end == y
                    && step == z
            } else {
                r is Err
            }
        }),
        r matches Err(e) ==> (e matches SchemaParseError::ParseError { key, value } && key@
            == "array_spec/entry"@ && value@ == s@),
{
    assert(model::is_digit(a[0]) && model::is_digit(b[0]) && model::is_digit(c[0]));
    lemmas::lemma_digits_without(a, '-');
    lemmas::lemma_digits_without(a, ':');
    lemmas::lemma_digits_without(b, ':');
    lemmas::lemma_split_none(a, ':');
    lemmas::lemma_split_some(a, '-', b);
    let range = a + seq!['-'] + b;
    if range.contains(':') {
        let i = choose|i: int| 0 <= i < range.len() && range[i] == ':';
        if i < a.len() {
            assert(a[i] == ':');
        } else if i > a.len() {
            assert(b[i - a.len() - 1] == ':');
        }
    }
    assert(range[a.len() as int] == '-');
    lemmas::lemma_split_none(range, ':');
    lemmas::lemma_split_some(range, ':', c);
}

/// A spec is read from its entries, with commas between them, and, where it is there, a
/// percent sign and how many may run at once, which is positive.
pub proof fn law_array_specs_are_read(
    s: &str,
    r: Result<SlurmArraySpec, SchemaParseError>,
    list: Seq<char>,
    cap: Option<Seq<char>>,
    i: int,
)
    requires
        call_ensures(SlurmArraySpec::from_str, (s,), r),
        !list.contains('%'),
        s@ == list + (match cap {
            Some(c) => seq!['%'] + c,
            None => Seq::empty(),
        }),
        0 <= i < model::split(list, ',').len(),
    ensures
        ({
            let parts = model::split(list, ',');
            let n = match cap {
                Some(c) => model::parse_uint(c, u32::MAX as nat),
                None => None,
            };
            let capped = cap is Some ==> n is Some && n->0 > 0;
            &&& r matches Ok(x) ==> {
                &&& list.len() > 0
                &&& capped
                &&& x.indices@.len() == parts.len()
                &&& ArrayIndex::parsed(parts[i]) == Ok::<ArrayIndex, SchemaFault>(x.indices@[i])
                &&& cap is None <==> x.max_concurrent is None
                &&& cap is Some ==> x.max_concurrent->0 == n->0
            }
            &&& list.len() == 0 || !capped ==> (r matches Err(
                SchemaParseError::ParseError { key, value },
            ) && key@ == "array_spec"@ && value@ == s@)
            &&& list.len() > 0 && capped && (forall|k: int|
                0 <= k < i ==> ArrayIndex::parsed(#[trigger] parts[k]) is Ok)
                && ArrayIndex::parsed(parts[i]) is Err ==> (r matches Err(
                SchemaParseError::ParseError { key, value },
            ) && key@ == "array_spec/entry"@ && value@ == parts[i])
            &&& list.len() > 0 && capped && (forall|k: int|
                0 <= k < parts.len() ==> ArrayIndex::parsed(#[trigger] parts[k]) is Ok) ==> r is Ok
        }),
{
    let parts = model::split(list, ',');
    let f = |p: Seq<char>| ArrayIndex::parsed(p);
    match cap {
        Some(c) => {
            assert(s@ == list + seq!['%'] + c);
            lemmas::lemma_split_some(list, '%', c);
        },
        None => {
            assert(s@ == list);
            lemmas::lemma_split_none(list, '%');
        },
    }
    error::lemma_collect_parts(parts, f);
    if (forall|k: int| 0 <= k < i ==> ArrayIndex::parsed(#[trigger] parts[k]) is Ok)
        && ArrayIndex::parsed(parts[i]) is Err {
        assert forall|k: int| 0 <= k < i implies f(#[trigger] parts[k]) is Ok by {}
        error::lemma_collect_first_err(parts, f, i);
    }
    if forall|k: int| 0 <= k < parts.len() ==> ArrayIndex::parsed(#[trigger] parts[k]) is Ok {
        let xs = Seq::new(parts.len(), |k: int| f(parts[k])->Ok_0);
        assert forall|k: int| 0 <= k < parts.len() implies f(#[trigger] parts[k]) == Ok::<
            ArrayIndex,
            SchemaFault,
        >(xs[k]) by {
            assert(ArrayIndex::parsed(parts[k]) is Ok);
        }
        error::lemma_collect_ok(parts, f, xs);
    }
    if let Ok(x) = r {
        assert(f(parts[i]) == Ok::<ArrayIndex, SchemaFault>(x@.indices[i]));
    }
}

/// An entry is shown as it is read, and a spec as its entries with commas between them and,
/// where there is one, the cap behind a percent sign.
pub proof fn law_array_specs_are_shown(
    x: ArrayIndex,
    shown: String,
    spec: SlurmArraySpec,
    r: String,
    i: int,
)
    requires
        call_ensures(ArrayIndex::to_string, (&x,), shown),
        call_ensures(SlurmArraySpec::to_string, (&spec,), r),
        0 <= i < spec.indices@.len(),
        spec.indices@[i] == x,
    ensures
        shown@ == match x {
            ArrayIndex::Single(i) => model::decimal(i as nat),
            ArrayIndex::Range { start, end } => model::decimal(start as nat) + seq!['-']
                + model::decimal(end as nat),
            ArrayIndex::Stepped { start, end, step } => model::decimal(start as nat) + seq!['-']
                + model::decimal(end as nat) + seq![':'] + model::decimal(step as nat),
        },
        ({
            let (list, cap) = match spec.max_concurrent {
                Some(n) => (
                    model::split(r@, '%')[0],
                    model::split(r@, '%') == seq![
                        model::split(r@, '%')[0],
                        model::decimal(n as nat),
                    ],
                ),
                None => (r@, true),
            };
            &&& cap
            &&& model::split(list, ',').len() == spec.indices@.len()
            &&& model::split(list, ',')[i] == shown@
        }),
{
    let texts = spec@.entry_texts();
    assert forall|k: int| 0 <= k < texts.len() implies !(#[trigger] texts[k]).contains(',')
        && !texts[k].contains('%') by {
        lemma_entry_plain(spec.indices@[k], ',');
        lemma_entry_plain(spec.indices@[k], '%');
    }
    lemmas::lemma_split_join(texts, ',');
    lemmas::lemma_join_without(texts, seq![','], '%');
    let list = model::join(texts, seq![',']);
    if let Some(n) = spec.max_concurrent {
        lemmas::lemma_decimal(n as nat);
        lemmas::lemma_digits_without(model::decimal(n as nat), '%');
        assert(r@ == list + seq!['%'] + model::decimal(n as nat));
        lemmas::lemma_split_some(list, '%', model::decimal(n as nat));
        lemmas::lemma_split_none(model::decimal(n as nat), '%');
        assert(model::split(r@, '%') == seq![list, model::decimal(n as nat)]);
        assert(model::split(r@, '%')[0] == list);
    } else {
        assert(r@ == list);
    }
    assert(texts[i] == shown@);
}

/// The text of an entry has digits, hyphens and colons alone.
proof fn lemma_entry_plain(x: ArrayIndex, c: char)
    requires
        !model::is_digit(c),
        c != '-',
        c != ':',
    ensures
        !x.text().contains(c),
{
    let t = x.text();
    let (a, b, d) = match x {
        ArrayIndex::Single(i) => (i, 0u32, 0u32),
        ArrayIndex::Range { start, end } => (start, end, 0u32),
        ArrayIndex::Stepped { start, end, step } => (start, end, step),
    };
    lemmas::lemma_decimal(a as nat);
    lemmas::lemma_decimal(b as nat);
    lemmas::lemma_decimal(d as nat);
    let (p, q, w) = (model::decimal(a as nat), model::decimal(b as nat), model::decimal(d as nat));
    lemmas::lemma_digits_without(p, c);
    lemmas::lemma_digits_without(q, c);
    lemmas::lemma_digits_without(w, c);
    if t.contains(c) {
        let i = choose|i: int| 0 <= i < t.len() && t[i] == c;
        if i < p.len() {
            assert(p[i] == c);
        } else if i > p.len() && i < p.len() + 1 + q.len() {
            assert(q[i - p.len() - 1] == c);
        } else if i > p.len() + 1 + q.len() {
            assert(w[i - p.len() - q.len() - 2] == c);
        }
    }
}

/// However the text is handed over, it is read in the same way.
pub proof fn law_array_spec_conversions_agree(
    s: &str,
    r: Result<SlurmArraySpec, SchemaParseError>,
    q: Result<SlurmArraySpec, SchemaParseError>,
    w: Result<SlurmArraySpec, SchemaParseError>,
    owned: String,
)
    requires
        call_ensures(SlurmArraySpec::from_str, (s,), r),
        call_ensures(<SlurmArraySpec as std::convert::TryFrom<&str>>::try_from, (s,), q),
        call_ensures(<SlurmArraySpec as std::convert::TryFrom<String>>::try_from, (owned,), w),
        owned@ == s@,
    ensures
        r is Ok <==> q is Ok,
        r is Ok ==> r->Ok_0@ == q->Ok_0@,
        r is Err ==> r->Err_0@ == q->Err_0@,
        r is Ok <==> w is Ok,
        r is Ok ==> r->Ok_0@ == w->Ok_0@,
        r is Err ==> r->Err_0@ == w->Err_0@,
{
}

} // verus!
