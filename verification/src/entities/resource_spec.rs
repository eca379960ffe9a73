//! `--rsc` resource list of a SLURM batch submission.
//!
//! ```text
//!   CPU:  any of "p=<count>", "t=<count>", "c=<count>", "m=<memory>", with ":" between
//!   GPU:  "g=<count>"
//! ```
//!
//! A `g=` token selects the GPU flavour and admits no other. The order of the
//! tokens does not matter; the text form puts them in the order shown.
use crate::error::{parse_error, SchemaFault, SchemaParseError};
use crate::positive::PositiveU32;
use crate::text;
use crate::text::lemmas;
use crate::text::model;
use crate::text::number;
use vstd::prelude::*;
use vstd::seq_lib;
use vstd::slice::slice_subrange;

verus! {

/// Suffix of a memory size. A number without one counts in mebibytes.
#[derive(Debug, Clone, Copy, PartialEq, Eq, Structural, Hash)]
pub enum MemoryUnit {
    /// `K`: kibibytes.
    Kilo,
    /// `M`: mebibytes.
    Mega,
    /// `G`: gibibytes.
    Giga,
    /// `T`: tebibytes.
    Tera,
}

impl MemoryUnit {
    /// The suffix.
    pub open spec fn suffix(self) -> char {
        match self {
            MemoryUnit::Kilo => 'K',
            MemoryUnit::Mega => 'M',
            MemoryUnit::Giga => 'G',
            MemoryUnit::Tera => 'T',
        }
    }

    /// The suffix.
    pub fn as_char(self) -> (r: char)
        ensures
            r == self.suffix(),
    {
        match self {
            MemoryUnit::Kilo => 'K',
            MemoryUnit::Mega => 'M',
            MemoryUnit::Giga => 'G',
            MemoryUnit::Tera => 'T',
        }
    }

    /// The unit with that suffix.
    pub fn from_char(c: char) -> (r: Option<MemoryUnit>)
        ensures
            match r {
                Some(u) => u.suffix() == c,
                None => forall|u: MemoryUnit| u.suffix() != c,
            },
    {
        match c {
            'K' => Some(MemoryUnit::Kilo),
            'M' => Some(MemoryUnit::Mega),
            'G' => Some(MemoryUnit::Giga),
            'T' => Some(MemoryUnit::Tera),
            _ => None,
        }
    }
}

/// A memory size.
#[derive(Debug, Clone, Copy, PartialEq, Eq, Hash)]
pub struct Memory {
    pub value: PositiveU32,
    pub unit: MemoryUnit,
}

/// What a `Memory` holds.
pub struct MemoryView {
    pub value: u32,
    pub unit: MemoryUnit,
}

impl View for Memory {
    type V = MemoryView;

    open spec fn view(&self) -> MemoryView {
        MemoryView { value: self.value@, unit: self.unit }
    }
}

/// A positive count.
pub open spec fn count(s: Seq<char>) -> Option<u32> {
    match model::parse_uint(s, u32::MAX as nat) {
        Some(n) => if n > 0 {
            Some(n as u32)
        } else {
            None
        },
        None => None,
    }
}

impl MemoryView {
    /// The text of the size.
    pub open spec fn text(self) -> Seq<char> {
        model::decimal(self.value as nat).push(self.unit.suffix())
    }

    /// The size that `s` spells: a count, then a suffix or none.
    pub open spec fn read(s: Seq<char>) -> Option<MemoryView> {
        if s.len() == 0 {
            None
        } else if model::is_digit(s.last()) {
            match count(s) {
                Some(value) => Some(MemoryView { value, unit: MemoryUnit::Mega }),
                None => None,
            }
        } else if exists|u: MemoryUnit| u.suffix() == s.last() {
            match count(s.drop_last()) {
                Some(value) => Some(
                    MemoryView { value, unit: choose|u: MemoryUnit| u.suffix() == s.last() },
                ),
                None => None,
            }
        } else {
            None
        }
    }

    /// The size that `s` spells, or the fault.
    pub open spec fn parsed(s: Seq<char>) -> Result<MemoryView, SchemaFault> {
        match Self::read(s) {
            Some(x) => Ok(x),
            None => Err(SchemaFault::ParseError { key: "resource_spec/m"@, value: s }),
        }
    }
}

/// Reads a positive count.
fn read_count(s: &[char]) -> (r: Option<PositiveU32>)
    ensures
        match r {
            Some(n) => count(s@) == Some(n@),
            None => count(s@) is None,
        },
{
    match number::parse_u32(s) {
        Some(n) => PositiveU32::new(n),
        None => None,
    }
}

impl Memory {
    /// Reads a size from its characters.
    pub fn from_chars(s: &[char]) -> (r: Result<Memory, SchemaParseError>)
        ensures
            match r {
                Ok(x) => MemoryView::parsed(s@) == Ok::<MemoryView, SchemaFault>(x@),
                Err(e) => MemoryView::parsed(s@) == Err::<MemoryView, SchemaFault>(e@),
            },
    {
        if s.len() == 0 {
            return Err(parse_error("resource_spec/m", s));
        }
        let last = s[s.len() - 1];
        let (digits, unit): (&[char], MemoryUnit) = if number::is_digit(last) {
            (s, MemoryUnit::Mega)
        } else {
            match MemoryUnit::from_char(last) {
                Some(u) => {
                    let d = slice_subrange(s, 0, s.len() - 1);
                    assert(d@ == s@.drop_last());
                    assert(u.suffix() == s@.last());
                    (d, u)
                },
                None => {
                    return Err(parse_error("resource_spec/m", s));
                },
            }
        };
        match read_count(digits) {
            Some(value) => Ok(Memory { value, unit }),
            None => Err(parse_error("resource_spec/m", s)),
        }
    }

    /// Reads a size.
    pub fn from_str(s: &str) -> (r: Result<Memory, SchemaParseError>)
        ensures
            match r {
                Ok(x) => MemoryView::parsed(s@) == Ok::<MemoryView, SchemaFault>(x@),
                Err(e) => MemoryView::parsed(s@) == Err::<MemoryView, SchemaFault>(e@),
            },
    {
        let cs = text::chars_of(s);
        Self::from_chars(cs.as_slice())
    }

    /// Appends the text of the size.
    pub fn push_to(&self, out: &mut String)
        ensures
            final(out)@ == old(out)@ + self@.text(),
    {
        number::push_decimal(out, self.value.get() as u64);
        out.push(self.unit.as_char());
        assert(out@ == old(out)@ + self@.text());
    }

    /// The text of the size.
    pub fn to_string(&self) -> (r: String)
        ensures
            r@ == self@.text(),
    {
        let mut out = String::new();
        self.push_to(&mut out);
        out
    }
}

/// CPU flavour: each part may be left to the system's default.
#[derive(Debug, Clone, PartialEq, Eq)]
pub struct ResourceSpecCPU {
    /// `p=`: number of processes.
    pub p: Option<PositiveU32>,
    /// `t=`: threads per process.
    pub t: Option<PositiveU32>,
    /// `c=`: cores per process.
    pub c: Option<PositiveU32>,
    /// `m=`: memory.
    pub m: Option<Memory>,
}

/// GPU flavour.
#[derive(Debug, Clone, PartialEq, Eq)]
pub struct ResourceSpecGPU {
    /// `g=`: number of GPUs.
    pub g: PositiveU32,
}

/// What to request for a job.
#[derive(Debug, Clone, PartialEq, Eq)]
pub enum ResourceSpec {
    CPU(ResourceSpecCPU),
    GPU(ResourceSpecGPU),
}

/// What a `ResourceSpecCPU` holds.
pub struct CpuView {
    pub p: Option<u32>,
    pub t: Option<u32>,
    pub c: Option<u32>,
    pub m: Option<MemoryView>,
}

/// What a `ResourceSpec` holds.
pub enum ResourceView {
    CPU(CpuView),
    GPU { g: u32 },
}

/// The number behind a count, where there is one.
pub open spec fn opt_count(x: Option<PositiveU32>) -> Option<u32> {
    match x {
        Some(n) => Some(n@),
        None => None,
    }
}

/// The size, where there is one.
pub open spec fn opt_memory(x: Option<Memory>) -> Option<MemoryView> {
    match x {
        Some(m) => Some(m@),
        None => None,
    }
}

impl View for ResourceSpecCPU {
    type V = CpuView;

    open spec fn view(&self) -> CpuView {
        CpuView {
            p: opt_count(self.p),
            t: opt_count(self.t),
            c: opt_count(self.c),
            m: opt_memory(self.m),
        }
    }
}

impl View for ResourceSpec {
    type V = ResourceView;

    open spec fn view(&self) -> ResourceView {
        match *self {
            ResourceSpec::CPU(c) => ResourceView::CPU(c@),
            ResourceSpec::GPU(g) => ResourceView::GPU { g: g.g@ },
        }
    }
}

impl Default for ResourceSpecCPU {
    fn default() -> (r: ResourceSpecCPU)
        ensures
            r == (ResourceSpecCPU { p: None, t: None, c: None, m: None }),
    {
        ResourceSpecCPU { p: None, t: None, c: None, m: None }
    }
}

/// The values collected from the tokens so far.
pub struct Tally {
    pub p: Option<u32>,
    pub t: Option<u32>,
    pub c: Option<u32>,
    pub m: Option<MemoryView>,
    pub g: Option<u32>,
}

impl Tally {
    /// Nothing collected.
    pub open spec fn empty() -> Tally {
        Tally { p: None, t: None, c: None, m: None, g: None }
    }

    /// The tally with one token more. A token that is not `key=value`, an unknown
    /// key and a key that was there before are faults of the whole text; a bad
    /// count is a fault of its key, a bad memory size a fault of that size.
    pub open spec fn with(self, token: Seq<char>, whole: Seq<char>) -> Result<Tally, SchemaFault> {
        let fault = SchemaFault::ParseError { key: "resource_spec"@, value: whole };
        match model::split_once(token, '=') {
            None => Err(fault),
            Some((key, value)) => if value.len() == 0 {
                Err(fault)
            } else if key == seq!['p'] && self.p is None {
                match count(value) {
                    Some(n) => Ok(Tally { p: Some(n), ..self }),
                    None => Err(count_fault('p', whole)),
                }
            } else if key == seq!['t'] && self.t is None {
                match count(value) {
                    Some(n) => Ok(Tally { t: Some(n), ..self }),
                    None => Err(count_fault('t', whole)),
                }
            } else if key == seq!['c'] && self.c is None {
                match count(value) {
                    Some(n) => Ok(Tally { c: Some(n), ..self }),
                    None => Err(count_fault('c', whole)),
                }
            } else if key == seq!['m'] && self.m is None {
                match MemoryView::parsed(value) {
                    Ok(m) => Ok(Tally { m: Some(m), ..self }),
                    Err(e) => Err(e),
                }
            } else if key == seq!['g'] && self.g is None {
                match count(value) {
                    Some(n) => Ok(Tally { g: Some(n), ..self }),
                    None => Err(count_fault('g', whole)),
                }
            } else {
                Err(fault)
            },
        }
    }

    /// The tally of all tokens; the first token with a fault decides.
    pub open spec fn of(tokens: Seq<Seq<char>>, whole: Seq<char>) -> Result<Tally, SchemaFault>
        decreases tokens.len(),
    {
        if tokens.len() == 0 {
            Ok(Tally::empty())
        } else {
            match Self::of(tokens.drop_last(), whole) {
                Ok(t) => t.with(tokens.last(), whole),
                Err(e) => Err(e),
            }
        }
    }

    /// The flavour that the tally makes: GPUs alone, or at least one of the rest.
    pub open spec fn flavour(self) -> Option<ResourceView> {
        let Tally { p, t, c, m, g } = self;
        let cpu = p is Some || t is Some || c is Some || m is Some;
        match g {
            Some(g) => if cpu {
                None
            } else {
                Some(ResourceView::GPU { g })
            },
            None => if cpu {
                Some(ResourceView::CPU(CpuView { p, t, c, m }))
            } else {
                None
            },
        }
    }
}

/// The fault for a bad count.
pub open spec fn count_fault(key: char, whole: Seq<char>) -> SchemaFault {
    SchemaFault::ParseError { key: "resource_spec/"@ + seq![key], value: whole }
}

impl ResourceView {
    /// Counts are positive.
    pub open spec fn wf(self) -> bool {
        match self {
            ResourceView::CPU(CpuView { p, t, c, m }) => {
                &&& p is Some ==> p->0 > 0
                &&& t is Some ==> t->0 > 0
                &&& c is Some ==> c->0 > 0
                &&& m is Some ==> m->0.value > 0
            },
            ResourceView::GPU { g } => g > 0,
        }
    }

    /// The tokens of the text form.
    pub open spec fn tokens(self) -> Seq<Seq<char>> {
        match self {
            ResourceView::CPU(c) => count_token('p', c.p) + count_token('t', c.t) + count_token(
                'c',
                c.c,
            ) + memory_token(c.m),
            ResourceView::GPU { g } => count_token('g', Some(g)),
        }
    }

    /// The text of the request.
    pub open spec fn text(self) -> Seq<char> {
        model::join(self.tokens(), seq![':'])
    }

    /// The request that `s` spells.
    pub open spec fn parsed(s: Seq<char>) -> Result<ResourceView, SchemaFault> {
        let fault = SchemaFault::ParseError { key: "resource_spec"@, value: s };
        if s.len() == 0 {
            Err(fault)
        } else {
            match Tally::of(model::split(s, ':'), s) {
                Ok(t) => match t.flavour() {
                    Some(r) => Ok(r),
                    None => Err(fault),
                },
                Err(e) => Err(e),
            }
        }
    }
}

/// `key=count`, where there is a count.
pub open spec fn count_token(key: char, n: Option<u32>) -> Seq<Seq<char>> {
    match n {
        Some(n) => seq![seq![key, '='] + model::decimal(n as nat)],
        None => Seq::empty(),
    }
}

/// `m=size`, where there is a size.
pub open spec fn memory_token(m: Option<MemoryView>) -> Seq<Seq<char>> {
    match m {
        Some(m) => seq![seq!['m', '='] + m.text()],
        None => Seq::empty(),
    }
}

/// Reads the count of a key.
pub fn parse_count(key: char, raw: &[char], original: &[char]) -> (r: Result<
    PositiveU32,
    SchemaParseError,
>)
    ensures
        match r {
            Ok(n) => count(raw@) == Some(n@),
            Err(e) => count(raw@) is None && e@ == count_fault(key, original@),
        },
{
    match read_count(raw) {
        Some(n) => Ok(n),
        None => {
            let mut path = "resource_spec/".to_owned();
            path.push(key);
            assert(path@ == "resource_spec/"@ + seq![key]);
            Err(SchemaParseError::ParseError { key: path, value: text::string_of(original) })
        },
    }
}

/// The values collected from the tokens so far.
struct Collected {
    p: Option<PositiveU32>,
    t: Option<PositiveU32>,
    c: Option<PositiveU32>,
    m: Option<Memory>,
    g: Option<PositiveU32>,
}

impl Collected {
    spec fn tally(self) -> Tally {
        Tally {
            p: opt_count(self.p),
            t: opt_count(self.t),
            c: opt_count(self.c),
            m: opt_memory(self.m),
            g: opt_count(self.g),
        }
    }

    /// Takes one token more.
    fn with(self, token: &[char], whole: &[char]) -> (r: Result<Collected, SchemaParseError>)
        ensures
            match r {
                Ok(x) => self.tally().with(token@, whole@) == Ok::<Tally, SchemaFault>(x.tally()),
                Err(e) => self.tally().with(token@, whole@) == Err::<Tally, SchemaFault>(e@),
            },
    {
        let (key, value) = match text::split_once(token, '=') {
            Some(kv) => kv,
            None => {
                return Err(parse_error("resource_spec", whole));
            },
        };
        if key.len() != 1 || value.len() == 0 {
            return Err(parse_error("resource_spec", whole));
        }
        let k = key[0];
        assert(key@ == seq![k]);
        assert(forall|x: char| seq![x] == seq![k] ==> seq![x][0] == seq![k][0]);
        let mut me = self;
        if k == 'p' && me.p.is_none() {
            match parse_count(k, value, whole) {
                Ok(n) => {
                    me.p = Some(n);
                    Ok(me)
                },
                Err(e) => Err(e),
            }
        } else if k == 't' && me.t.is_none() {
            match parse_count(k, value, whole) {
                Ok(n) => {
                    me.t = Some(n);
                    Ok(me)
                },
                Err(e) => Err(e),
            }
        } else if k == 'c' && me.c.is_none() {
            match parse_count(k, value, whole) {
                Ok(n) => {
                    me.c = Some(n);
                    Ok(me)
                },
                Err(e) => Err(e),
            }
        } else if k == 'm' && me.m.is_none() {
            match Memory::from_chars(value) {
                Ok(n) => {
                    me.m = Some(n);
                    Ok(me)
                },
                Err(e) => Err(e),
            }
        } else if k == 'g' && me.g.is_none() {
            match parse_count(k, value, whole) {
                Ok(n) => {
                    me.g = Some(n);
                    Ok(me)
                },
                Err(e) => Err(e),
            }
        } else {
            Err(parse_error("resource_spec", whole))
        }
    }
}

/// A token with a fault decides over all that follow it.
proof fn lemma_tally_err(tokens: Seq<Seq<char>>, whole: Seq<char>, n: int)
    requires
        0 <= n <= tokens.len(),
        Tally::of(tokens.take(n), whole) is Err,
    ensures
        Tally::of(tokens, whole) == Tally::of(tokens.take(n), whole),
    decreases tokens.len() - n,
{
    if n < tokens.len() {
        assert(tokens.take(n + 1).drop_last() == tokens.take(n));
        lemma_tally_err(tokens, whole, n + 1);
    } else {
        assert(tokens.take(n) == tokens);
    }
}

impl ResourceSpec {
    /// Reads a request.
    pub fn from_str(s: &str) -> (r: Result<ResourceSpec, SchemaParseError>)
        ensures
            match r {
                Ok(x) => ResourceView::parsed(s@) == Ok::<ResourceView, SchemaFault>(x@),
                Err(e) => ResourceView::parsed(s@) == Err::<ResourceView, SchemaFault>(e@),
            },
    {
        let whole = text::chars_of(s);
        let cs = whole.as_slice();
        if cs.len() == 0 {
            return Err(parse_error("resource_spec", cs));
        }
        let tokens = text::split(cs, ':');
        let ghost texts = model::views(tokens@);
        let mut got = Collected { p: None, t: None, c: None, m: None, g: None };
        let mut i: usize = 0;
        while i < tokens.len()
            invariant
                i <= tokens.len(),
                cs@ == s@,
                s@.len() > 0,
                texts == model::views(tokens@),
                texts == model::split(cs@, ':'),
                Tally::of(texts.take(i as int), cs@) == Ok::<Tally, SchemaFault>(got.tally()),
            decreases tokens.len() - i,
        {
            proof {
                assert(texts.take(i + 1).drop_last() == texts.take(i as int));
                assert(texts.take(i + 1).last() == tokens@[i as int]@);
            }
            match got.with(tokens[i], cs) {
                Ok(x) => {
                    got = x;
                },
                Err(e) => {
                    proof {
                        lemma_tally_err(texts, cs@, i + 1);
                    }
                    return Err(e);
                },
            }
            i = i + 1;
        }
        assert(texts.take(i as int) == texts);
        let Collected { p, t, c, m, g } = got;
        let cpu = p.is_some() || t.is_some() || c.is_some() || m.is_some();
        match g {
            Some(g) => if cpu {
                Err(parse_error("resource_spec", cs))
            } else {
                Ok(ResourceSpec::GPU(ResourceSpecGPU { g }))
            },
            None => if cpu {
                Ok(ResourceSpec::CPU(ResourceSpecCPU { p, t, c, m }))
            } else {
                Err(parse_error("resource_spec", cs))
            },
        }
    }

    /// The text of the request; empty where nothing is requested.
    pub fn to_string(&self) -> (r: String)
        ensures
            r@ == self@.text(),
    {
        let mut out = String::new();
        let ghost sep = seq![':'];
        match self {
            ResourceSpec::CPU(c) => {
                let t0 = push_count(&mut out, false, 'p', c.p, Ghost(Seq::empty()));
                let ghost s0 = count_token('p', opt_count(c.p));
                assert(Seq::<Seq<char>>::empty() + s0 == s0);
                let t1 = push_count(&mut out, t0, 't', c.t, Ghost(s0));
                let ghost s1 = s0 + count_token('t', opt_count(c.t));
                let t2 = push_count(&mut out, t1, 'c', c.c, Ghost(s1));
                let ghost s2 = s1 + count_token('c', opt_count(c.c));
                if let Some(m) = c.m {
                    proof {
                        lemmas::lemma_join_push(s2, sep, seq!['m', '='] + m@.text());
                        assert(s2 + memory_token(Some(m@)) == s2.push(seq!['m', '='] + m@.text()));
                    }
                    if t2 {
                        out.push(':');
                    }
                    out.push('m');
                    out.push('=');
                    m.push_to(&mut out);
                    assert(out@ == model::join(s2 + memory_token(Some(m@)), sep));
                } else {
                    assert(s2 + memory_token(None) == s2);
                }
            },
            ResourceSpec::GPU(g) => {
                let some = push_count(&mut out, false, 'g', Some(g.g), Ghost(Seq::empty()));
                assert(Seq::<Seq<char>>::empty() + count_token('g', Some(g.g@)) == count_token(
                    'g',
                    Some(g.g@),
                ));
            },
        }
        out
    }
}

/// Appends `key=count` to a list of tokens, and says whether the list now has any.
fn push_count(
    out: &mut String,
    some: bool,
    key: char,
    n: Option<PositiveU32>,
    Ghost(before): Ghost<Seq<Seq<char>>>,
) -> (r: bool)
    requires
        some == (before.len() > 0),
        old(out)@ == model::join(before, seq![':']),
    ensures
        final(out)@ == model::join(before + count_token(key, opt_count(n)), seq![':']),
        r == ((before + count_token(key, opt_count(n))).len() > 0),
{
    match n {
        Some(n) => {
            proof {
                let token = seq![key, '='] + model::decimal(n@ as nat);
                lemmas::lemma_join_push(before, seq![':'], token);
                assert(before + count_token(key, Some(n@)) == before.push(token));
            }
            if some {
                out.push(':');
            }
            out.push(key);
            out.push('=');
            number::push_decimal(out, n.get() as u64);
            assert(out@ == model::join(before + count_token(key, Some(n@)), seq![':']));
            true
        },
        None => {
            assert(before + count_token(key, None) == before);
            some
        },
    }
}

impl std::str::FromStr for Memory {
    type Err = SchemaParseError;

    fn from_str(s: &str) -> (r: Result<Self, Self::Err>)
        ensures
            match r {
                Ok(x) => MemoryView::parsed(s@) == Ok::<MemoryView, SchemaFault>(x@),
                Err(e) => MemoryView::parsed(s@) == Err::<MemoryView, SchemaFault>(e@),
            },
    {
        Memory::from_str(s)
    }
}

impl<'a> std::convert::TryFrom<&'a str> for ResourceSpec {
    type Error = SchemaParseError;

    fn try_from(s: &'a str) -> (r: Result<ResourceSpec, SchemaParseError>)
        ensures
            match r {
                Ok(x) => ResourceView::parsed(s@) == Ok::<ResourceView, SchemaFault>(x@),
                Err(e) => ResourceView::parsed(s@) == Err::<ResourceView, SchemaFault>(e@),
            },
    {
        ResourceSpec::from_str(s)
    }
}

impl<'a> vstd::std_specs::convert::TryFromSpecImpl<&'a str> for ResourceSpec {
    open spec fn obeys_try_from_spec() -> bool {
        false
    }

    open spec fn try_from_spec(s: &'a str) -> Result<ResourceSpec, SchemaParseError> {
        arbitrary()
    }
}

impl std::convert::TryFrom<String> for ResourceSpec {
    type Error = SchemaParseError;

    fn try_from(s: String) -> (r: Result<ResourceSpec, SchemaParseError>)
        ensures
            match r {
                Ok(x) => ResourceView::parsed(s@) == Ok::<ResourceView, SchemaFault>(x@),
                Err(e) => ResourceView::parsed(s@) == Err::<ResourceView, SchemaFault>(e@),
            },
    {
        ResourceSpec::from_str(s.as_str())
    }
}

impl vstd::std_specs::convert::TryFromSpecImpl<String> for ResourceSpec {
    open spec fn obeys_try_from_spec() -> bool {
        false
    }

    open spec fn try_from_spec(s: String) -> Result<ResourceSpec, SchemaParseError> {
        arbitrary()
    }
}

impl std::str::FromStr for ResourceSpec {
    type Err = SchemaParseError;

    fn from_str(s: &str) -> (r: Result<Self, Self::Err>)
        ensures
            match r {
                Ok(x) => ResourceView::parsed(s@) == Ok::<ResourceView, SchemaFault>(x@),
                Err(e) => ResourceView::parsed(s@) == Err::<ResourceView, SchemaFault>(e@),
            },
    {
        ResourceSpec::from_str(s)
    }
}

/// The text of a size reads back as it.
pub proof fn law_memory_round_trip(m: MemoryView)
    requires
        m.value > 0,
    ensures
        MemoryView::parsed(m.text()) == Ok::<MemoryView, SchemaFault>(m),
        !m.text().contains(':'),
{
    let d = model::decimal(m.value as nat);
    lemmas::lemma_decimal(m.value as nat);
    lemmas::lemma_digits_without(d, ':');
    assert(m.text().drop_last() == d);
    assert(m.unit.suffix() == m.text().last());
    let u = choose|u: MemoryUnit| u.suffix() == m.text().last();
    assert(u == m.unit);
}

/// One count token more.
proof fn lemma_count_token(key: char, n: u32)
    requires
        n > 0,
        key != '=',
        key != ':',
    ensures
        ({
            let token = seq![key, '='] + model::decimal(n as nat);
            &&& model::split_once(token, '=') == Some((seq![key], model::decimal(n as nat)))
            &&& count(model::decimal(n as nat)) == Some(n)
            &&& model::decimal(n as nat).len() > 0
            &&& !token.contains(':')
        }),
{
    let d = model::decimal(n as nat);
    lemmas::lemma_decimal(n as nat);
    lemmas::lemma_digits_without(d, ':');
    assert(seq![key, '='] + d == seq![key] + seq!['='] + d);
    lemmas::lemma_split_some(seq![key], '=', d);
}

/// The tally of a list with one token more.
proof fn lemma_tally_push(before: Seq<Seq<char>>, token: Seq<char>, whole: Seq<char>, t: Tally)
    requires
        Tally::of(before, whole) == Ok::<Tally, SchemaFault>(t),
    ensures
        Tally::of(before + seq![token], whole) == t.with(token, whole),
{
    assert((before + seq![token]).drop_last() == before);
    assert((before + seq![token]).last() == token);
}

/// What the token of a key that is not there yet adds.
proof fn lemma_with_count(t: Tally, key: char, n: u32, whole: Seq<char>)
    requires
        n > 0,
    ensures
        ({
            let token = seq![key, '='] + model::decimal(n as nat);
            &&& key == 'p' && t.p is None ==> t.with(token, whole) == Ok::<Tally, SchemaFault>(
                Tally { p: Some(n), ..t },
            )
            &&& key == 't' && t.t is None ==> t.with(token, whole) == Ok::<Tally, SchemaFault>(
                Tally { t: Some(n), ..t },
            )
            &&& key == 'c' && t.c is None ==> t.with(token, whole) == Ok::<Tally, SchemaFault>(
                Tally { c: Some(n), ..t },
            )
            &&& key == 'g' && t.g is None ==> t.with(token, whole) == Ok::<Tally, SchemaFault>(
                Tally { g: Some(n), ..t },
            )
        }),
{
    if key != '=' && key != ':' {
        lemma_count_token(key, n);
        assert(seq![key][0] == key);
        assert(seq!['p'][0] == 'p');
        assert(seq!['t'][0] == 't');
        assert(seq!['c'][0] == 'c');
        assert(seq!['m'][0] == 'm');
        assert(seq!['g'][0] == 'g');
    }
}

/// What the token of a size adds.
proof fn lemma_with_memory(t: Tally, m: MemoryView, whole: Seq<char>)
    requires
        m.value > 0,
        t.m is None,
    ensures
        t.with(seq!['m', '='] + m.text(), whole) == Ok::<Tally, SchemaFault>(
            Tally { m: Some(m), ..t },
        ),
{
    law_memory_round_trip(m);
    assert(seq!['m', '='] + m.text() == seq!['m'] + seq!['='] + m.text());
    lemmas::lemma_split_some(seq!['m'], '=', m.text());
    assert(seq!['p'][0] == 'p');
    assert(seq!['t'][0] == 't');
    assert(seq!['c'][0] == 'c');
    assert(seq!['m'][0] == 'm');
}

/// The tally of the tokens of the text form.
proof fn lemma_tokens_tally(v: ResourceView, whole: Seq<char>)
    requires
        v.wf(),
    ensures
        Tally::of(v.tokens(), whole) == Ok::<Tally, SchemaFault>(
            match v {
                ResourceView::CPU(c) => Tally { p: c.p, t: c.t, c: c.c, m: c.m, g: None },
                ResourceView::GPU { g } => Tally { g: Some(g), ..Tally::empty() },
            },
        ),
{
    let t0 = Tally::empty();
    let none = Seq::<Seq<char>>::empty();
    match v {
        ResourceView::CPU(c) => {
            let s1 = count_token('p', c.p);
            let t1 = Tally { p: c.p, ..t0 };
            if c.p is Some {
                lemma_with_count(t0, 'p', c.p->0, whole);
                lemma_tally_push(none, s1[0], whole, t0);
                assert(none + seq![s1[0]] == s1);
            }
            let s2 = s1 + count_token('t', c.t);
            let t2 = Tally { t: c.t, ..t1 };
            if c.t is Some {
                lemma_with_count(t1, 't', c.t->0, whole);
                lemma_tally_push(s1, count_token('t', c.t)[0], whole, t1);
            } else {
                assert(s2 == s1);
            }
            let s3 = s2 + count_token('c', c.c);
            let t3 = Tally { c: c.c, ..t2 };
            if c.c is Some {
                lemma_with_count(t2, 'c', c.c->0, whole);
                lemma_tally_push(s2, count_token('c', c.c)[0], whole, t2);
            } else {
                assert(s3 == s2);
            }
            let s4 = s3 + memory_token(c.m);
            if c.m is Some {
                lemma_with_memory(t3, c.m->0, whole);
                lemma_tally_push(s3, seq!['m', '='] + c.m->0.text(), whole, t3);
            } else {
                assert(s4 == s3);
            }
        },
        ResourceView::GPU { g } => {
            let s1 = count_token('g', Some(g));
            lemma_with_count(t0, 'g', g, whole);
            lemma_tally_push(none, s1[0], whole, t0);
            assert(none + seq![s1[0]] == s1);
        },
    }
}

/// The text of a request reads back as it, where something is requested.
pub proof fn law_resource_spec_round_trip(v: ResourceView)
    requires
        v.wf(),
        v matches ResourceView::CPU(c) ==> c.p is Some || c.t is Some || c.c is Some || c.m is Some,
    ensures
        ResourceView::parsed(v.text()) == Ok::<ResourceView, SchemaFault>(v),
{
    lemma_tokens_tally(v, v.text());
    assert(v.tokens().len() > 0);
    assert forall|i: int| 0 <= i < v.tokens().len() implies !(#[trigger] v.tokens()[i]).contains(
        ':',
    ) && v.tokens()[i].len() > 0 by {
        lemma_token_texts(v, i);
    }
    lemmas::lemma_split_join(v.tokens(), ':');
    assert(v.tokens()[0].len() > 0);
    assert(v.text().len() > 0);
}

/// No token of the text form is empty or holds a separator.
proof fn lemma_token_texts(v: ResourceView, i: int)
    requires
        v.wf(),
        0 <= i < v.tokens().len(),
    ensures
        !v.tokens()[i].contains(':'),
        v.tokens()[i].len() > 0,
{
    match v {
        ResourceView::CPU(c) => {
            if c.p is Some {
                lemma_count_token('p', c.p->0);
            }
            if c.t is Some {
                lemma_count_token('t', c.t->0);
            }
            if c.c is Some {
                lemma_count_token('c', c.c->0);
            }
            if c.m is Some {
                law_memory_round_trip(c.m->0);
            }
        },
        ResourceView::GPU { g } => {
            lemma_count_token('g', g);
        },
    }
}

/// What is read is well formed, and requests something.
pub proof fn law_resource_spec_parsed_wf(s: Seq<char>)
    ensures
        match ResourceView::parsed(s) {
            Ok(v) => v.wf() && v.tokens().len() > 0,
            Err(_) => true,
        },
{
    lemma_tally_wf(model::split(s, ':'), s);
}

/// What is collected is positive.
proof fn lemma_tally_wf(tokens: Seq<Seq<char>>, whole: Seq<char>)
    ensures
        match Tally::of(tokens, whole) {
            Ok(t) => {
                &&& t.p is Some ==> t.p->0 > 0
                &&& t.t is Some ==> t.t->0 > 0
                &&& t.c is Some ==> t.c->0 > 0
                &&& t.m is Some ==> t.m->0.value > 0
                &&& t.g is Some ==> t.g->0 > 0
            },
            Err(_) => true,
        },
    decreases tokens.len(),
{
    if tokens.len() > 0 {
        lemma_tally_wf(tokens.drop_last(), whole);
    }
}

/// The tally with one token more, where both are there.
pub open spec fn fill(t: Option<Tally>, token: Seq<char>) -> Option<Tally> {
    match t {
        Some(t) => match t.with(token, Seq::empty()) {
            Ok(x) => Some(x),
            Err(_) => None,
        },
        None => None,
    }
}

/// Two tokens may be taken in either order.
proof fn lemma_fill_commutes(t: Option<Tally>, a: Seq<char>, b: Seq<char>)
    ensures
        fill(fill(t, a), b) == fill(fill(t, b), a),
{
    assert(seq!['p'][0] != seq!['t'][0]);
    assert(seq!['p'][0] != seq!['c'][0]);
    assert(seq!['t'][0] != seq!['c'][0]);
    assert(seq!['p'][0] != seq!['m'][0]);
    assert(seq!['t'][0] != seq!['m'][0]);
    assert(seq!['c'][0] != seq!['m'][0]);
    assert(seq!['p'][0] != seq!['g'][0]);
    assert(seq!['t'][0] != seq!['g'][0]);
    assert(seq!['c'][0] != seq!['g'][0]);
    assert(seq!['m'][0] != seq!['g'][0]);
}

/// Filling token by token is tallying.
proof fn lemma_fill_is_tally(tokens: Seq<Seq<char>>, whole: Seq<char>)
    ensures
        ({
            let f = |t: Option<Tally>, token: Seq<char>| fill(t, token);
            match Tally::of(tokens, whole) {
                Ok(t) => tokens.fold_left(Some(Tally::empty()), f) == Some(t),
                Err(_) => tokens.fold_left(Some(Tally::empty()), f) is None,
            }
        }),
    decreases tokens.len(),
{
    reveal(Seq::fold_left);
    if tokens.len() > 0 {
        lemma_fill_is_tally(tokens.drop_last(), whole);
    }
}

/// The order of the tokens does not matter.
pub proof fn law_resource_spec_token_order(a: Seq<char>, b: Seq<char>)
    requires
        ResourceView::parsed(a) is Ok,
        model::split(a, ':').to_multiset() == model::split(b, ':').to_multiset(),
    ensures
        ResourceView::parsed(b) == ResourceView::parsed(a),
{
    let f = |t: Option<Tally>, token: Seq<char>| fill(t, token);
    let sa = model::split(a, ':');
    let sb = model::split(b, ':');
    assert forall|x: Seq<char>, y: Seq<char>, v: Option<Tally>|
        #[trigger] f(f(v, x), y) == f(f(v, y), x) by {
        lemma_fill_commutes(v, x, y);
    }
    seq_lib::lemma_fold_left_permutation(sa, sb, f, Some(Tally::empty()));
    lemma_fill_is_tally(sa, a);
    lemma_fill_is_tally(sb, b);
    if b.len() == 0 {
        assert(sb == seq![b]);
        lemma_tally_push(Seq::empty(), b, b, Tally::empty());
        assert(Seq::<Seq<char>>::empty() + seq![b] == sb);
    }
}

/// A size is read from a positive number and the letter of its unit, and without a letter
/// counts in mebibytes.
pub proof fn law_memory_sizes(
    s: &str,
    r: Result<Memory, SchemaParseError>,
    n: Seq<char>,
    m: Memory,
    shown: String,
)
    requires
        call_ensures(Memory::from_str, (s,), r),
        call_ensures(Memory::to_string, (&m,), shown),
        n.len() > 0 && model::all_digits(n) && 0 < model::digits_value(n) <= u32::MAX,
    ensures
        ({
            let value = model::digits_value(n);
            &&& s@ == n ==> (r matches Ok(x) && x@ == (MemoryView {
                value: value as u32,
                unit: MemoryUnit::Mega,
            }))
            &&& s@ == n + seq!['K'] ==> (r matches Ok(x) && x@ == (MemoryView {
                value: value as u32,
                unit: MemoryUnit::Kilo,
            }))
            &&& s@ == n + seq!['M'] ==> (r matches Ok(x) && x@ == (MemoryView {
                value: value as u32,
                unit: MemoryUnit::Mega,
            }))
            &&& s@ == n + seq!['G'] ==> (r matches Ok(x) && x@ == (MemoryView {
                value: value as u32,
                unit: MemoryUnit::Giga,
            }))
            &&& s@ == n + seq!['T'] ==> (r matches Ok(x) && x@ == (MemoryView {
                value: value as u32,
                unit: MemoryUnit::Tera,
            }))
        }),
        s@.len() == 0 ==> r is Err,
        r matches Err(e) ==> (e matches SchemaParseError::ParseError { key, value } && key@
            == "resource_spec/m"@ && value@ == s@),
        shown@ == model::decimal(m.value@ as nat) + seq![
            match m.unit {
                MemoryUnit::Kilo => 'K',
                MemoryUnit::Mega => 'M',
                MemoryUnit::Giga => 'G',
                MemoryUnit::Tera => 'T',
            },
        ],
{
    assert(model::is_digit(n[0]));
    assert(model::is_digit(n[n.len() - 1]));
    assert(count(n) == Some(model::digits_value(n) as u32));
    lemma_suffix(n, MemoryUnit::Kilo);
    lemma_suffix(n, MemoryUnit::Mega);
    lemma_suffix(n, MemoryUnit::Giga);
    lemma_suffix(n, MemoryUnit::Tera);
    assert(shown@ =~= model::decimal(m.value@ as nat) + seq![m.unit.suffix()]);
}

/// A number with the letter of a unit.
proof fn lemma_suffix(n: Seq<char>, unit: MemoryUnit)
    requires
        count(n) is Some,
    ensures
        MemoryView::read(n + seq![unit.suffix()]) == Some(MemoryView { value: count(n)->0, unit }),
{
    let s = n + seq![unit.suffix()];
    assert(s.drop_last() == n);
    assert(s.last() == unit.suffix());
    let u = choose|u: MemoryUnit| u.suffix() == s.last();
    assert(u.suffix() == unit.suffix());
    assert(u == unit);
}

/// A request is read token by token: each token adds what it requests to what those before
/// it do, whichever they are, and is no token where its key was there before.
pub proof fn law_request_tokens(
    tokens: Seq<Seq<char>>,
    whole: Seq<char>,
    key: char,
    value: Seq<char>,
)
    requires
        Tally::of(tokens, whole) is Ok,
        value.len() > 0,
        key != '=',
    ensures
        ({
            let t = Tally::of(tokens, whole)->Ok_0;
            let next = Tally::of(tokens.push(seq![key, '='] + value), whole);
            let n = count(value);
            &&& key == 'p' && t.p is None && n is Some ==> next == Ok::<Tally, SchemaFault>(
                Tally { p: n, ..t },
            )
            &&& key == 't' && t.t is None && n is Some ==> next == Ok::<Tally, SchemaFault>(
                Tally { t: n, ..t },
            )
            &&& key == 'c' && t.c is None && n is Some ==> next == Ok::<Tally, SchemaFault>(
                Tally { c: n, ..t },
            )
            &&& key == 'g' && t.g is None && n is Some ==> next == Ok::<Tally, SchemaFault>(
                Tally { g: n, ..t },
            )
            &&& key == 'm' && t.m is None && MemoryView::parsed(value) is Ok ==> next == Ok::<
                Tally,
                SchemaFault,
            >(Tally { m: Some(MemoryView::parsed(value)->Ok_0), ..t })
            &&& (key == 'p' && t.p is Some) || (key == 't' && t.t is Some) || (key == 'c'
                && t.c is Some) || (key == 'g' && t.g is Some) || (key == 'm' && t.m is Some) || (
            key != 'p' && key != 't' && key != 'c' && key != 'g' && key != 'm') ==> next == Err::<
                Tally,
                SchemaFault,
            >(SchemaFault::ParseError { key: "resource_spec"@, value: whole })
            &&& (key == 'p' || key == 't' || key == 'c' || key == 'g') && n is None ==> next is Err
            &&& key == 'm' && MemoryView::parsed(value) is Err ==> next is Err
        }),
{
    let token = seq![key, '='] + value;
    assert(token == seq![key] + seq!['='] + value);
    assert(!seq![key].contains('=')) by {
        assert(seq![key][0] == key);
    }
    lemmas::lemma_split_some(seq![key], '=', value);
    assert(tokens.push(token).drop_last() == tokens);
    assert(seq![key][0] == key);
    assert(seq!['p'][0] == 'p' && seq!['t'][0] == 't' && seq!['c'][0] == 'c' && seq!['g'][0] == 'g'
        && seq!['m'][0] == 'm');
    if key == 'p' {
        assert(seq![key] == seq!['p']);
    } else if key == 't' {
        assert(seq![key] == seq!['t']);
    } else if key == 'c' {
        assert(seq![key] == seq!['c']);
    } else if key == 'g' {
        assert(seq![key] == seq!['g']);
    } else if key == 'm' {
        assert(seq![key] == seq!['m']);
    }
}

/// A request is made of what its tokens, with colons between them, come to: GPUs alone, or
/// any of the rest and no GPUs.
pub proof fn law_requests_are_read(s: &str, r: Result<ResourceSpec, SchemaParseError>)
    requires
        call_ensures(ResourceSpec::from_str, (s,), r),
    ensures
        s@.len() == 0 ==> r is Err,
        s@.len() > 0 ==> {
            let tally = Tally::of(model::split(s@, ':'), s@);
            &&& tally is Err ==> (r matches Err(e) && e@ == tally->Err_0)
            &&& tally matches Ok(t) ==> {
                let cpu = t.p is Some || t.t is Some || t.c is Some || t.m is Some;
                &&& t.g is Some && !cpu ==> (r matches Ok(ResourceSpec::GPU(x)) && x.g@ == t.g->0)
                &&& t.g is None && cpu ==> (r matches Ok(ResourceSpec::CPU(x)) && opt_count(x.p)
                    == t.p && opt_count(x.t) == t.t && opt_count(x.c) == t.c && opt_memory(x.m)
                    == t.m)
                &&& (t.g is Some && cpu) || (t.g is None && !cpu) ==> (r matches Err(
                    SchemaParseError::ParseError { key, value },
                ) && key@ == "resource_spec"@ && value@ == s@)
            }
        },
{
}

/// A request is shown as its tokens, in the order of processes, threads, cores and memory,
/// or GPUs, with colons between them; what is left out has none.
pub proof fn law_requests_are_shown(x: ResourceSpec, r: String)
    requires
        call_ensures(ResourceSpec::to_string, (&x,), r),
    ensures
        r@ == model::join(
            match x {
                ResourceSpec::GPU(g) => seq![seq!['g', '='] + model::decimal(g.g@ as nat)],
                ResourceSpec::CPU(c) => (match c.p {
                    Some(n) => seq![seq!['p', '='] + model::decimal(n@ as nat)],
                    None => Seq::empty(),
                }) + (match c.t {
                    Some(n) => seq![seq!['t', '='] + model::decimal(n@ as nat)],
                    None => Seq::empty(),
                }) + (match c.c {
                    Some(n) => seq![seq!['c', '='] + model::decimal(n@ as nat)],
                    None => Seq::empty(),
                }) + (match c.m {
                    Some(m) => seq![seq!['m', '='] + m@.text()],
                    None => Seq::empty(),
                }),
            },
            seq![':'],
        ),
{
}

/// However the text is handed over, it is read in the same way.
pub proof fn law_resource_conversions_agree(
    s: &str,
    r: Result<ResourceSpec, SchemaParseError>,
    q: Result<ResourceSpec, SchemaParseError>,
    w: Result<ResourceSpec, SchemaParseError>,
    owned: String,
)
    requires
        call_ensures(ResourceSpec::from_str, (s,), r),
        call_ensures(<ResourceSpec as std::convert::TryFrom<&str>>::try_from, (s,), q),
        call_ensures(<ResourceSpec as std::convert::TryFrom<String>>::try_from, (owned,), w),
        owned@ == s@,
    ensures
        r is Ok <==> q is Ok,
        r is Ok ==> r->Ok_0@ == q->Ok_0@,
        r is Err ==> r->Err_0@ == q->Err_0@,
        r is Ok <==> w is Ok,
        r is Ok ==> r->Ok_0@ == w->Ok_0@,
        r is Err ==> r->Err_0@ == w->Err_0@,
{
}

} // verus!
