//! `--dependency` / `-d` spec for a SLURM batch submission.
//!
//! ```text
//!   <clause>[<sep><clause>...]
//!   <clause> ::= <type>[:<job_id>[+<minutes>][:<job_id>...]]
//!   <type>   ::= after | afterany | afterburstbuffer | aftercorr
//!              | afternotok | afterok | singleton
//!   <sep>    ::= "," (AND) | "?" (OR)   (not both in one spec)
//! ```
//!
//! - `"afterok:200:201"`          wait for both 200 and 201 to succeed
//! - `"afterok:200,afterany:201"` 200 must succeed AND 201 must finish
//! - `"afterok:200?afterany:201"` either 200 succeeds OR 201 finishes
//! - `"after:200+5"`              start 5 min after job 200 begins
//! - `"singleton"`                no other same-named job of mine running
use crate::error;
use crate::error::{parse_error, SchemaFault, SchemaParseError};
use crate::text;
use crate::text::lemmas;
use crate::text::model;
use crate::text::number;
use vstd::prelude::*;

verus! {

/// Kind of one dependency clause.
#[derive(Debug, Clone, Copy, PartialEq, Eq, Structural, Hash)]
pub enum DependencyType {
    /// Begin after the listed jobs have started (or been cancelled). Each job id
    /// may carry a `+<minutes>` delay.
    After,
    /// Begin after the listed jobs terminate (any exit status).
    AfterAny,
    /// Begin after the listed jobs terminate and their burst-buffer stage-out
    /// has finished.
    AfterBurstBuffer,
    /// For array jobs: each task starts after the corresponding task in the
    /// referenced array completes successfully.
    AfterCorr,
    /// Begin after the listed jobs terminate in a failed state.
    AfterNotOk,
    /// Begin after the listed jobs terminate successfully.
    AfterOk,
    /// Begin only after any other job with the same name and user has
    /// terminated. Takes no job ids.
    Singleton,
}

impl DependencyType {
    /// The keyword in the textual form.
    pub open spec fn keyword(self) -> Seq<char> {
        match self {
            DependencyType::After => "after"@,
            DependencyType::AfterAny => "afterany"@,
            DependencyType::AfterBurstBuffer => "afterburstbuffer"@,
            DependencyType::AfterCorr => "aftercorr"@,
            DependencyType::AfterNotOk => "afternotok"@,
            DependencyType::AfterOk => "afterok"@,
            DependencyType::Singleton => "singleton"@,
        }
    }

    /// The type whose keyword `s` is.
    pub open spec fn parsed(s: Seq<char>) -> Result<DependencyType, SchemaFault> {
        if s == "after"@ {
            Ok(DependencyType::After)
        } else if s == "afterany"@ {
            Ok(DependencyType::AfterAny)
        } else if s == "afterburstbuffer"@ {
            Ok(DependencyType::AfterBurstBuffer)
        } else if s == "aftercorr"@ {
            Ok(DependencyType::AfterCorr)
        } else if s == "afternotok"@ {
            Ok(DependencyType::AfterNotOk)
        } else if s == "afterok"@ {
            Ok(DependencyType::AfterOk)
        } else if s == "singleton"@ {
            Ok(DependencyType::Singleton)
        } else {
            Err(SchemaFault::ParseError { key: "dependency/type"@, value: s })
        }
    }

    /// The keyword in the textual form.
    pub fn as_keyword(self) -> (r: &'static str)
        ensures
            r@ == self.keyword(),
    {
        match self {
            DependencyType::After => "after",
            DependencyType::AfterAny => "afterany",
            DependencyType::AfterBurstBuffer => "afterburstbuffer",
            DependencyType::AfterCorr => "aftercorr",
            DependencyType::AfterNotOk => "afternotok",
            DependencyType::AfterOk => "afterok",
            DependencyType::Singleton => "singleton",
        }
    }

    /// Whether the type accepts job ids: all but `singleton` do.
    pub fn takes_jobs(self) -> (r: bool)
        ensures
            r == (self != DependencyType::Singleton),
    {
        match self {
            DependencyType::Singleton => false,
            _ => true,
        }
    }

    /// Reads a keyword.
    pub fn from_chars(s: &[char]) -> (r: Result<DependencyType, SchemaParseError>)
        ensures
            match r {
                Ok(t) => Self::parsed(s@) == Ok::<DependencyType, SchemaFault>(t),
                Err(e) => Self::parsed(s@) == Err::<DependencyType, SchemaFault>(e@),
            },
    {
        if text::is_str(s, "after") {
            Ok(DependencyType::After)
        } else if text::is_str(s, "afterany") {
            Ok(DependencyType::AfterAny)
        } else if text::is_str(s, "afterburstbuffer") {
            Ok(DependencyType::AfterBurstBuffer)
        } else if text::is_str(s, "aftercorr") {
            Ok(DependencyType::AfterCorr)
        } else if text::is_str(s, "afternotok") {
            Ok(DependencyType::AfterNotOk)
        } else if text::is_str(s, "afterok") {
            Ok(DependencyType::AfterOk)
        } else if text::is_str(s, "singleton") {
            Ok(DependencyType::Singleton)
        } else {
            Err(parse_error("dependency/type", s))
        }
    }

    /// Reads a keyword.
    pub fn from_str(s: &str) -> (r: Result<DependencyType, SchemaParseError>)
        ensures
            match r {
                Ok(t) => Self::parsed(s@) == Ok::<DependencyType, SchemaFault>(t),
                Err(e) => Self::parsed(s@) == Err::<DependencyType, SchemaFault>(e@),
            },
    {
        let cs = text::chars_of(s);
        Self::from_chars(cs.as_slice())
    }

    /// The keyword as a string.
    pub fn to_string(&self) -> (r: String)
        ensures
            r@ == self.keyword(),
    {
        self.as_keyword().to_owned()
    }
}

/// One job id in a dependency clause.
///
/// `delay_minutes` has a meaning only for `DependencyType::After`; parsing
/// rejects it for other types.
#[derive(Debug, Clone, Copy, PartialEq, Eq, Structural, Hash)]
pub struct DependencyJobRef {
    pub job_id: u32,
    pub delay_minutes: Option<u32>,
}

impl DependencyJobRef {
    /// The text of the reference.
    pub open spec fn text(self) -> Seq<char> {
        match self.delay_minutes {
            Some(m) => model::decimal(self.job_id as nat) + seq!['+'] + model::decimal(m as nat),
            None => model::decimal(self.job_id as nat),
        }
    }

    /// The reference that `s` spells.
    pub open spec fn read(s: Seq<char>, allow_delay: bool) -> Option<DependencyJobRef> {
        match model::split_once(s, '+') {
            Some((id, delay)) => match (
                model::parse_uint(id, u32::MAX as nat),
                model::parse_uint(delay, u32::MAX as nat),
            ) {
                (Some(id), Some(delay)) => if allow_delay {
                    Some(
                        DependencyJobRef {
                            job_id: id as u32,
                            delay_minutes: Some(delay as u32),
                        },
                    )
                } else {
                    None
                },
                _ => None,
            },
            None => match model::parse_uint(s, u32::MAX as nat) {
                Some(id) => Some(DependencyJobRef { job_id: id as u32, delay_minutes: None }),
                None => None,
            },
        }
    }

    /// The reference that `s` spells, or the fault.
    pub open spec fn parsed(s: Seq<char>, allow_delay: bool) -> Result<
        DependencyJobRef,
        SchemaFault,
    > {
        match Self::read(s, allow_delay) {
            Some(x) => Ok(x),
            None => Err(SchemaFault::ParseError { key: "dependency/job_id"@, value: s }),
        }
    }

    /// A reference without delay.
    pub fn new(job_id: u32) -> (r: DependencyJobRef)
        ensures
            r == (DependencyJobRef { job_id, delay_minutes: None }),
    {
        DependencyJobRef { job_id, delay_minutes: None }
    }

    /// Appends the text of the reference.
    pub fn push_to(&self, out: &mut String)
        ensures
            final(out)@ == old(out)@ + self.text(),
    {
        number::push_decimal(out, self.job_id as u64);
        if let Some(m) = self.delay_minutes {
            out.push('+');
            number::push_decimal(out, m as u64);
        }
        assert(out@ == old(out)@ + self.text());
    }

    /// The text of the reference.
    pub fn to_string(&self) -> (r: String)
        ensures
            r@ == self.text(),
    {
        let mut out = String::new();
        self.push_to(&mut out);
        out
    }
}

/// Reads one job reference.
pub fn parse_job_ref(s: &[char], allow_delay: bool) -> (r: Result<
    DependencyJobRef,
    SchemaParseError,
>)
    ensures
        match r {
            Ok(x) => DependencyJobRef::parsed(s@, allow_delay) == Ok::<
                DependencyJobRef,
                SchemaFault,
            >(x),
            Err(e) => DependencyJobRef::parsed(s@, allow_delay) == Err::<
                DependencyJobRef,
                SchemaFault,
            >(e@),
        },
{
    match text::split_once(s, '+') {
        Some((id, delay)) => {
            if !allow_delay {
                return Err(parse_error("dependency/job_id", s));
            }
            match (number::parse_u32(id), number::parse_u32(delay)) {
                (Some(job_id), Some(minutes)) => Ok(
                    DependencyJobRef { job_id, delay_minutes: Some(minutes) },
                ),
                _ => Err(parse_error("dependency/job_id", s)),
            }
        },
        None => match number::parse_u32(s) {
            Some(job_id) => Ok(DependencyJobRef { job_id, delay_minutes: None }),
            None => Err(parse_error("dependency/job_id", s)),
        },
    }
}

/// One dependency clause: a type and, for all but `singleton`, its job ids.
#[derive(Debug, Clone, PartialEq, Eq)]
pub struct DependencyClause {
    pub dep_type: DependencyType,
    pub job_refs: Vec<DependencyJobRef>,
}

/// What a `DependencyClause` holds.
pub struct ClauseView {
    pub dep_type: DependencyType,
    pub job_refs: Seq<DependencyJobRef>,
}

impl View for DependencyClause {
    type V = ClauseView;

    open spec fn view(&self) -> ClauseView {
        ClauseView { dep_type: self.dep_type, job_refs: self.job_refs@ }
    }
}

/// The job references that the parts spell.
pub open spec fn parsed_refs(parts: Seq<Seq<char>>, allow_delay: bool) -> Result<
    Seq<DependencyJobRef>,
    SchemaFault,
> {
    error::collect(parts, |p: Seq<char>| DependencyJobRef::parsed(p, allow_delay))
}

impl ClauseView {
    /// `singleton` has no job ids, every other type at least one; only `after`
    /// has delays.
    pub open spec fn wf(self) -> bool {
        &&& self.dep_type == DependencyType::Singleton <==> self.job_refs.len() == 0
        &&& forall|i: int|
            0 <= i < self.job_refs.len() && (#[trigger] self.job_refs[i]).delay_minutes is Some
                ==> self.dep_type == DependencyType::After
    }

    /// The keyword and the texts of the references.
    pub open spec fn part_texts(self) -> Seq<Seq<char>> {
        seq![self.dep_type.keyword()] + self.job_refs.map_values(
            |x: DependencyJobRef| x.text(),
        )
    }

    /// The text of the clause.
    pub open spec fn text(self) -> Seq<char> {
        model::join(self.part_texts(), seq![':'])
    }

    /// The clause that `s` spells. The keyword is judged first, then whether job
    /// ids are there where they are owed, then each of them.
    pub open spec fn parsed(s: Seq<char>) -> Result<ClauseView, SchemaFault> {
        let fault = SchemaFault::ParseError { key: "dependency/clause"@, value: s };
        let parts = model::split(s, ':');
        if s.len() == 0 {
            Err(fault)
        } else {
            match DependencyType::parsed(parts[0]) {
                Err(e) => Err(e),
                Ok(dep_type) => if (dep_type == DependencyType::Singleton) != (parts.len() == 1) {
                    Err(fault)
                } else {
                    match parsed_refs(parts.skip(1), dep_type == DependencyType::After) {
                        Ok(job_refs) => Ok(ClauseView { dep_type, job_refs }),
                        Err(e) => Err(e),
                    }
                },
            }
        }
    }
}

impl DependencyClause {
    /// Appends the text of the clause.
    pub fn push_to(&self, out: &mut String)
        ensures
            final(out)@ == old(out)@ + self@.text(),
    {
        let ghost texts = self@.part_texts();
        out.append(self.dep_type.as_keyword());
        assert(model::join(texts.take(1), seq![':']) == texts[0]);
        let mut i: usize = 0;
        while i < self.job_refs.len()
            invariant
                i <= self.job_refs.len(),
                texts == self@.part_texts(),
                texts.len() == self.job_refs.len() + 1,
                out@ == old(out)@ + model::join(texts.take(i + 1), seq![':']),
            decreases self.job_refs.len() - i,
        {
            proof {
                lemmas::lemma_join_push(texts.take(i + 1), seq![':'], texts[i + 1]);
                assert(texts.take(i + 2) == texts.take(i + 1).push(texts[i + 1]));
                assert(texts[i + 1] == self.job_refs@[i as int].text());
            }
            out.push(':');
            self.job_refs[i].push_to(out);
            i = i + 1;
            assert(out@ == old(out)@ + model::join(texts.take(i + 1), seq![':']));
        }
        assert(texts.take(i + 1) == texts);
    }

    /// The text of the clause.
    pub fn to_string(&self) -> (r: String)
        ensures
            r@ == self@.text(),
    {
        let mut out = String::new();
        self.push_to(&mut out);
        out
    }
}

/// Reads one clause.
pub fn parse_clause(s: &[char]) -> (r: Result<DependencyClause, SchemaParseError>)
    ensures
        match r {
            Ok(x) => ClauseView::parsed(s@) == Ok::<ClauseView, SchemaFault>(x@) && x@.wf(),
            Err(e) => ClauseView::parsed(s@) == Err::<ClauseView, SchemaFault>(e@),
        },
{
    if s.len() == 0 {
        return Err(parse_error("dependency/clause", s));
    }
    let parts = text::split(s, ':');
    let ghost texts = model::views(parts@);
    assert(texts[0] == parts@[0]@);
    let dep_type = match DependencyType::from_chars(parts[0]) {
        Ok(t) => t,
        Err(e) => {
            return Err(e);
        },
    };
    if dep_type.takes_jobs() != (parts.len() > 1) {
        return Err(parse_error("dependency/clause", s));
    }
    let allow_delay = match dep_type {
        DependencyType::After => true,
        _ => false,
    };
    let ghost f = |p: Seq<char>| DependencyJobRef::parsed(p, allow_delay);
    let ghost raw = texts.skip(1);
    let mut job_refs: Vec<DependencyJobRef> = Vec::new();
    let mut i: usize = 1;
    assert(raw.take(0) == Seq::<Seq<char>>::empty());
    while i < parts.len()
        invariant
            1 <= i <= parts.len(),
            texts == model::views(parts@),
            raw == texts.skip(1),
            raw.len() == parts.len() - 1,
            f == (|p: Seq<char>| DependencyJobRef::parsed(p, allow_delay)),
            job_refs.len() == i - 1,
            error::collect(raw.take(i - 1), f) == Ok::<Seq<DependencyJobRef>, SchemaFault>(
                job_refs@,
            ),
            forall|k: int|
                0 <= k < job_refs.len() && (#[trigger] job_refs[k]).delay_minutes is Some
                    ==> allow_delay,
            dep_type != DependencyType::Singleton <==> parts.len() > 1,
            allow_delay == (dep_type == DependencyType::After),
            s@.len() > 0,
            texts == model::split(s@, ':'),
            DependencyType::parsed(texts[0]) == Ok::<DependencyType, SchemaFault>(dep_type),
        decreases parts.len() - i,
    {
        proof {
            assert(raw.take(i as int).drop_last() == raw.take(i - 1));
            assert(raw.take(i as int).last() == parts@[i as int]@);
        }
        match parse_job_ref(parts[i], allow_delay) {
            Ok(x) => {
                job_refs.push(x);
            },
            Err(e) => {
                proof {
                    error::lemma_collect_err(raw, f, i as int);
                }
                return Err(e);
            },
        }
        i = i + 1;
    }
    assert(raw.take(i - 1) == raw);
    Ok(DependencyClause { dep_type, job_refs })
}

/// How the clauses of a spec are combined.
#[derive(Debug, Clone, Copy, PartialEq, Eq, Structural, Hash)]
pub enum DependencyJoin {
    /// Comma `,`: every clause must be satisfied.
    And,
    /// Question mark `?`: any clause being satisfied releases the job.
    Or,
}

impl DependencyJoin {
    /// The separator between clauses.
    pub open spec fn sep(self) -> char {
        match self {
            DependencyJoin::And => ',',
            DependencyJoin::Or => '?',
        }
    }

    /// The separator between clauses.
    pub fn as_char(self) -> (r: char)
        ensures
            r == self.sep(),
    {
        match self {
            DependencyJoin::And => ',',
            DependencyJoin::Or => '?',
        }
    }
}

/// Which jobs to wait for.
#[derive(Debug, Clone, PartialEq, Eq)]
pub struct SlurmDependency {
    pub clauses: Vec<DependencyClause>,
    pub join: DependencyJoin,
}

/// What a `SlurmDependency` holds.
pub struct DependencyView {
    pub clauses: Seq<ClauseView>,
    pub join: DependencyJoin,
}

/// What the clauses hold.
pub open spec fn clause_views(v: Seq<DependencyClause>) -> Seq<ClauseView> {
    v.map_values(|c: DependencyClause| c@)
}

impl View for SlurmDependency {
    type V = DependencyView;

    open spec fn view(&self) -> DependencyView {
        DependencyView { clauses: clause_views(self.clauses@), join: self.join }
    }
}

impl DependencyView {
    /// At least one clause, each well formed.
    pub open spec fn wf(self) -> bool {
        &&& self.clauses.len() > 0
        &&& forall|i: int| 0 <= i < self.clauses.len() ==> (#[trigger] self.clauses[i]).wf()
    }

    /// The texts of the clauses.
    pub open spec fn clause_texts(self) -> Seq<Seq<char>> {
        self.clauses.map_values(|c: ClauseView| c.text())
    }

    /// The text of the spec.
    pub open spec fn text(self) -> Seq<char> {
        model::join(self.clause_texts(), seq![self.join.sep()])
    }

    /// The clauses between the separators.
    pub open spec fn parsed_clauses(s: Seq<char>, sep: char) -> Result<
        Seq<ClauseView>,
        SchemaFault,
    > {
        error::collect(model::split(s, sep), |p: Seq<char>| ClauseView::parsed(p))
    }

    /// The spec that `s` spells: joined by `?` where one occurs, else by `,`.
    pub open spec fn parsed(s: Seq<char>) -> Result<DependencyView, SchemaFault> {
        if s.len() == 0 || (s.contains(',') && s.contains('?')) {
            Err(SchemaFault::ParseError { key: "dependency"@, value: s })
        } else {
            let join = if s.contains('?') {
                DependencyJoin::Or
            } else {
                DependencyJoin::And
            };
            match Self::parsed_clauses(s, join.sep()) {
                Ok(clauses) => Ok(DependencyView { clauses, join }),
                Err(e) => Err(e),
            }
        }
    }
}

impl SlurmDependency {
    /// Reads a spec.
    pub fn from_str(s: &str) -> (r: Result<SlurmDependency, SchemaParseError>)
        ensures
            match r {
                Ok(x) => DependencyView::parsed(s@) == Ok::<DependencyView, SchemaFault>(x@)
                    && x@.wf(),
                Err(e) => DependencyView::parsed(s@) == Err::<DependencyView, SchemaFault>(e@),
            },
    {
        let whole = text::chars_of(s);
        let cs = whole.as_slice();
        if cs.len() == 0 {
            return Err(parse_error("dependency", cs));
        }
        let has_or = text::has(cs, '?');
        if text::has(cs, ',') && has_or {
            return Err(parse_error("dependency", cs));
        }
        let join = if has_or {
            DependencyJoin::Or
        } else {
            DependencyJoin::And
        };
        match parse_clauses(cs, join.as_char()) {
            Ok(clauses) => Ok(SlurmDependency { clauses, join }),
            Err(e) => Err(e),
        }
    }

    /// The text of the spec.
    pub fn to_string(&self) -> (r: String)
        ensures
            r@ == self@.text(),
    {
        let sep = self.join.as_char();
        let mut out = String::new();
        let mut i: usize = 0;
        let ghost texts = self@.clause_texts();
        while i < self.clauses.len()
            invariant
                i <= self.clauses.len(),
                sep == self.join.sep(),
                texts == self@.clause_texts(),
                texts.len() == self.clauses.len(),
                out@ == model::join(texts.take(i as int), seq![sep]),
            decreases self.clauses.len() - i,
        {
            proof {
                lemmas::lemma_join_push(texts.take(i as int), seq![sep], texts[i as int]);
                assert(texts.take(i + 1) == texts.take(i as int).push(texts[i as int]));
                assert(texts[i as int] == self.clauses@[i as int]@.text());
            }
            if i > 0 {
                out.push(sep);
            }
            self.clauses[i].push_to(&mut out);
            i = i + 1;
        }
        assert(texts.take(i as int) == texts);
        out
    }
}

/// Reads the clauses between the separators.
fn parse_clauses(s: &[char], sep: char) -> (r: Result<Vec<DependencyClause>, SchemaParseError>)
    ensures
        match r {
            Ok(v) => DependencyView::parsed_clauses(s@, sep) == Ok::<Seq<ClauseView>, SchemaFault>(
                clause_views(v@),
            ) && v.len() > 0 && forall|i: int| 0 <= i < v.len() ==> (#[trigger] v[i])@.wf(),
            Err(e) => DependencyView::parsed_clauses(s@, sep) == Err::<
                Seq<ClauseView>,
                SchemaFault,
            >(e@),
        },
{
    let parts = text::split(s, sep);
    let ghost texts = model::views(parts@);
    let ghost f = |p: Seq<char>| ClauseView::parsed(p);
    let mut out: Vec<DependencyClause> = Vec::new();
    let mut i: usize = 0;
    assert(clause_views(out@) == Seq::<ClauseView>::empty());
    while i < parts.len()
        invariant
            i <= parts.len(),
            texts == model::views(parts@),
            texts == model::split(s@, sep),
            f == (|p: Seq<char>| ClauseView::parsed(p)),
            out.len() == i,
            error::collect(texts.take(i as int), f) == Ok::<Seq<ClauseView>, SchemaFault>(
                clause_views(out@),
            ),
            forall|k: int| 0 <= k < out.len() ==> (#[trigger] out[k])@.wf(),
        decreases parts.len() - i,
    {
        proof {
            assert(texts.take(i + 1).drop_last() == texts.take(i as int));
            assert(texts.take(i + 1).last() == parts@[i as int]@);
        }
        match parse_clause(parts[i]) {
            Ok(x) => {
                let ghost before = out@;
                out.push(x);
                assert(clause_views(out@) == clause_views(before).push(x@));
            },
            Err(e) => {
                proof {
                    error::lemma_collect_err(texts, f, i + 1);
                }
                return Err(e);
            },
        }
        i = i + 1;
    }
    assert(texts.take(i as int) == texts);
    Ok(out)
}

impl std::str::FromStr for DependencyType {
    type Err = SchemaParseError;

    fn from_str(s: &str) -> (r: Result<Self, Self::Err>)
        ensures
            match r {
                Ok(t) => DependencyType::parsed(s@) == Ok::<DependencyType, SchemaFault>(t),
                Err(e) => DependencyType::parsed(s@) == Err::<DependencyType, SchemaFault>(e@),
            },
    {
        DependencyType::from_str(s)
    }
}

impl<'a> std::convert::TryFrom<&'a str> for SlurmDependency {
    type Error = SchemaParseError;

    fn try_from(s: &'a str) -> (r: Result<SlurmDependency, SchemaParseError>)
        ensures
            match r {
                Ok(x) => DependencyView::parsed(s@) == Ok::<DependencyView, SchemaFault>(x@),
                Err(e) => DependencyView::parsed(s@) == Err::<DependencyView, SchemaFault>(e@),
            },
    {
        SlurmDependency::from_str(s)
    }
}

impl<'a> vstd::std_specs::convert::TryFromSpecImpl<&'a str> for SlurmDependency {
    open spec fn obeys_try_from_spec() -> bool {
        false
    }

    open spec fn try_from_spec(s: &'a str) -> Result<SlurmDependency, SchemaParseError> {
        arbitrary()
    }
}

impl std::convert::TryFrom<String> for SlurmDependency {
    type Error = SchemaParseError;

    fn try_from(s: String) -> (r: Result<SlurmDependency, SchemaParseError>)
        ensures
            match r {
                Ok(x) => DependencyView::parsed(s@) == Ok::<DependencyView, SchemaFault>(x@),
                Err(e) => DependencyView::parsed(s@) == Err::<DependencyView, SchemaFault>(e@),
            },
    {
        SlurmDependency::from_str(s.as_str())
    }
}

impl vstd::std_specs::convert::TryFromSpecImpl<String> for SlurmDependency {
    open spec fn obeys_try_from_spec() -> bool {
        false
    }

    open spec fn try_from_spec(s: String) -> Result<SlurmDependency, SchemaParseError> {
        arbitrary()
    }
}

impl std::str::FromStr for SlurmDependency {
    type Err = SchemaParseError;

    fn from_str(s: &str) -> (r: Result<Self, Self::Err>)
        ensures
            match r {
                Ok(x) => DependencyView::parsed(s@) == Ok::<DependencyView, SchemaFault>(x@)
                    && x@.wf(),
                Err(e) => DependencyView::parsed(s@) == Err::<DependencyView, SchemaFault>(e@),
            },
    {
        SlurmDependency::from_str(s)
    }
}

/// The keyword of a type reads back as it, and holds none of the marks of the
/// grammar.
pub proof fn law_dependency_type_round_trip(t: DependencyType)
    ensures
        DependencyType::parsed(t.keyword()) == Ok::<DependencyType, SchemaFault>(t),
        !t.keyword().contains(':'),
        !t.keyword().contains(','),
        !t.keyword().contains('?'),
        t.keyword().len() > 0,
{
    reveal_strlit("after");
    reveal_strlit("afterany");
    reveal_strlit("afterburstbuffer");
    reveal_strlit("aftercorr");
    reveal_strlit("afternotok");
    reveal_strlit("afterok");
    reveal_strlit("singleton");
    assert("after"@.len() == 5);
    assert("afterok"@.len() == 7);
    assert("afterany"@.len() == 8);
    assert("aftercorr"@.len() == 9 && "aftercorr"@[0] == 'a');
    assert("singleton"@.len() == 9 && "singleton"@[0] == 's');
    assert("afternotok"@.len() == 10);
    assert("afterburstbuffer"@.len() == 16);
}

/// The text of a reference reads back as it.
pub proof fn law_job_ref_round_trip(x: DependencyJobRef, allow_delay: bool)
    requires
        x.delay_minutes is Some ==> allow_delay,
    ensures
        DependencyJobRef::parsed(x.text(), allow_delay) == Ok::<DependencyJobRef, SchemaFault>(x),
        !x.text().contains(':'),
        !x.text().contains(','),
        !x.text().contains('?'),
{
    let id = model::decimal(x.job_id as nat);
    lemmas::lemma_decimal(x.job_id as nat);
    lemmas::lemma_digits_without(id, '+');
    lemmas::lemma_digits_without(id, ':');
    lemmas::lemma_digits_without(id, ',');
    lemmas::lemma_digits_without(id, '?');
    match x.delay_minutes {
        Some(m) => {
            let d = model::decimal(m as nat);
            lemmas::lemma_decimal(m as nat);
            lemmas::lemma_digits_without(d, ':');
            lemmas::lemma_digits_without(d, ',');
            lemmas::lemma_digits_without(d, '?');
            lemmas::lemma_split_some(id, '+', d);
        },
        None => {
            lemmas::lemma_split_none(id, '+');
        },
    }
}

/// The text of a well-formed clause reads back as it.
pub proof fn law_clause_round_trip(c: ClauseView)
    requires
        c.wf(),
    ensures
        ClauseView::parsed(c.text()) == Ok::<ClauseView, SchemaFault>(c),
        !c.text().contains(','),
        !c.text().contains('?'),
{
    let parts = c.part_texts();
    let allow_delay = c.dep_type == DependencyType::After;
    let f = |p: Seq<char>| DependencyJobRef::parsed(p, allow_delay);
    let raw = c.job_refs.map_values(|x: DependencyJobRef| x.text());
    law_dependency_type_round_trip(c.dep_type);
    assert forall|i: int| 0 <= i < raw.len() implies f(#[trigger] raw[i]) == Ok::<
        DependencyJobRef,
        SchemaFault,
    >(c.job_refs[i]) && !raw[i].contains(':') && !raw[i].contains(',') && !raw[i].contains(
        '?',
    ) by {
        law_job_ref_round_trip(c.job_refs[i], allow_delay);
    }
    assert forall|i: int| 0 <= i < parts.len() implies !(#[trigger] parts[i]).contains(':')
        && !parts[i].contains(',') && !parts[i].contains('?') by {
        if i > 0 {
            assert(parts[i] == raw[i - 1]);
        }
    }
    lemmas::lemma_split_join(parts, ':');
    lemmas::lemma_join_without(parts, seq![':'], ',');
    lemmas::lemma_join_without(parts, seq![':'], '?');
    error::lemma_collect_ok(raw, f, c.job_refs);
    assert(parts.skip(1) == raw);
    if c.text().len() == 0 {
        assert(model::split(c.text(), ':') == seq![c.text()]);
        assert(parts[0].len() == 0);
    }
}

/// The text of a well-formed spec reads back as it, save that a lone clause
/// always reads back as joined by `,`.
pub proof fn law_dependency_round_trip(v: DependencyView)
    requires
        v.wf(),
        v.clauses.len() == 1 ==> v.join == DependencyJoin::And,
    ensures
        DependencyView::parsed(v.text()) == Ok::<DependencyView, SchemaFault>(v),
{
    let texts = v.clause_texts();
    let sep = v.join.sep();
    let f = |p: Seq<char>| ClauseView::parsed(p);
    assert forall|i: int| 0 <= i < texts.len() implies f(#[trigger] texts[i]) == Ok::<
        ClauseView,
        SchemaFault,
    >(v.clauses[i]) && !texts[i].contains(',') && !texts[i].contains('?') by {
        law_clause_round_trip(v.clauses[i]);
    }
    lemmas::lemma_split_join(texts, sep);
    error::lemma_collect_ok(texts, f, v.clauses);
    let other = if v.join == DependencyJoin::And {
        '?'
    } else {
        ','
    };
    lemmas::lemma_join_without(texts, seq![sep], other);
    assert(f(texts[0]) is Ok);
    assert(texts[0].len() > 0);
    assert(v.text().len() > 0);
    if v.join == DependencyJoin::Or {
        assert(v.text() == texts[0] + seq![sep] + model::join(texts.skip(1), seq![sep]));
        assert(v.text()[texts[0].len() as int] == '?');
    }
}

/// The kinds of dependency and their keywords; all but one take job ids.
pub proof fn law_dependency_keywords(
    t: DependencyType,
    keyword: &'static str,
    takes: bool,
    s: &str,
    r: Result<DependencyType, SchemaParseError>,
)
    requires
        call_ensures(DependencyType::as_keyword, (t,), keyword),
        call_ensures(DependencyType::takes_jobs, (t,), takes),
        call_ensures(DependencyType::from_str, (s,), r),
    ensures
        keyword@ == match t {
            DependencyType::After => "after"@,
            DependencyType::AfterAny => "afterany"@,
            DependencyType::AfterBurstBuffer => "afterburstbuffer"@,
            DependencyType::AfterCorr => "aftercorr"@,
            DependencyType::AfterNotOk => "afternotok"@,
            DependencyType::AfterOk => "afterok"@,
            DependencyType::Singleton => "singleton"@,
        },
        takes <==> t != DependencyType::Singleton,
        s@ == keyword@ ==> r == Ok::<DependencyType, SchemaParseError>(t),
        r matches Ok(x) ==> x == t ==> s@ == keyword@,
        r matches Err(e) ==> (e matches SchemaParseError::ParseError { key, value } && key@
            == "dependency/type"@ && value@ == s@),
{
    law_dependency_type_round_trip(t);
}

/// A job is named by its id and, where delays are allowed, a plus sign and how many minutes
/// to wait after it.
pub proof fn law_job_refs_are_read(
    s: &[char],
    allow_delay: bool,
    r: Result<DependencyJobRef, SchemaParseError>,
    id: Seq<char>,
    delay: Seq<char>,
)
    requires
        call_ensures(parse_job_ref, (s, allow_delay), r),
        id.len() > 0 && model::all_digits(id) && model::digits_value(id) <= u32::MAX,
        delay.len() > 0 && model::all_digits(delay) && model::digits_value(delay) <= u32::MAX,
    ensures
        s@ == id ==> (r matches Ok(x) && x.job_id == model::digits_value(id)
            && x.delay_minutes is None),
        s@ == id + seq!['+'] + delay ==> if allow_delay {
            r matches Ok(x) && x.job_id == model::digits_value(id) && x.delay_minutes is Some
                && x.delay_minutes->0 == model::digits_value(delay)
        } else {
            r is Err
        },
        !s@.contains('+') && model::parse_uint(s@, u32::MAX as nat) is None ==> r is Err,
        r matches Err(e) ==> (e matches SchemaParseError::ParseError { key, value } && key@
            == "dependency/job_id"@ && value@ == s@),
{
    assert(model::is_digit(id[0]) && model::is_digit(delay[0]));
    lemmas::lemma_digits_without(id, '+');
    lemmas::lemma_split_none(id, '+');
    lemmas::lemma_split_some(id, '+', delay);
    if !s@.contains('+') {
        lemmas::lemma_split_none(s@, '+');
    }
}

/// A clause is read from its keyword and, behind colons, the jobs: none for `singleton`, at
/// least one for every other kind, and with delays for `after` alone.
pub proof fn law_clauses_are_read(
    s: &[char],
    r: Result<DependencyClause, SchemaParseError>,
    i: int,
)
    requires
        call_ensures(parse_clause, (s,), r),
        s@.len() > 0,
        1 <= i < model::split(s@, ':').len() || model::split(s@, ':').len() == 1,
    ensures
        ({
            let parts = model::split(s@, ':');
            let kind = DependencyType::parsed(parts[0]);
            let delays = kind == Ok::<DependencyType, SchemaFault>(DependencyType::After);
            &&& r matches Ok(x) ==> {
                &&& kind == Ok::<DependencyType, SchemaFault>(x.dep_type)
                &&& x.job_refs@.len() == parts.len() - 1
                &&& x.dep_type == DependencyType::Singleton <==> parts.len() == 1
                &&& parts.len() > 1 ==> DependencyJobRef::parsed(parts[i], delays) == Ok::<
                    DependencyJobRef,
                    SchemaFault,
                >(x.job_refs@[i - 1])
            }
            &&& kind is Err ==> r is Err
            &&& parts.len() == 1 && kind is Ok && kind->Ok_0 != DependencyType::Singleton ==> (
            r matches Err(SchemaParseError::ParseError { key, value }) && key@
                == "dependency/clause"@ && value@ == s@)
            &&& parts.len() > 1 && DependencyJobRef::parsed(parts[i], delays) is Err ==> r is Err
            &&& parts.len() == 1 && kind == Ok::<DependencyType, SchemaFault>(
                DependencyType::Singleton,
            ) ==> r is Ok
            &&& parts.len() > 1 && kind is Ok && kind->Ok_0 != DependencyType::Singleton && (
            forall|k: int|
                1 <= k < parts.len() ==> DependencyJobRef::parsed(
                    #[trigger] parts[k],
                    delays,
                ) is Ok) ==> r is Ok
        }),
{
    let parts = model::split(s@, ':');
    let kind = DependencyType::parsed(parts[0]);
    let delays = kind == Ok::<DependencyType, SchemaFault>(DependencyType::After);
    let f = |p: Seq<char>| DependencyJobRef::parsed(p, delays);
    let rest = parts.skip(1);
    error::lemma_collect_parts(rest, f);
    if parts.len() > 1 {
        assert(rest[i - 1] == parts[i]);
    }
    if forall|k: int|
        1 <= k < parts.len() ==> DependencyJobRef::parsed(#[trigger] parts[k], delays) is Ok {
        let xs = Seq::new(rest.len(), |k: int| f(rest[k])->Ok_0);
        assert forall|k: int| 0 <= k < rest.len() implies f(#[trigger] rest[k]) == Ok::<
            DependencyJobRef,
            SchemaFault,
        >(xs[k]) by {
            assert(rest[k] == parts[k + 1]);
        }
        error::lemma_collect_ok(rest, f, xs);
    }
}

/// A spec is read clause by clause: question marks between them mean that one of them is
/// enough, commas that all are needed, and both together mean nothing.
pub proof fn law_dependencies_are_read(
    s: &str,
    r: Result<SlurmDependency, SchemaParseError>,
    i: int,
)
    requires
        call_ensures(SlurmDependency::from_str, (s,), r),
        0 <= i < model::split(
            s@,
            if s@.contains('?') {
                '?'
            } else {
                ','
            },
        ).len(),
    ensures
        ({
            let sep = if s@.contains('?') {
                '?'
            } else {
                ','
            };
            let parts = model::split(s@, sep);
            &&& r matches Ok(x) ==> {
                &&& s@.len() > 0
                &&& !(s@.contains(',') && s@.contains('?'))
                &&& x.join == (if s@.contains('?') {
                    DependencyJoin::Or
                } else {
                    DependencyJoin::And
                })
                &&& x.clauses@.len() == parts.len()
                &&& ClauseView::parsed(parts[i]) == Ok::<ClauseView, SchemaFault>(x.clauses@[i]@)
            }
            &&& s@.len() == 0 || (s@.contains(',') && s@.contains('?')) ==> (r matches Err(
                SchemaParseError::ParseError { key, value },
            ) && key@ == "dependency"@ && value@ == s@)
            &&& ClauseView::parsed(parts[i]) is Err ==> r is Err
        }),
{
    let sep = if s@.contains('?') {
        '?'
    } else {
        ','
    };
    let parts = model::split(s@, sep);
    let f = |p: Seq<char>| ClauseView::parsed(p);
    error::lemma_collect_parts(parts, f);
    if let Ok(x) = r {
        let join = if s@.contains('?') {
            DependencyJoin::Or
        } else {
            DependencyJoin::And
        };
        assert(join.sep() == sep);
        assert(error::collect(parts, f) == Ok::<Seq<ClauseView>, SchemaFault>(x@.clauses));
        assert(x@.clauses.len() == x.clauses@.len());
        assert(f(parts[i]) == Ok::<ClauseView, SchemaFault>(x@.clauses[i]));
        assert(x@.clauses[i] == x.clauses@[i]@);
    }
}

/// A spec whose clauses can all be read is read.
pub proof fn law_good_dependencies_are_read(
    s: &str,
    r: Result<SlurmDependency, SchemaParseError>,
    sep: char,
)
    requires
        call_ensures(SlurmDependency::from_str, (s,), r),
        s@.len() > 0,
        sep == ',' && !s@.contains('?') || sep == '?' && s@.contains('?') && !s@.contains(','),
        forall|k: int|
            0 <= k < model::split(s@, sep).len() ==> ClauseView::parsed(
                #[trigger] model::split(s@, sep)[k],
            ) is Ok,
    ensures
        r is Ok,
{
    let parts = model::split(s@, sep);
    let f = |p: Seq<char>| ClauseView::parsed(p);
    let xs = Seq::new(parts.len(), |k: int| f(parts[k])->Ok_0);
    assert forall|k: int| 0 <= k < parts.len() implies f(#[trigger] parts[k]) == Ok::<
        ClauseView,
        SchemaFault,
    >(xs[k]) by {
        assert(ClauseView::parsed(parts[k]) is Ok);
    }
    error::lemma_collect_ok(parts, f, xs);
    assert(DependencyView::parsed_clauses(s@, sep) is Ok);
}

/// A reference, a clause and a spec are shown as they are read: the id with its delay behind
/// a plus sign; the keyword and the references with colons between them; and the clauses
/// with the separator of the spec between them.
pub proof fn law_dependencies_are_shown(
    x: DependencyJobRef,
    shown: String,
    clause: DependencyClause,
    clause_shown: String,
    spec: SlurmDependency,
    r: String,
)
    requires
        call_ensures(DependencyJobRef::to_string, (&x,), shown),
        call_ensures(DependencyClause::to_string, (&clause,), clause_shown),
        call_ensures(SlurmDependency::to_string, (&spec,), r),
    ensures
        shown@ == model::decimal(x.job_id as nat) + (match x.delay_minutes {
            Some(m) => seq!['+'] + model::decimal(m as nat),
            None => Seq::empty(),
        }),
        clause_shown@ == model::join(
            seq![clause.dep_type.keyword()] + clause.job_refs@.map_values(
                |x: DependencyJobRef| x.text(),
            ),
            seq![':'],
        ),
        r@ == model::join(
            spec.clauses@.map_values(|c: DependencyClause| c@.text()),
            seq![
                if spec.join == DependencyJoin::And {
                    ','
                } else {
                    '?'
                },
            ],
        ),
{
    assert(shown@ == model::decimal(x.job_id as nat) + (match x.delay_minutes {
        Some(m) => seq!['+'] + model::decimal(m as nat),
        None => Seq::empty(),
    }));
    assert(spec@.clause_texts() =~= spec.clauses@.map_values(|c: DependencyClause| c@.text()));
}

/// However the text is handed over, it is read in the same way.
pub proof fn law_dependency_conversions_agree(
    s: &str,
    r: Result<SlurmDependency, SchemaParseError>,
    q: Result<SlurmDependency, SchemaParseError>,
    w: Result<SlurmDependency, SchemaParseError>,
    owned: String,
)
    requires
        call_ensures(SlurmDependency::from_str, (s,), r),
        call_ensures(<SlurmDependency as std::convert::TryFrom<&str>>::try_from, (s,), q),
        call_ensures(<SlurmDependency as std::convert::TryFrom<String>>::try_from, (owned,), w),
        owned@ == s@,
    ensures
        r is Ok <==> q is Ok,
        r is Ok ==> r->Ok_0@ == q->Ok_0@,
        r is Err ==> r->Err_0@ == q->Err_0@,
        r is Ok <==> w is Ok,
        r is Ok ==> r->Ok_0@ == w->Ok_0@,
        r is Err ==> r->Err_0@ == w->Err_0@,
{
}

} // verus!
