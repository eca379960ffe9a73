//! Errors of the schema: what a textual form was rejected for.
use crate::text;
use vstd::prelude::*;

verus! {

/// A violation of the schema.
#[derive(Debug, Clone)]
pub enum SchemaParseError {
    /// A mapping held a key outside the allowed set.
    UnknownKey(String),
    /// A mapping lacked a required key.
    MissianRequiredKey(String),
    /// The text `value` is not what `key` allows.
    ParseError { key: String, value: String },
}

/// What a `SchemaParseError` holds, as text.
pub enum SchemaFault {
    UnknownKey(Seq<char>),
    MissianRequiredKey(Seq<char>),
    ParseError { key: Seq<char>, value: Seq<char> },
}

impl View for SchemaParseError {
    type V = SchemaFault;

    open spec fn view(&self) -> SchemaFault {
        match *self {
            SchemaParseError::UnknownKey(k) => SchemaFault::UnknownKey(k@),
            SchemaParseError::MissianRequiredKey(k) => SchemaFault::MissianRequiredKey(k@),
            SchemaParseError::ParseError { key, value } => SchemaFault::ParseError {
                key: key@,
                value: value@,
            },
        }
    }
}

impl SchemaFault {
    /// The message for the fault.
    pub open spec fn message(self) -> Seq<char> {
        match self {
            SchemaFault::UnknownKey(k) => "Unknown key(s): "@ + k,
            SchemaFault::MissianRequiredKey(k) => "Missing requred key(s): "@ + k,
            SchemaFault::ParseError { key, value } => key + " parse error around '"@ + value
                + seq!['\''],
        }
    }
}

impl SchemaParseError {
    /// The message for the error.
    pub fn to_string(&self) -> (r: String)
        ensures
            r@ == self@.message(),
    {
        match self {
            SchemaParseError::UnknownKey(k) => {
                let mut out = "Unknown key(s): ".to_owned();
                out.append(k.as_str());
                out
            },
            SchemaParseError::MissianRequiredKey(k) => {
                let mut out = "Missing requred key(s): ".to_owned();
                out.append(k.as_str());
                out
            },
            SchemaParseError::ParseError { key, value } => {
                let mut out = key.as_str().to_owned();
                out.append(" parse error around '");
                out.append(value.as_str());
                out.push('\'');
                out
            },
        }
    }
}

/// The error for text that `key` does not allow.
pub fn parse_error(key: &str, value: &[char]) -> (r: SchemaParseError)
    ensures
        r@ == (SchemaFault::ParseError { key: key@, value: value@ }),
{
    SchemaParseError::ParseError { key: key.to_owned(), value: text::string_of(value) }
}

/// An error of a SLURM job.
#[derive(Debug, Clone)]
pub enum SLURMJOBError {
    JobFailed(String),
}

impl SLURMJOBError {
    /// The message for the error.
    pub fn to_string(&self) -> (r: String)
        ensures
            r@ == "JobFailed"@,
    {
        "JobFailed".to_owned()
    }
}

/// Reads every part with `f`; the first part that `f` rejects decides.
pub open spec fn collect<T>(
    parts: Seq<Seq<char>>,
    f: spec_fn(Seq<char>) -> Result<T, SchemaFault>,
) -> Result<Seq<T>, SchemaFault>
    decreases parts.len(),
{
    if parts.len() == 0 {
        Ok(Seq::empty())
    } else {
        match collect(parts.drop_last(), f) {
            Ok(done) => match f(parts.last()) {
                Ok(x) => Ok(done.push(x)),
                Err(e) => Err(e),
            },
            Err(e) => Err(e),
        }
    }
}

/// A part that is rejected decides over all that follow it.
pub proof fn lemma_collect_err<T>(
    parts: Seq<Seq<char>>,
    f: spec_fn(Seq<char>) -> Result<T, SchemaFault>,
    n: int,
)
    requires
        0 <= n <= parts.len(),
        collect(parts.take(n), f) is Err,
    ensures
        collect(parts, f) == collect(parts.take(n), f),
    decreases parts.len() - n,
{
    if n < parts.len() {
        assert(parts.take(n + 1).drop_last() == parts.take(n));
        lemma_collect_err(parts, f, n + 1);
    } else {
        assert(parts.take(n) == parts);
    }
}

/// Parts that are each read are read together.
pub proof fn lemma_collect_ok<T>(
    parts: Seq<Seq<char>>,
    f: spec_fn(Seq<char>) -> Result<T, SchemaFault>,
    xs: Seq<T>,
)
    requires
        xs.len() == parts.len(),
        forall|i: int| 0 <= i < parts.len() ==> f(#[trigger] parts[i]) == Ok::<T, SchemaFault>(xs[i]),
    ensures
        collect(parts, f) == Ok::<Seq<T>, SchemaFault>(xs),
    decreases parts.len(),
{
    if parts.len() > 0 {
        let p = parts.drop_last();
        assert forall|i: int| 0 <= i < p.len() implies f(#[trigger] p[i]) == Ok::<T, SchemaFault>(
            xs.drop_last()[i],
        ) by {
            assert(p[i] == parts[i]);
        }
        lemma_collect_ok(p, f, xs.drop_last());
        assert(f(parts[parts.len() - 1]) == Ok::<T, SchemaFault>(xs[xs.len() - 1]));
        assert(xs.drop_last().push(xs.last()) == xs);
    } else {
        assert(xs == Seq::<T>::empty());
    }
}

/// What is read together is read part by part.
pub proof fn lemma_collect_parts<T>(
    parts: Seq<Seq<char>>,
    f: spec_fn(Seq<char>) -> Result<T, SchemaFault>,
)
    ensures
        collect(parts, f) matches Ok(xs) ==> xs.len() == parts.len() && forall|i: int|
            0 <= i < parts.len() ==> f(#[trigger] parts[i]) == Ok::<T, SchemaFault>(xs[i]),
    decreases parts.len(),
{
    if parts.len() > 0 {
        let before = parts.drop_last();
        lemma_collect_parts(before, f);
        if let Ok(xs) = collect(parts, f) {
            let ys = collect(before, f)->Ok_0;
            assert forall|i: int| 0 <= i < parts.len() implies f(#[trigger] parts[i]) == Ok::<
                T,
                SchemaFault,
            >(xs[i]) by {
                if i < before.len() {
                    assert(before[i] == parts[i]);
                    assert(f(before[i]) == Ok::<T, SchemaFault>(ys[i]));
                }
            }
        }
    }
}

/// The first part that is rejected decides.
pub proof fn lemma_collect_first_err<T>(
    parts: Seq<Seq<char>>,
    f: spec_fn(Seq<char>) -> Result<T, SchemaFault>,
    n: int,
)
    requires
        0 <= n < parts.len(),
        forall|k: int| 0 <= k < n ==> f(#[trigger] parts[k]) is Ok,
        f(parts[n]) is Err,
    ensures
        collect(parts, f) == Err::<Seq<T>, SchemaFault>(f(parts[n])->Err_0),
{
    let head = parts.take(n);
    let xs = Seq::new(n as nat, |k: int| f(parts[k])->Ok_0);
    assert forall|k: int| 0 <= k < head.len() implies f(#[trigger] head[k]) == Ok::<
        T,
        SchemaFault,
    >(xs[k]) by {
        assert(head[k] == parts[k]);
    }
    lemma_collect_ok(head, f, xs);
    let more = parts.take(n + 1);
    assert(more.drop_last() == head);
    assert(more.last() == parts[n]);
    lemma_collect_err(parts, f, n + 1);
}

/// The message of an error names what is wrong.
pub proof fn law_schema_messages(e: SchemaParseError, r: String)
    requires
        call_ensures(SchemaParseError::to_string, (&e,), r),
    ensures
        r@ == match e {
            SchemaParseError::UnknownKey(k) => "Unknown key(s): "@ + k@,
            SchemaParseError::MissianRequiredKey(k) => "Missing requred key(s): "@ + k@,
            SchemaParseError::ParseError { key, value } => key@ + " parse error around '"@ + value@
                + seq!['\''],
        },
{
}

} // verus!
