//! `--mail-type` of a SLURM batch submission: which events send mail.
use crate::error;
use crate::error::{parse_error, SchemaFault, SchemaParseError};
use crate::text;
use crate::text::lemmas;
use crate::text::model;
use vstd::prelude::*;

verus! {

/// An event that sends mail.
#[derive(Clone, Debug, Copy, PartialEq, Eq, Structural, PartialOrd, Ord, Hash)]
pub enum MailType {
    BEGIN,
    END,
    FAIL,
    REQUEUE,
    ALL,
}

impl MailType {
    /// The name of the event.
    pub open spec fn name(self) -> Seq<char> {
        match self {
            MailType::BEGIN => "BEGIN"@,
            MailType::END => "END"@,
            MailType::FAIL => "FAIL"@,
            MailType::REQUEUE => "REQUEUE"@,
            MailType::ALL => "ALL"@,
        }
    }

    /// The event whose name `s` is.
    pub open spec fn parsed(s: Seq<char>) -> Result<MailType, SchemaFault> {
        if s == "BEGIN"@ {
            Ok(MailType::BEGIN)
        } else if s == "END"@ {
            Ok(MailType::END)
        } else if s == "FAIL"@ {
            Ok(MailType::FAIL)
        } else if s == "REQUEUE"@ {
            Ok(MailType::REQUEUE)
        } else if s == "ALL"@ {
            Ok(MailType::ALL)
        } else {
            Err(SchemaFault::ParseError { key: "mail_types"@, value: s })
        }
    }

    /// The name of the event.
    pub fn as_str(self) -> (r: &'static str)
        ensures
            r@ == self.name(),
    {
        match self {
            MailType::BEGIN => "BEGIN",
            MailType::END => "END",
            MailType::FAIL => "FAIL",
            MailType::REQUEUE => "REQUEUE",
            MailType::ALL => "ALL",
        }
    }

    /// Reads the name of an event.
    pub fn from_chars(s: &[char]) -> (r: Result<MailType, SchemaParseError>)
        ensures
            match r {
                Ok(x) => Self::parsed(s@) == Ok::<MailType, SchemaFault>(x),
                Err(e) => Self::parsed(s@) == Err::<MailType, SchemaFault>(e@),
            },
    {
        if text::is_str(s, "BEGIN") {
            Ok(MailType::BEGIN)
        } else if text::is_str(s, "END") {
            Ok(MailType::END)
        } else if text::is_str(s, "FAIL") {
            Ok(MailType::FAIL)
        } else if text::is_str(s, "REQUEUE") {
            Ok(MailType::REQUEUE)
        } else if text::is_str(s, "ALL") {
            Ok(MailType::ALL)
        } else {
            Err(parse_error("mail_types", s))
        }
    }
}

impl<'a> std::convert::TryFrom<&'a str> for MailType {
    type Error = SchemaParseError;

    /// Reads the name of an event.
    fn try_from(value: &'a str) -> (r: Result<MailType, SchemaParseError>)
        ensures
            match r {
                Ok(x) => MailType::parsed(value@) == Ok::<MailType, SchemaFault>(x),
                Err(e) => MailType::parsed(value@) == Err::<MailType, SchemaFault>(e@),
            },
    {
        let cs = text::chars_of(value);
        MailType::from_chars(cs.as_slice())
    }
}

impl<'a> vstd::std_specs::convert::TryFromSpecImpl<&'a str> for MailType {
    open spec fn obeys_try_from_spec() -> bool {
        false
    }

    open spec fn try_from_spec(value: &'a str) -> Result<MailType, SchemaParseError> {
        arbitrary()
    }
}

/// The events that send mail, in the order written.
#[derive(Clone, Debug, PartialEq, Eq, Hash)]
pub struct MailTypeInput(Vec<MailType>);

impl View for MailTypeInput {
    type V = Seq<MailType>;

    closed spec fn view(&self) -> Seq<MailType> {
        self.0@
    }
}

/// The names with commas between them.
pub open spec fn mail_types_text(v: Seq<MailType>) -> Seq<char> {
    model::join(v.map_values(|t: MailType| t.name()), seq![','])
}

/// The events that a comma-separated list names; the first bad name decides.
pub open spec fn parsed_mail_types(s: Seq<char>) -> Result<Seq<MailType>, SchemaFault> {
    error::collect(model::split(s, ','), |p: Seq<char>| MailType::parsed(p))
}

impl MailTypeInput {
    /// The given events.
    pub fn from_types(types: Vec<MailType>) -> (r: MailTypeInput)
        ensures
            r@ == types@,
    {
        MailTypeInput(types)
    }

    /// The events, in the order written.
    pub fn types(&self) -> (r: &[MailType])
        ensures
            r@ == self@,
    {
        self.0.as_slice()
    }

    /// The names with commas between them.
    pub fn to_string(&self) -> (r: String)
        ensures
            r@ == mail_types_text(self@),
    {
        let mut out = String::new();
        let mut i: usize = 0;
        let ghost texts = self@.map_values(|t: MailType| t.name());
        while i < self.0.len()
            invariant
                i <= self.0.len(),
                texts == self@.map_values(|t: MailType| t.name()),
                texts.len() == self.0.len(),
                out@ == model::join(texts.take(i as int), seq![',']),
            decreases self.0.len() - i,
        {
            proof {
                lemmas::lemma_join_push(texts.take(i as int), seq![','], texts[i as int]);
                assert(texts.take(i + 1) == texts.take(i as int).push(texts[i as int]));
            }
            if i > 0 {
                out.push(',');
            }
            out.append(self.0[i].as_str());
            i = i + 1;
        }
        assert(texts.take(i as int) == texts);
        out
    }
}

impl std::convert::TryFrom<String> for MailTypeInput {
    type Error = SchemaParseError;

    /// Reads a comma-separated list of events.
    fn try_from(value: String) -> (r: Result<MailTypeInput, SchemaParseError>)
        ensures
            match r {
                Ok(x) => parsed_mail_types(value@) == Ok::<Seq<MailType>, SchemaFault>(x@),
                Err(e) => parsed_mail_types(value@) == Err::<Seq<MailType>, SchemaFault>(e@),
            },
    {
        let cs = text::chars_of(value.as_str());
        let parts = text::split(cs.as_slice(), ',');
        let ghost texts = model::views(parts@);
        let ghost f = |p: Seq<char>| MailType::parsed(p);
        let mut out: Vec<MailType> = Vec::new();
        let mut i: usize = 0;
        while i < parts.len()
            invariant
                i <= parts.len(),
                texts == model::views(parts@),
                texts == model::split(value@, ','),
                f == (|p: Seq<char>| MailType::parsed(p)),
                error::collect(texts.take(i as int), f) == Ok::<Seq<MailType>, SchemaFault>(out@),
            decreases parts.len() - i,
        {
            proof {
                assert(texts.take(i + 1).drop_last() == texts.take(i as int));
                assert(texts.take(i + 1).last() == parts@[i as int]@);
            }
            match MailType::from_chars(parts[i]) {
                Ok(x) => {
                    out.push(x);
                },
                Err(e) => {
                    proof {
                        error::lemma_collect_err(texts, f, i + 1);
                    }
                    return Err(e);
                },
            }
            i = i + 1;
        }
        assert(texts.take(i as int) == texts);
        Ok(MailTypeInput(out))
    }
}

impl vstd::std_specs::convert::TryFromSpecImpl<String> for MailTypeInput {
    open spec fn obeys_try_from_spec() -> bool {
        false
    }

    open spec fn try_from_spec(value: String) -> Result<MailTypeInput, SchemaParseError> {
        arbitrary()
    }
}

/// A list of events reads back from its names.
pub proof fn law_mail_types_round_trip(v: Seq<MailType>)
    requires
        v.len() > 0,
    ensures
        parsed_mail_types(mail_types_text(v)) == Ok::<Seq<MailType>, SchemaFault>(v),
{
    let texts = v.map_values(|t: MailType| t.name());
    let f = |p: Seq<char>| MailType::parsed(p);
    reveal_strlit("BEGIN");
    reveal_strlit("END");
    reveal_strlit("FAIL");
    reveal_strlit("REQUEUE");
    reveal_strlit("ALL");
    assert("BEGIN"@.len() == 5);
    assert("END"@.len() == 3 && "END"@[0] == 'E');
    assert("FAIL"@.len() == 4);
    assert("REQUEUE"@.len() == 7);
    assert("ALL"@.len() == 3 && "ALL"@[0] == 'A');
    assert forall|i: int| 0 <= i < texts.len() implies f(#[trigger] texts[i]) == Ok::<
        MailType,
        SchemaFault,
    >(v[i]) && !texts[i].contains(',') by {
        assert(texts[i] == v[i].name());
    }
    lemmas::lemma_split_join(texts, ',');
    error::lemma_collect_ok(texts, f, v);
}

/// The events and their names.
pub proof fn law_mail_type_names(t: MailType, name: &'static str, s: &[char], r: Result<
    MailType,
    SchemaParseError,
>)
    requires
        call_ensures(MailType::as_str, (t,), name),
        call_ensures(MailType::from_chars, (s,), r),
    ensures
        name@ == match t {
            MailType::BEGIN => "BEGIN"@,
            MailType::END => "END"@,
            MailType::FAIL => "FAIL"@,
            MailType::REQUEUE => "REQUEUE"@,
            MailType::ALL => "ALL"@,
        },
        s@ == name@ ==> r == Ok::<MailType, SchemaParseError>(t),
        r matches Ok(x) ==> x == t ==> s@ == name@,
        r matches Err(e) ==> (e matches SchemaParseError::ParseError { key, value } && key@
            == "mail_types"@ && value@ == s@),
{
    reveal_strlit("BEGIN");
    reveal_strlit("END");
    reveal_strlit("FAIL");
    reveal_strlit("REQUEUE");
    reveal_strlit("ALL");
    assert("BEGIN"@.len() == 5);
    assert("END"@.len() == 3 && "END"@[0] == 'E');
    assert("FAIL"@.len() == 4);
    assert("REQUEUE"@.len() == 7);
    assert("ALL"@.len() == 3 && "ALL"@[0] == 'A');
}

/// A list of events is shown as their names, in order, with commas between them.
pub proof fn law_mail_types_are_shown(types: Vec<MailType>, x: MailTypeInput, r: String, i: int)
    requires
        call_ensures(MailTypeInput::from_types, (types,), x),
        call_ensures(MailTypeInput::to_string, (&x,), r),
        0 <= i < types@.len(),
    ensures
        model::split(r@, ',').len() == types@.len(),
        model::split(r@, ',')[i] == types@[i].name(),
{
    let texts = types@.map_values(|t: MailType| t.name());
    reveal_strlit("BEGIN");
    reveal_strlit("END");
    reveal_strlit("FAIL");
    reveal_strlit("REQUEUE");
    reveal_strlit("ALL");
    assert forall|k: int| 0 <= k < texts.len() implies !(#[trigger] texts[k]).contains(',') by {
        assert(texts[k] == types@[k].name());
    }
    lemmas::lemma_split_join(texts, ',');
}

/// A list of events is read name by name, in order; the first bad name decides.
pub proof fn law_mail_types_are_read(s: Seq<char>, i: int)
    requires
        0 <= i < model::split(s, ',').len(),
    ensures
        ({
            let parts = model::split(s, ',');
            &&& parsed_mail_types(s) matches Ok(types) ==> types.len() == parts.len() && types[i].name()
                == parts[i]
            &&& (forall|k: int| 0 <= k < i ==> MailType::parsed(#[trigger] parts[k]) is Ok)
                && MailType::parsed(parts[i]) is Err ==> parsed_mail_types(s) == Err::<
                Seq<MailType>,
                SchemaFault,
            >(SchemaFault::ParseError { key: "mail_types"@, value: parts[i] })
        }),
{
    let parts = model::split(s, ',');
    let f = |p: Seq<char>| MailType::parsed(p);
    error::lemma_collect_parts(parts, f);
    if (forall|k: int| 0 <= k < i ==> MailType::parsed(#[trigger] parts[k]) is Ok)
        && MailType::parsed(parts[i]) is Err {
        assert forall|k: int| 0 <= k < i implies f(#[trigger] parts[k]) is Ok by {}
        error::lemma_collect_first_err(parts, f, i);
    }
    if let Ok(types) = parsed_mail_types(s) {
        assert(f(parts[i]) == Ok::<MailType, SchemaFault>(types[i]));
    }
}

/// A list of events is read from its text, name by name; and a single event in the same way
/// from its name alone.
pub proof fn law_mail_conversions(
    s: String,
    r: Result<MailTypeInput, SchemaParseError>,
    name: &str,
    one: Result<MailType, SchemaParseError>,
    i: int,
)
    requires
        call_ensures(<MailTypeInput as std::convert::TryFrom<String>>::try_from, (s,), r),
        call_ensures(<MailType as std::convert::TryFrom<&str>>::try_from, (name,), one),
        0 <= i < model::split(s@, ',').len(),
    ensures
        r matches Ok(x) ==> x@.len() == model::split(s@, ',').len() && x@[i].name()
            == model::split(s@, ',')[i],
        name@ == model::split(s@, ',')[i] && one is Err ==> r is Err,
        one matches Ok(t) ==> t.name() == name@,
        r matches Err(e) ==> (e matches SchemaParseError::ParseError { key, .. } && key@
            == "mail_types"@),
{
    law_mail_types_are_read(s@, i);
    let parts = model::split(s@, ',');
    let f = |p: Seq<char>| MailType::parsed(p);
    error::lemma_collect_parts(parts, f);
    if let Ok(x) = r {
        assert(f(parts[i]) == Ok::<MailType, SchemaFault>(x@[i]));
    }
    if let Err(e) = r {
        lemma_mail_fault(parts);
    }
}

/// A fault of a list is one of its names.
proof fn lemma_mail_fault(parts: Seq<Seq<char>>)
    ensures
        error::collect(parts, |p: Seq<char>| MailType::parsed(p)) matches Err(e) ==> (
        e matches SchemaFault::ParseError { key, .. } && key == "mail_types"@),
    decreases parts.len(),
{
    if parts.len() > 0 {
        lemma_mail_fault(parts.drop_last());
    }
}

} // verus!
