//! Which status commands may be shared between jobs.
use crate::runner::query;
use crate::runner::query::csv_join;
use crate::text;
use crate::text::lemmas;
use crate::text::model;
use crate::text::number;
use vstd::prelude::*;

verus! {

/// A form of command line whose listing can be shared: it asks for a batch of jobs, and
/// each asker looks up its own.
#[derive(Debug, Clone, Copy, PartialEq, Eq, Structural)]
pub enum QueryShape {
    /// `qgroup -l`: lists all jobs, so the batch is always empty.
    QgroupListing,
    /// `squeue -h -j <ids> -o "%i %T %r"`
    SqueueSummary,
    /// `squeue -h -r -j <ids> -o "%i %T %r"`: one line for each array task.
    SqueueTasks,
    /// `sacct -P -n -j <ids> -o JobID,State,Reason,ExitCode`
    SacctExitCode,
}

/// The numbers that a list with commas spells.
pub open spec fn ids_of(parts: Seq<Seq<char>>) -> Option<Seq<u64>>
    decreases parts.len(),
{
    if parts.len() == 0 {
        Some(Seq::empty())
    } else {
        match (ids_of(parts.drop_last()), model::parse_uint(parts.last(), u64::MAX as nat)) {
            (Some(ids), Some(id)) => Some(ids.push(id as u64)),
            _ => None,
        }
    }
}

impl QueryShape {
    /// The command line for a batch with the given list of jobs.
    pub open spec fn words(self, ids: Seq<char>) -> Seq<Seq<char>> {
        match self {
            QueryShape::QgroupListing => seq!["qgroup"@, "-l"@],
            QueryShape::SqueueSummary => seq!["squeue"@, "-h"@, "-j"@, ids, "-o"@, "%i %T %r"@],
            QueryShape::SqueueTasks => query::squeue_command(ids),
            QueryShape::SacctExitCode => query::sacct_command(ids, true),
        }
    }

    /// Where in the command line the list of jobs stands.
    pub open spec fn list_at(self) -> int {
        match self {
            QueryShape::QgroupListing => 0,
            QueryShape::SqueueSummary => 3,
            QueryShape::SqueueTasks => 4,
            QueryShape::SacctExitCode => 4,
        }
    }

    /// The command line for a batch of jobs.
    pub open spec fn command(self, batch: Seq<u64>) -> Seq<Seq<char>> {
        self.words(query::csv(batch))
    }

    /// The jobs that `argv` asks for, where it is exactly of this form.
    pub open spec fn parsed(self, argv: Seq<Seq<char>>) -> Option<Seq<u64>> {
        if argv.len() == 0 || argv != self.words(argv[self.list_at()]) {
            None
        } else if self == QueryShape::QgroupListing {
            Some(Seq::empty())
        } else {
            ids_of(model::split(argv[self.list_at()], ','))
        }
    }

    /// What is appended to an error that is handed out again.
    pub open spec fn marker(self) -> Seq<char> {
        match self {
            QueryShape::QgroupListing => "(replayed from qgroup cache)"@,
            QueryShape::SqueueSummary => "(replayed from squeue batch cache)"@,
            QueryShape::SqueueTasks => "(replayed from squeue batch cache)"@,
            QueryShape::SacctExitCode => "(replayed from sacct batch cache)"@,
        }
    }

    /// What is appended to an error that is handed out again.
    pub fn replay_marker(&self) -> (r: &'static str)
        ensures
            r@ == self.marker(),
    {
        match self {
            QueryShape::QgroupListing => "(replayed from qgroup cache)",
            QueryShape::SqueueSummary => "(replayed from squeue batch cache)",
            QueryShape::SqueueTasks => "(replayed from squeue batch cache)",
            QueryShape::SacctExitCode => "(replayed from sacct batch cache)",
        }
    }

    /// The command line with the given list of jobs.
    fn fill(&self, ids: String) -> (r: Vec<String>)
        ensures
            model::texts(r@) == self.words(ids@),
    {
        match self {
            QueryShape::QgroupListing => {
                let argv: Vec<String> = vec!["qgroup".to_owned(), "-l".to_owned()];
                assert(model::texts(argv@) == self.words(ids@));
                argv
            },
            QueryShape::SqueueSummary => {
                let argv: Vec<String> = vec![
                    "squeue".to_owned(),
                    "-h".to_owned(),
                    "-j".to_owned(),
                    ids,
                    "-o".to_owned(),
                    "%i %T %r".to_owned(),
                ];
                assert(model::texts(argv@) == self.words(ids@));
                argv
            },
            QueryShape::SqueueTasks => query::squeue_argv(ids),
            QueryShape::SacctExitCode => query::sacct_argv(ids, true),
        }
    }

    /// The command line for a batch of jobs.
    pub fn build(&self, batch: &[u64]) -> (r: Vec<String>)
        ensures
            model::texts(r@) == self.command(batch@),
    {
        self.fill(csv_join(batch))
    }

    /// The jobs that `argv` asks for, where it is exactly of this form. Every other
    /// command line is none: another command, other options, or a list that holds
    /// anything but job ids.
    pub fn parse(&self, argv: &[String]) -> (r: Option<Vec<u64>>)
        ensures
            match r {
                Some(ids) => self.parsed(model::texts(argv@)) == Some(ids@),
                None => self.parsed(model::texts(argv@)) is None,
            },
    {
        let ghost given = model::texts(argv@);
        let at: usize = match self {
            QueryShape::QgroupListing => 0,
            QueryShape::SqueueSummary => 3,
            QueryShape::SqueueTasks => 4,
            QueryShape::SacctExitCode => 4,
        };
        if argv.len() <= at {
            assert(given.len() == 0 || self.words(given[self.list_at()]).len() > at);
            return None;
        }
        let list = argv[at].clone();
        let want = self.fill(list.clone());
        assert(given[self.list_at()] == list@);
        if !same_words(argv, want.as_slice()) {
            return None;
        }
        match self {
            QueryShape::QgroupListing => {
                let none: Vec<u64> = Vec::new();
                assert(none@ == Seq::<u64>::empty());
                Some(none)
            },
            _ => parse_ids(list.as_str()),
        }
    }
}

/// Whether two command lines are the same.
fn same_words(a: &[String], b: &[String]) -> (r: bool)
    ensures
        r == (model::texts(a@) == model::texts(b@)),
{
    let ghost ta = model::texts(a@);
    let ghost tb = model::texts(b@);
    if a.len() != b.len() {
        assert(ta.len() != tb.len());
        return false;
    }
    let mut i: usize = 0;
    while i < a.len()
        invariant
            i <= a.len(),
            a.len() == b.len(),
            ta == model::texts(a@),
            tb == model::texts(b@),
            forall|k: int| 0 <= k < i ==> ta[k] == tb[k],
        decreases a.len() - i,
    {
        if a[i] != b[i] {
            assert(ta[i as int] != tb[i as int]);
            return false;
        }
        i = i + 1;
    }
    assert(ta == tb);
    true
}

/// Reads a list of job ids with commas between them.
fn parse_ids(list: &str) -> (r: Option<Vec<u64>>)
    ensures
        match r {
            Some(ids) => ids_of(model::split(list@, ',')) == Some(ids@),
            None => ids_of(model::split(list@, ',')) is None,
        },
{
    let cs = text::chars_of(list);
    let parts = text::split(cs.as_slice(), ',');
    let ghost texts = model::views(parts@);
    let mut out: Vec<u64> = Vec::new();
    let mut i: usize = 0;
    while i < parts.len()
        invariant
            i <= parts.len(),
            texts == model::views(parts@),
            texts == model::split(list@, ','),
            ids_of(texts.take(i as int)) == Some(out@),
        decreases parts.len() - i,
    {
        assert(texts.take(i + 1).drop_last() == texts.take(i as int));
        assert(texts.take(i + 1).last() == parts@[i as int]@);
        match number::parse_u64(parts[i]) {
            Some(id) => {
                out.push(id);
            },
            None => {
                proof {
                    lemma_ids_none(texts, i + 1);
                }
                return None;
            },
        }
        i = i + 1;
    }
    assert(texts.take(i as int) == texts);
    Some(out)
}

/// A part that is no number decides.
proof fn lemma_ids_none(parts: Seq<Seq<char>>, n: int)
    requires
        0 <= n <= parts.len(),
        ids_of(parts.take(n)) is None,
    ensures
        ids_of(parts) is None,
    decreases parts.len() - n,
{
    if n < parts.len() {
        assert(parts.take(n + 1).drop_last() == parts.take(n));
        lemma_ids_none(parts, n + 1);
    } else {
        assert(parts.take(n) == parts);
    }
}

/// The decimal forms of numbers read back as them.
proof fn lemma_ids_of_decimals(ids: Seq<u64>)
    ensures
        ids_of(ids.map_values(|n: u64| model::decimal(n as nat))) == Some(ids),
    decreases ids.len(),
{
    let parts = ids.map_values(|n: u64| model::decimal(n as nat));
    if ids.len() > 0 {
        let before = ids.drop_last();
        lemma_ids_of_decimals(before);
        assert(parts.drop_last() == before.map_values(|n: u64| model::decimal(n as nat)));
        lemmas::lemma_decimal(ids.last() as nat);
        assert(before.push(ids.last()) == ids);
    } else {
        assert(parts == Seq::<Seq<char>>::empty());
        assert(ids == Seq::<u64>::empty());
    }
}

/// A list of job ids reads back as it.
pub proof fn law_csv_round_trip(ids: Seq<u64>)
    requires
        ids.len() > 0,
    ensures
        ids_of(model::split(query::csv(ids), ',')) == Some(ids),
{
    let parts = ids.map_values(|n: u64| model::decimal(n as nat));
    assert forall|i: int| 0 <= i < parts.len() implies !(#[trigger] parts[i]).contains(',') by {
        lemmas::lemma_decimal(ids[i] as nat);
        lemmas::lemma_digits_without(parts[i], ',');
    }
    lemmas::lemma_split_join(parts, ',');
    lemma_ids_of_decimals(ids);
}

/// The command line for a batch is of its own form and asks for the batch; that of a
/// listing of all jobs asks for none.
pub proof fn law_shape_round_trip(shape: QueryShape, batch: Seq<u64>)
    requires
        batch.len() > 0,
    ensures
        shape.parsed(shape.command(batch)) == Some(
            if shape == QueryShape::QgroupListing {
                Seq::empty()
            } else {
                batch
            },
        ),
{
    law_csv_round_trip(batch);
    let argv = shape.command(batch);
    assert(argv[shape.list_at()] == query::csv(batch) || shape == QueryShape::QgroupListing);
}

/// What the queries for jobs ask of `squeue`, and of `sacct` for exit codes, is of a form
/// that can be shared, and asks for those jobs.
pub proof fn law_queries_can_be_shared(ids: Seq<u64>)
    requires
        ids.len() > 0,
    ensures
        QueryShape::SqueueTasks.parsed(query::squeue_command(query::csv(ids))) == Some(ids),
        QueryShape::SacctExitCode.parsed(query::sacct_command(query::csv(ids), true)) == Some(ids),
{
    law_shape_round_trip(QueryShape::SqueueTasks, ids);
    law_shape_round_trip(QueryShape::SacctExitCode, ids);
}

/// What is asked of one array task is never shared.
pub proof fn law_task_queries_are_not_shared(shape: QueryShape, master: u64, index: u32)
    ensures
        shape.parsed(query::squeue_command(query::task_key_text(master, index))) is None,
        shape.parsed(query::sacct_command(query::task_key_text(master, index), true)) is None,
{
    let key = query::task_key_text(master, index);
    let a = model::decimal(master as nat);
    let b = model::decimal(index as nat);
    lemmas::lemma_decimal(master as nat);
    lemmas::lemma_decimal(index as nat);
    lemmas::lemma_digits_without(a, ',');
    lemmas::lemma_digits_without(b, ',');
    lemmas::lemma_split_none(key, ',');
    assert(key[a.len() as int] == '_');
    assert(model::parse_nat(key) is None) by {
        assert(model::is_digit(a[0]));
        assert(key[0] == a[0]);
        assert(!model::is_digit(key[a.len() as int]));
    }
    let parts = seq![key];
    assert(parts.drop_last() == Seq::<Seq<char>>::empty());
    assert(ids_of(parts) is None);
    reveal_strlit("qgroup");
    reveal_strlit("squeue");
    reveal_strlit("sacct");
    assert("qgroup"@.len() == 6 && "qgroup"@[0] == 'q');
    assert("squeue"@.len() == 6 && "squeue"@[0] == 's');
    assert("sacct"@.len() == 5);
    let s = query::squeue_command(key);
    let t = query::sacct_command(key, true);
    assert(s[0] == "squeue"@ && t[0] == "sacct"@ && s.len() == 7 && t.len() == 7);
    assert(s[4] == key && t[4] == key);
}

/// The command lines that can be shared are exactly these, each with a list of job ids in
/// its place; what is read of one is the list.
pub proof fn law_shared_command_lines(shape: QueryShape, argv: &[String], r: Option<Vec<u64>>)
    requires
        call_ensures(QueryShape::parse, (&shape, argv), r),
    ensures
        r matches Some(ids) ==> exists|list: Seq<char>|
            {
                &&& model::texts(argv@) == #[trigger] shape_line(shape, list)
                &&& shape == QueryShape::QgroupListing ==> ids@.len() == 0
                &&& shape != QueryShape::QgroupListing ==> {
                    let parts = model::split(list, ',');
                    &&& parts.len() == ids@.len()
                    &&& forall|i: int|
                        0 <= i < ids@.len() ==> model::parse_nat(#[trigger] parts[i]) == Some(
                            ids@[i] as nat,
                        )
                }
            },
        forall|list: Seq<char>|
            model::texts(argv@) == #[trigger] shape_line(shape, list) && (shape
                == QueryShape::QgroupListing || forall|i: int|
                0 <= i < model::split(list, ',').len() ==> model::parse_uint(
                    #[trigger] model::split(list, ',')[i],
                    u64::MAX as nat,
                ) is Some) ==> r is Some,
{
    let given = model::texts(argv@);
    if let Some(ids) = r {
        let list = given[shape.list_at()];
        assert(given == shape_line(shape, list));
        if shape != QueryShape::QgroupListing {
            lemma_ids_of_parts(model::split(list, ','));
        }
    }
    assert forall|list: Seq<char>|
        given == #[trigger] shape_line(shape, list) && (shape == QueryShape::QgroupListing
            || forall|i: int|
            0 <= i < model::split(list, ',').len() ==> model::parse_uint(
                #[trigger] model::split(list, ',')[i],
                u64::MAX as nat,
            ) is Some) implies r is Some by {
        if shape != QueryShape::QgroupListing {
            assert(given[shape.list_at()] == list);
            lemma_ids_of_parts(model::split(list, ','));
        }
    }
}

/// The command line of a form, with its list.
pub open spec fn shape_line(shape: QueryShape, list: Seq<char>) -> Seq<Seq<char>> {
    match shape {
        QueryShape::QgroupListing => seq!["qgroup"@, "-l"@],
        QueryShape::SqueueSummary => seq!["squeue"@, "-h"@, "-j"@, list, "-o"@, "%i %T %r"@],
        QueryShape::SqueueTasks => seq![
            "squeue"@,
            "-h"@,
            "-r"@,
            "-j"@,
            list,
            "-o"@,
            "%i %T %r"@,
        ],
        QueryShape::SacctExitCode => seq![
            "sacct"@,
            "-P"@,
            "-n"@,
            "-j"@,
            list,
            "-o"@,
            "JobID,State,Reason,ExitCode"@,
        ],
    }
}

/// The numbers are those of the parts.
proof fn lemma_ids_of_parts(parts: Seq<Seq<char>>)
    ensures
        ids_of(parts) is Some <==> forall|i: int|
            0 <= i < parts.len() ==> model::parse_uint(#[trigger] parts[i], u64::MAX as nat) is Some,
        ids_of(parts) matches Some(ids) ==> ids.len() == parts.len() && forall|i: int|
            0 <= i < ids.len() ==> model::parse_nat(#[trigger] parts[i]) == Some(ids[i] as nat),
    decreases parts.len(),
{
    if parts.len() > 0 {
        let before = parts.drop_last();
        lemma_ids_of_parts(before);
        assert forall|i: int| 0 <= i < before.len() implies before[i] == #[trigger] parts[i] by {}
        if forall|i: int|
            0 <= i < parts.len() ==> model::parse_uint(#[trigger] parts[i], u64::MAX as nat) is Some {
            assert forall|i: int| 0 <= i < before.len() implies model::parse_uint(
                #[trigger] before[i],
                u64::MAX as nat,
            ) is Some by {
                assert(before[i] == parts[i]);
            }
            assert(parts[parts.len() - 1] == parts.last());
        }
        if let Some(ids) = ids_of(parts) {
            let earlier = ids_of(before)->0;
            assert forall|i: int| 0 <= i < parts.len() implies model::parse_nat(#[trigger] parts[i])
                == Some(ids[i] as nat) && model::parse_uint(parts[i], u64::MAX as nat) is Some by {
                if i < before.len() {
                    assert(before[i] == parts[i]);
                    assert(model::parse_nat(before[i]) == Some(earlier[i] as nat));
                    assert(ids[i] == earlier[i]);
                }
            }
        }
    }
}

/// The command line of a batch lists the jobs with commas between them.
pub proof fn law_batch_command_lines(shape: QueryShape, batch: &[u64], r: Vec<String>)
    requires
        call_ensures(QueryShape::build, (&shape, batch), r),
        batch@.len() > 0,
    ensures
        exists|list: Seq<char>|
            {
                &&& model::texts(r@) == #[trigger] shape_line(shape, list)
                &&& model::split(list, ',') == batch@.map_values(
                    |n: u64| model::decimal(n as nat),
                )
            },
{
    let list = query::csv(batch@);
    let parts = batch@.map_values(|n: u64| model::decimal(n as nat));
    assert forall|i: int| 0 <= i < parts.len() implies !(#[trigger] parts[i]).contains(',') by {
        lemmas::lemma_decimal(batch@[i] as nat);
        lemmas::lemma_digits_without(parts[i], ',');
    }
    lemmas::lemma_split_join(parts, ',');
    assert(model::texts(r@) == shape_line(shape, list));
}

} // verus!
