//! The listings of `squeue`, `sacct` and `qgroup`.
use crate::entities::reason::JobReason;
use crate::entities::status;
use crate::entities::status::{JobState, JobStatus, StatusView};
use crate::sbatch::parse;
use crate::text;
use crate::text::lemmas;
use crate::text::model;
use crate::text::number;
use std::collections::HashMap;
use vstd::prelude::*;

verus! {

/// What `sacct` reports of a job: its status and, where there is one, its exit code.
#[derive(Debug, PartialEq, Eq)]
pub struct JobOutcome {
    pub status: JobStatus,
    pub exit_code: Option<i32>,
}

/// What a `JobOutcome` holds.
pub struct OutcomeView {
    pub status: StatusView,
    pub exit_code: Option<int>,
}

impl View for JobOutcome {
    type V = OutcomeView;

    open spec fn view(&self) -> OutcomeView {
        OutcomeView { status: self.status@, exit_code: parse::opt_code(self.exit_code) }
    }
}

impl Clone for JobOutcome {
    fn clone(&self) -> (r: JobOutcome)
        ensures
            r == *self,
    {
        JobOutcome { status: self.status.clone(), exit_code: self.exit_code }
    }
}

/// What the statuses of a map hold.
pub open spec fn status_views(m: Map<u64, JobStatus>) -> Map<u64, StatusView> {
    m.map_values(|s: JobStatus| s@)
}

/// What the outcomes of a map hold.
pub open spec fn outcome_views(m: Map<u64, JobOutcome>) -> Map<u64, OutcomeView> {
    m.map_values(|s: JobOutcome| s@)
}

/// The rows of a listing by job id. A later row for the same job takes the place of
/// an earlier one; a line that is no row adds nothing.
pub open spec fn table<V>(
    lines: Seq<Seq<char>>,
    row: spec_fn(Seq<char>) -> Option<(u64, V)>,
) -> Map<u64, V>
    decreases lines.len(),
{
    if lines.len() == 0 {
        Map::empty()
    } else {
        let before = table(lines.drop_last(), row);
        match row(lines.last()) {
            Some((id, v)) => before.insert(id, v),
            None => before,
        }
    }
}

/// The first row of a listing.
pub open spec fn first_row<V>(
    lines: Seq<Seq<char>>,
    row: spec_fn(Seq<char>) -> Option<V>,
) -> Option<V>
    decreases lines.len(),
{
    if lines.len() == 0 {
        None
    } else {
        match row(lines[0]) {
            Some(v) => Some(v),
            None => first_row(lines.skip(1), row),
        }
    }
}

/// The cell at `i`, or nothing where the row is shorter.
pub open spec fn cell(cells: Seq<Seq<char>>, i: int) -> Seq<char> {
    if i < cells.len() {
        cells[i]
    } else {
        Seq::empty()
    }
}

/// A job id.
pub open spec fn job_id(s: Seq<char>) -> Option<u64> {
    match model::parse_uint(s, u64::MAX as nat) {
        Some(n) => Some(n as u64),
        None => None,
    }
}

/// A row of `squeue -o "%i %T %r"`; the reason may be missing.
pub open spec fn squeue_row(line: Seq<char>) -> Option<(u64, StatusView)> {
    let w = model::words(line);
    match job_id(cell(w, 0)) {
        Some(id) => if w.len() >= 2 {
            Some((id, StatusView::parsed(w[1], cell(w, 2))))
        } else {
            None
        },
        None => None,
    }
}

/// A row of `sacct -P -o JobID,State,Reason`; the reason may be missing. The rows of
/// the steps of a job (`12345.batch`, `12345.0`) are none, as their id is no number.
pub open spec fn sacct_row(line: Seq<char>) -> Option<(u64, StatusView)> {
    let c = model::split_n(line, '|', 3);
    match job_id(cell(c, 0)) {
        Some(id) => if c.len() >= 2 {
            Some((id, StatusView::parsed(c[1], cell(c, 2))))
        } else {
            None
        },
        None => None,
    }
}

/// The outcome that the cells of `State|Reason|ExitCode` from the second on report;
/// the last two may be missing.
pub open spec fn outcome(c: Seq<Seq<char>>) -> OutcomeView {
    OutcomeView {
        status: StatusView::parsed(c[1], cell(c, 2)),
        exit_code: parse::exit_code(cell(c, 3)),
    }
}

/// A row of `sacct -P -o JobID,State,Reason,ExitCode`.
pub open spec fn sacct_outcome_row(line: Seq<char>) -> Option<(u64, OutcomeView)> {
    let c = model::split_n(line, '|', 4);
    match job_id(cell(c, 0)) {
        Some(id) => if c.len() >= 2 {
            Some((id, outcome(c)))
        } else {
            None
        },
        None => None,
    }
}

/// The words of a line without the column dividers.
pub open spec fn columns(words: Seq<Seq<char>>) -> Seq<Seq<char>>
    decreases words.len(),
{
    if words.len() == 0 {
        Seq::empty()
    } else {
        let before = columns(words.drop_last());
        if words.last() == seq!['|'] {
            before
        } else {
            before.push(words.last())
        }
    }
}

/// A row of `qgroup -l`: queue, user, job id and state, with or without dividers. The
/// summaries by queue and by user have no job id: there the third column is zero or no
/// number, or another number follows it.
pub open spec fn qgroup_row(line: Seq<char>) -> Option<(u64, StatusView)> {
    let c = columns(model::words(line));
    match job_id(cell(c, 2)) {
        Some(id) => if c.len() >= 4 && id != 0 && job_id(c[3]) is None {
            Some((id, StatusView::plain(JobState::parsed(c[3]))))
        } else {
            None
        },
        None => None,
    }
}

/// The row of one array task in `squeue -r -o "%i %T %r"`.
pub open spec fn squeue_task_row(line: Seq<char>, key: Seq<char>) -> Option<StatusView> {
    let w = model::words(line);
    if w.len() >= 2 && w[0] == key {
        Some(StatusView::parsed(w[1], cell(w, 2)))
    } else {
        None
    }
}

/// The row of one array task in `sacct -P -o JobID,State,Reason,ExitCode`.
pub open spec fn sacct_task_row(line: Seq<char>, key: Seq<char>) -> Option<OutcomeView> {
    let c = model::split_n(line, '|', 4);
    if c.len() >= 2 && c[0] == key {
        Some(outcome(c))
    } else {
        None
    }
}

/// The statuses that `squeue` lists.
pub open spec fn squeue_table(text: Seq<char>) -> Map<u64, StatusView> {
    table(model::lines(text), |l: Seq<char>| squeue_row(l))
}

/// The statuses that `sacct` lists.
pub open spec fn sacct_table(text: Seq<char>) -> Map<u64, StatusView> {
    table(model::lines(text), |l: Seq<char>| sacct_row(l))
}

/// The outcomes that `sacct` lists.
pub open spec fn outcome_table(text: Seq<char>) -> Map<u64, OutcomeView> {
    table(model::lines(text), |l: Seq<char>| sacct_outcome_row(l))
}

/// The statuses that `qgroup -l` lists.
pub open spec fn qgroup_table(text: Seq<char>) -> Map<u64, StatusView> {
    table(model::lines(text), |l: Seq<char>| qgroup_row(l))
}

/// Every exit code in the listing is of 32 bits.
pub open spec fn exit_codes_fit(text: Seq<char>) -> bool {
    forall|i: int|
        0 <= i < model::lines(text).len() ==> row_fits(#[trigger] model::lines(text)[i])
}

/// The exit code of a row, where the line is one.
pub open spec fn row_fits(line: Seq<char>) -> bool {
    sacct_outcome_row(line) is Some ==> parse::exit_code_fits(
        cell(model::split_n(line, '|', 4), 3),
    )
}

/// The exit code of the first row of the task is of 32 bits.
pub open spec fn task_exit_code_fits(lines: Seq<Seq<char>>, key: Seq<char>) -> bool
    decreases lines.len(),
{
    if lines.len() == 0 {
        true
    } else if sacct_task_row(lines[0], key) is Some {
        parse::exit_code_fits(cell(model::split_n(lines[0], '|', 4), 3))
    } else {
        task_exit_code_fits(lines.skip(1), key)
    }
}

/// The cell at `i`, or nothing where the row is shorter.
fn get_cell<'a>(cells: &Vec<&'a [char]>, i: usize, none: &'a [char]) -> (r: &'a [char])
    requires
        none@.len() == 0,
    ensures
        r@ == cell(model::views(cells@), i as int),
{
    if i < cells.len() {
        cells[i]
    } else {
        assert(none@ == Seq::<char>::empty());
        none
    }
}

/// Reads a row of `squeue`.
fn parse_squeue_row(line: &[char]) -> (r: Option<(u64, JobStatus)>)
    ensures
        match r {
            Some((id, s)) => squeue_row(line@) == Some((id, s@)),
            None => squeue_row(line@) is None,
        },
{
    let none: Vec<char> = Vec::new();
    let w = text::words(line);
    assert(model::views(w@) == model::words(line@));
    if w.len() < 2 {
        return None;
    }
    match number::parse_u64(w[0]) {
        Some(id) => Some((id, JobStatus::parse_chars(w[1], get_cell(&w, 2, none.as_slice())))),
        None => None,
    }
}

/// Reads a row of `sacct`.
fn parse_sacct_row(line: &[char]) -> (r: Option<(u64, JobStatus)>)
    ensures
        match r {
            Some((id, s)) => sacct_row(line@) == Some((id, s@)),
            None => sacct_row(line@) is None,
        },
{
    let none: Vec<char> = Vec::new();
    let c = text::split_n(line, '|', 3);
    assert(model::views(c@) == model::split_n(line@, '|', 3));
    if c.len() < 2 {
        return None;
    }
    match number::parse_u64(c[0]) {
        Some(id) => Some((id, JobStatus::parse_chars(c[1], get_cell(&c, 2, none.as_slice())))),
        None => None,
    }
}

/// Reads the outcome from the cells of a row.
fn parse_outcome(c: &Vec<&[char]>) -> (r: JobOutcome)
    requires
        c.len() >= 2,
        parse::exit_code_fits(cell(model::views(c@), 3)),
    ensures
        r@ == outcome(model::views(c@)),
{
    let none: Vec<char> = Vec::new();
    let status = JobStatus::parse_chars(c[1], get_cell(c, 2, none.as_slice()));
    let exit_code = parse::parse_exit_chars(get_cell(c, 3, none.as_slice()));
    JobOutcome { status, exit_code }
}

/// Reads a row of `sacct` with its exit code.
fn parse_sacct_outcome_row(line: &[char]) -> (r: Option<(u64, JobOutcome)>)
    requires
        row_fits(line@),
    ensures
        match r {
            Some((id, s)) => sacct_outcome_row(line@) == Some((id, s@)),
            None => sacct_outcome_row(line@) is None,
        },
{
    let c = text::split_n(line, '|', 4);
    assert(model::views(c@) == model::split_n(line@, '|', 4));
    if c.len() < 2 {
        return None;
    }
    match number::parse_u64(c[0]) {
        Some(id) => Some((id, parse_outcome(&c))),
        None => None,
    }
}

/// The words without the column dividers.
fn drop_dividers<'a>(words: &Vec<&'a [char]>) -> (r: Vec<&'a [char]>)
    ensures
        model::views(r@) == columns(model::views(words@)),
{
    let ghost all = model::views(words@);
    let mut out: Vec<&'a [char]> = Vec::new();
    let mut i: usize = 0;
    assert(model::views(out@) == Seq::<Seq<char>>::empty());
    while i < words.len()
        invariant
            i <= words.len(),
            all == model::views(words@),
            model::views(out@) == columns(all.take(i as int)),
        decreases words.len() - i,
    {
        assert(all.take(i + 1).drop_last() == all.take(i as int));
        assert(all.take(i + 1).last() == words@[i as int]@);
        let w = words[i];
        if w.len() == 1 && w[0] == '|' {
            assert(w@ == seq!['|']);
        } else {
            assert(w@ != seq!['|']) by {
                assert(seq!['|'].len() == 1 && seq!['|'][0] == '|');
            }
            let ghost before = out@;
            out.push(w);
            assert(model::views(out@) == model::views(before).push(w@));
        }
        i = i + 1;
    }
    assert(all.take(i as int) == all);
    out
}

/// Reads a row of `qgroup -l`.
fn parse_qgroup_row(line: &[char]) -> (r: Option<(u64, JobStatus)>)
    ensures
        match r {
            Some((id, s)) => qgroup_row(line@) == Some((id, s@)),
            None => qgroup_row(line@) is None,
        },
{
    let words = text::words(line);
    let c = drop_dividers(&words);
    assert(model::views(c@) == columns(model::words(line@)));
    if c.len() < 4 {
        return None;
    }
    match number::parse_u64(c[2]) {
        Some(id) => if id != 0 && number::parse_u64(c[3]).is_none() {
            Some((id, JobStatus::new(JobState::parse_chars(c[3]))))
        } else {
            None
        },
        None => None,
    }
}

/// Inserting commutes with looking inside.
proof fn lemma_status_insert(m: Map<u64, JobStatus>, id: u64, s: JobStatus)
    ensures
        status_views(m.insert(id, s)) == status_views(m).insert(id, s@),
{
    assert(status_views(m.insert(id, s)) =~= status_views(m).insert(id, s@));
}

/// Inserting commutes with looking inside.
proof fn lemma_outcome_insert(m: Map<u64, JobOutcome>, id: u64, s: JobOutcome)
    ensures
        outcome_views(m.insert(id, s)) == outcome_views(m).insert(id, s@),
{
    assert(outcome_views(m.insert(id, s)) =~= outcome_views(m).insert(id, s@));
}

/// Reads what `squeue -h -r -o "%i %T %r"` lists.
pub fn parse_squeue(text: &str) -> (r: HashMap<u64, JobStatus>)
    ensures
        status_views(r@) == squeue_table(text@),
{
    broadcast use vstd::std_specs::hash::group_hash_axioms;

    let cs = text::chars_of(text);
    let lines = text::lines(cs.as_slice());
    let ghost texts = model::views(lines@);
    let ghost row = |l: Seq<char>| squeue_row(l);
    let mut out: HashMap<u64, JobStatus> = HashMap::new();
    let mut i: usize = 0;
    assert(status_views(out@) =~= Map::<u64, StatusView>::empty());
    while i < lines.len()
        invariant
            i <= lines.len(),
            texts == model::views(lines@),
            row == (|l: Seq<char>| squeue_row(l)),
            status_views(out@) == table(texts.take(i as int), row),
        decreases lines.len() - i,
    {
        broadcast use vstd::std_specs::hash::group_hash_axioms;

        assert(texts.take(i + 1).drop_last() == texts.take(i as int));
        assert(texts.take(i + 1).last() == lines@[i as int]@);
        if let Some((id, s)) = parse_squeue_row(lines[i]) {
            proof {
                lemma_status_insert(out@, id, s);
            }
            out.insert(id, s);
        }
        i = i + 1;
    }
    assert(texts.take(i as int) == texts);
    out
}

/// Reads what `sacct -P -n -o JobID,State,Reason` lists.
pub fn parse_sacct(text: &str) -> (r: HashMap<u64, JobStatus>)
    ensures
        status_views(r@) == sacct_table(text@),
{
    broadcast use vstd::std_specs::hash::group_hash_axioms;

    let cs = text::chars_of(text);
    let lines = text::lines(cs.as_slice());
    let ghost texts = model::views(lines@);
    let ghost row = |l: Seq<char>| sacct_row(l);
    let mut out: HashMap<u64, JobStatus> = HashMap::new();
    let mut i: usize = 0;
    assert(status_views(out@) =~= Map::<u64, StatusView>::empty());
    while i < lines.len()
        invariant
            i <= lines.len(),
            texts == model::views(lines@),
            row == (|l: Seq<char>| sacct_row(l)),
            status_views(out@) == table(texts.take(i as int), row),
        decreases lines.len() - i,
    {
        broadcast use vstd::std_specs::hash::group_hash_axioms;

        assert(texts.take(i + 1).drop_last() == texts.take(i as int));
        assert(texts.take(i + 1).last() == lines@[i as int]@);
        if let Some((id, s)) = parse_sacct_row(lines[i]) {
            proof {
                lemma_status_insert(out@, id, s);
            }
            out.insert(id, s);
        }
        i = i + 1;
    }
    assert(texts.take(i as int) == texts);
    out
}

/// Reads what `sacct -P -n -o JobID,State,Reason,ExitCode` lists.
pub fn parse_sacct_with_exit_code(text: &str) -> (r: HashMap<u64, JobOutcome>)
    requires
        exit_codes_fit(text@),
    ensures
        outcome_views(r@) == outcome_table(text@),
{
    broadcast use vstd::std_specs::hash::group_hash_axioms;

    let cs = text::chars_of(text);
    let lines = text::lines(cs.as_slice());
    let ghost texts = model::views(lines@);
    let ghost row = |l: Seq<char>| sacct_outcome_row(l);
    let mut out: HashMap<u64, JobOutcome> = HashMap::new();
    let mut i: usize = 0;
    assert(outcome_views(out@) =~= Map::<u64, OutcomeView>::empty());
    while i < lines.len()
        invariant
            i <= lines.len(),
            exit_codes_fit(text@),
            texts == model::lines(text@),
            texts == model::views(lines@),
            row == (|l: Seq<char>| sacct_outcome_row(l)),
            outcome_views(out@) == table(texts.take(i as int), row),
        decreases lines.len() - i,
    {
        broadcast use vstd::std_specs::hash::group_hash_axioms;

        assert(texts.take(i + 1).drop_last() == texts.take(i as int));
        assert(texts.take(i + 1).last() == lines@[i as int]@);
        assert(row_fits(model::lines(text@)[i as int]));
        if let Some((id, s)) = parse_sacct_outcome_row(lines[i]) {
            proof {
                lemma_outcome_insert(out@, id, s);
            }
            out.insert(id, s);
        }
        i = i + 1;
    }
    assert(texts.take(i as int) == texts);
    out
}

/// Whether every exit code in what `sacct` lists is of 32 bits.
pub fn check_exit_codes(text: &str) -> (r: bool)
    ensures
        r == exit_codes_fit(text@),
{
    let cs = text::chars_of(text);
    let lines = text::lines(cs.as_slice());
    let ghost texts = model::views(lines@);
    let none: Vec<char> = Vec::new();
    let mut i: usize = 0;
    while i < lines.len()
        invariant
            i <= lines.len(),
            none@.len() == 0,
            texts == model::lines(text@),
            texts == model::views(lines@),
            forall|k: int| 0 <= k < i ==> row_fits(#[trigger] texts[k]),
        decreases lines.len() - i,
    {
        let c = text::split_n(lines[i], '|', 4);
        assert(model::views(c@) == model::split_n(texts[i as int], '|', 4));
        if c.len() >= 2 && number::parse_u64(c[0]).is_some() && !parse::exit_field_fits(
            get_cell(&c, 3, none.as_slice()),
        ) {
            assert(!row_fits(model::lines(text@)[i as int]));
            return false;
        }
        assert(row_fits(texts[i as int]));
        i = i + 1;
    }
    true
}

/// Reads what `qgroup -l` lists.
pub fn parse_qgroup_l(stdout: &str) -> (r: HashMap<u64, JobStatus>)
    ensures
        status_views(r@) == qgroup_table(stdout@),
{
    broadcast use vstd::std_specs::hash::group_hash_axioms;

    let cs = text::chars_of(stdout);
    let lines = text::lines(cs.as_slice());
    let ghost texts = model::views(lines@);
    let ghost row = |l: Seq<char>| qgroup_row(l);
    let mut out: HashMap<u64, JobStatus> = HashMap::new();
    let mut i: usize = 0;
    assert(status_views(out@) =~= Map::<u64, StatusView>::empty());
    while i < lines.len()
        invariant
            i <= lines.len(),
            texts == model::views(lines@),
            row == (|l: Seq<char>| qgroup_row(l)),
            status_views(out@) == table(texts.take(i as int), row),
        decreases lines.len() - i,
    {
        broadcast use vstd::std_specs::hash::group_hash_axioms;

        assert(texts.take(i + 1).drop_last() == texts.take(i as int));
        assert(texts.take(i + 1).last() == lines@[i as int]@);
        if let Some((id, s)) = parse_qgroup_row(lines[i]) {
            proof {
                lemma_status_insert(out@, id, s);
            }
            out.insert(id, s);
        }
        i = i + 1;
    }
    assert(texts.take(i as int) == texts);
    out
}

/// Reads the status of one array task, `<master>_<index>`, from what
/// `squeue -h -r -o "%i %T %r"` lists. Rows of other jobs do not count.
pub fn parse_squeue_array_task(text: &str, key: &str) -> (r: Option<JobStatus>)
    ensures
        match r {
            Some(s) => first_row(model::lines(text@), |l: Seq<char>| squeue_task_row(l, key@))
                == Some(s@),
            None => first_row(model::lines(text@), |l: Seq<char>| squeue_task_row(l, key@)) is None,
        },
{
    let cs = text::chars_of(text);
    let lines = text::lines(cs.as_slice());
    let ghost texts = model::views(lines@);
    let ghost row = |l: Seq<char>| squeue_task_row(l, key@);
    let none: Vec<char> = Vec::new();
    let mut i: usize = 0;
    assert(texts.skip(0) == texts);
    while i < lines.len()
        invariant
            i <= lines.len(),
            none@.len() == 0,
            texts == model::lines(text@),
            texts == model::views(lines@),
            row == (|l: Seq<char>| squeue_task_row(l, key@)),
            first_row(texts.skip(i as int), row) == first_row(texts, row),
        decreases lines.len() - i,
    {
        assert(texts.skip(i as int)[0] == lines@[i as int]@);
        assert(texts.skip(i as int).skip(1) == texts.skip(i + 1));
        let w = text::words(lines[i]);
        assert(model::views(w@) == model::words(texts[i as int]));
        if w.len() >= 2 && text::is_str(w[0], key) {
            return Some(JobStatus::parse_chars(w[1], get_cell(&w, 2, none.as_slice())));
        }
        i = i + 1;
    }
    None
}

/// Reads the outcome of one array task, `<master>_<index>`, from what
/// `sacct -P -n -o JobID,State,Reason,ExitCode` lists. Rows of its steps and of other
/// jobs do not count.
pub fn parse_sacct_array_task_with_exit_code(text: &str, key: &str) -> (r: Option<JobOutcome>)
    requires
        task_exit_code_fits(model::lines(text@), key@),
    ensures
        match r {
            Some(s) => first_row(model::lines(text@), |l: Seq<char>| sacct_task_row(l, key@))
                == Some(s@),
            None => first_row(model::lines(text@), |l: Seq<char>| sacct_task_row(l, key@)) is None,
        },
{
    let cs = text::chars_of(text);
    let lines = text::lines(cs.as_slice());
    let ghost texts = model::views(lines@);
    let ghost row = |l: Seq<char>| sacct_task_row(l, key@);
    let mut i: usize = 0;
    assert(texts.skip(0) == texts);
    while i < lines.len()
        invariant
            i <= lines.len(),
            texts == model::lines(text@),
            texts == model::views(lines@),
            row == (|l: Seq<char>| sacct_task_row(l, key@)),
            first_row(texts.skip(i as int), row) == first_row(texts, row),
            task_exit_code_fits(texts.skip(i as int), key@),
        decreases lines.len() - i,
    {
        assert(texts.skip(i as int)[0] == lines@[i as int]@);
        assert(texts.skip(i as int).skip(1) == texts.skip(i + 1));
        let c = text::split_n(lines[i], '|', 4);
        assert(model::views(c@) == model::split_n(texts[i as int], '|', 4));
        if c.len() >= 2 && text::is_str(c[0], key) {
            return Some(parse_outcome(&c));
        }
        i = i + 1;
    }
    None
}

/// Whether the exit code of the first row of the task is of 32 bits.
pub fn check_task_exit_code(text: &str, key: &str) -> (r: bool)
    ensures
        r == task_exit_code_fits(model::lines(text@), key@),
{
    let cs = text::chars_of(text);
    let lines = text::lines(cs.as_slice());
    let ghost texts = model::views(lines@);
    let none: Vec<char> = Vec::new();
    let mut i: usize = 0;
    assert(texts.skip(0) == texts);
    while i < lines.len()
        invariant
            i <= lines.len(),
            none@.len() == 0,
            texts == model::lines(text@),
            texts == model::views(lines@),
            task_exit_code_fits(texts.skip(i as int), key@) == task_exit_code_fits(texts, key@),
        decreases lines.len() - i,
    {
        assert(texts.skip(i as int)[0] == lines@[i as int]@);
        assert(texts.skip(i as int).skip(1) == texts.skip(i + 1));
        let c = text::split_n(lines[i], '|', 4);
        assert(model::views(c@) == model::split_n(texts[i as int], '|', 4));
        if c.len() >= 2 && text::is_str(c[0], key) {
            return parse::exit_field_fits(get_cell(&c, 3, none.as_slice()));
        }
        i = i + 1;
    }
    true
}

/// A job that `squeue` lists with a state and a reason is read with them.
pub proof fn law_squeue_row_is_read(id: u64, state: JobState, reason: Seq<char>)
    requires
        reason.len() > 0,
        forall|i: int| 0 <= i < reason.len() ==> !model::is_white(#[trigger] reason[i]),
    ensures
        squeue_row(
            model::decimal(id as nat) + seq![' '] + state.token() + seq![' '] + reason,
        ) == Some((id, StatusView { state, reason: JobReason::parsed(reason) })),
{
    let key = model::decimal(id as nat);
    lemmas::lemma_decimal(id as nat);
    assert forall|i: int| 0 <= i < key.len() implies !model::is_white(#[trigger] key[i]) by {
        assert(model::is_digit(key[i]));
    }
    status::lemma_token_word(state);
    status::law_job_state_round_trip(state);
    let rest = state.token() + seq![' '] + reason;
    lemmas::lemma_words_cons(key, rest);
    lemmas::lemma_words_cons(state.token(), reason);
    lemmas::lemma_one_word(reason);
    let line = key + seq![' '] + state.token() + seq![' '] + reason;
    assert(line == key + seq![' '] + rest);
    let w = model::words(line);
    assert(w == seq![key] + (seq![state.token()] + seq![reason]));
    assert(w[0] == key && w[1] == state.token() && w[2] == reason);
}

/// A job that `sacct` lists with a state, a reason and an exit code is read with them.
pub proof fn law_sacct_row_is_read(
    id: u64,
    state: JobState,
    reason: Seq<char>,
    exit: nat,
    signal: nat,
)
    requires
        !reason.contains('|'),
        exit <= i32::MAX,
        signal <= i32::MAX,
    ensures
        sacct_outcome_row(
            model::decimal(id as nat) + seq!['|'] + state.token() + seq!['|'] + reason + seq!['|']
                + (model::decimal(exit) + seq![':'] + model::decimal(signal)),
        ) == Some(
            (
                id,
                OutcomeView {
                    status: StatusView { state, reason: JobReason::parsed(reason) },
                    exit_code: Some(
                        if signal != 0 {
                            128 + signal as int
                        } else {
                            exit as int
                        },
                    ),
                },
            ),
        ),
{
    let key = model::decimal(id as nat);
    let code = model::decimal(exit) + seq![':'] + model::decimal(signal);
    lemmas::lemma_decimal(id as nat);
    lemmas::lemma_digits_without(key, '|');
    status::lemma_token_word(state);
    status::law_job_state_round_trip(state);
    parse::law_exit_code_is_read(exit, signal);
    let c = reason + seq!['|'] + code;
    let b = state.token() + seq!['|'] + c;
    let line = key + seq!['|'] + state.token() + seq!['|'] + reason + seq!['|'] + code;
    assert(line == key + seq!['|'] + b);
    lemmas::lemma_split_n_some(key, '|', b, 4);
    lemmas::lemma_split_n_some(state.token(), '|', c, 3);
    lemmas::lemma_split_n_some(reason, '|', code, 2);
    assert(model::split_n(code, '|', 1) == seq![code]);
    let cells = model::split_n(line, '|', 4);
    assert(cells == seq![key] + (seq![state.token()] + (seq![reason] + seq![code])));
    assert(cells[0] == key && cells[1] == state.token() && cells[2] == reason && cells[3] == code);
}

/// A word that is no column divider.
pub open spec fn is_label(w: Seq<char>) -> bool {
    &&& w.len() > 0
    &&& forall|i: int| 0 <= i < w.len() ==> !model::is_white(#[trigger] w[i])
    &&& w != seq!['|']
}

/// A job that `qgroup` lists with a state is read with it, whatever the queue and the
/// user are called and whatever follows.
pub proof fn law_qgroup_row_is_read(
    queue: Seq<char>,
    user: Seq<char>,
    id: u64,
    state: JobState,
    rest: Seq<char>,
)
    requires
        is_label(queue),
        is_label(user),
        id != 0,
    ensures
        qgroup_row(
            queue + seq![' '] + user + seq![' '] + model::decimal(id as nat) + seq![' ']
                + state.token() + seq![' '] + rest,
        ) == Some((id, StatusView::plain(state))),
{
    let key = model::decimal(id as nat);
    lemmas::lemma_decimal(id as nat);
    assert(model::is_digit(key[0]));
    assert forall|i: int| 0 <= i < key.len() implies !model::is_white(#[trigger] key[i]) by {
        assert(model::is_digit(key[i]));
    }
    status::lemma_token_word(state);
    status::law_job_state_round_trip(state);
    let token = state.token();
    let d = token + seq![' '] + rest;
    let c = key + seq![' '] + d;
    let b = user + seq![' '] + c;
    let line = queue + seq![' '] + user + seq![' '] + key + seq![' '] + token + seq![' '] + rest;
    assert(line == queue + seq![' '] + b);
    lemmas::lemma_words_cons(queue, b);
    lemmas::lemma_words_cons(user, c);
    lemmas::lemma_words_cons(key, d);
    lemmas::lemma_words_cons(token, rest);
    let head = seq![queue, user, key, token];
    let words = model::words(line);
    assert(words == head + model::words(rest));
    assert(seq!['|'][0] == '|');
    assert(key != seq!['|']);
    assert(!model::is_digit(token[0]));
    assert(token != seq!['|']) by {
        if token == seq!['|'] {
            assert(token[0] == '|');
        }
    }
    assert forall|i: int| 0 <= i < head.len() implies #[trigger] head[i] != seq!['|'] by {}
    lemma_columns_plain(head);
    lemma_columns_sum(head, model::words(rest));
    let all = columns(words);
    assert(all[2] == key && all[3] == token);
    assert(job_id(token) is None);
}

/// Column dividers are left out piece by piece.
proof fn lemma_columns_sum(a: Seq<Seq<char>>, b: Seq<Seq<char>>)
    ensures
        columns(a + b) == columns(a) + columns(b),
    decreases b.len(),
{
    if b.len() == 0 {
        assert(a + b == a);
        assert(columns(a) + columns(b) == columns(a));
    } else {
        lemma_columns_sum(a, b.drop_last());
        assert((a + b).drop_last() == a + b.drop_last());
        assert((a + b).last() == b.last());
    }
}

/// Without dividers all words are columns.
proof fn lemma_columns_plain(a: Seq<Seq<char>>)
    requires
        forall|i: int| 0 <= i < a.len() ==> #[trigger] a[i] != seq!['|'],
    ensures
        columns(a) == a,
    decreases a.len(),
{
    if a.len() > 0 {
        let before = a.drop_last();
        assert forall|i: int| 0 <= i < before.len() implies #[trigger] before[i] != seq!['|'] by {
            assert(before[i] == a[i]);
        }
        lemma_columns_plain(before);
        assert(a[a.len() - 1] != seq!['|']);
        assert(before.push(a.last()) == a);
    }
}

/// A line of counts, as in the summaries of `qgroup`, is no row of a job: where the state
/// of a job would stand there is another number.
pub proof fn law_counts_are_no_rows(line: Seq<char>)
    requires
        columns(model::words(line)).len() >= 4,
        job_id(columns(model::words(line))[3]) is Some,
    ensures
        qgroup_row(line) is None,
{
}

/// The rows of the steps of a job, which have a dot in their id, are no rows of jobs.
pub proof fn law_step_rows_do_not_count(line: Seq<char>)
    requires
        cell(model::split_n(line, '|', 3), 0).contains('.'),
    ensures
        sacct_row(line) is None,
        sacct_outcome_row(line) is None,
{
    let id = cell(model::split_n(line, '|', 3), 0);
    assert(cell(model::split_n(line, '|', 4), 0) == id);
    let k = choose|k: int| 0 <= k < id.len() && id[k] == '.';
    let digits = if id[0] == '+' {
        id.skip(1)
    } else {
        id
    };
    if model::all_digits(digits) {
        if id[0] == '+' {
            assert(digits[k - 1] == '.');
            assert(model::is_digit(digits[k - 1]));
        } else {
            assert(model::is_digit(digits[k]));
        }
    }
}

/// Column dividers make no difference.
pub proof fn law_dividers_do_not_count(a: Seq<Seq<char>>, b: Seq<Seq<char>>)
    ensures
        columns(a + seq![seq!['|']] + b) == columns(a + b),
    decreases b.len(),
{
    let with = a + seq![seq!['|']] + b;
    let without = a + b;
    if b.len() == 0 {
        assert(with.drop_last() == a);
        assert(without == a);
    } else {
        law_dividers_do_not_count(a, b.drop_last());
        assert(with.drop_last() == a + seq![seq!['|']] + b.drop_last());
        assert(without.drop_last() == a + b.drop_last());
        assert(with.last() == b.last() && without.last() == b.last());
    }
}

/// The line is a row of the job.
pub open spec fn is_row_of<V>(row: Option<(u64, V)>, id: u64) -> bool {
    match row {
        Some((k, _)) => k == id,
        None => false,
    }
}

/// Of several rows of a job the last one decides.
pub proof fn law_last_row_decides<V>(
    lines: Seq<Seq<char>>,
    row: spec_fn(Seq<char>) -> Option<(u64, V)>,
    n: int,
    id: u64,
    v: V,
)
    requires
        0 <= n < lines.len(),
        row(lines[n]) == Some((id, v)),
        forall|k: int|
            n < k < lines.len() ==> !is_row_of(row(#[trigger] lines[k]), id),
    ensures
        table(lines, row).dom().contains(id),
        table(lines, row)[id] == v,
    decreases lines.len(),
{
    let before = lines.drop_last();
    if n < lines.len() - 1 {
        assert(lines[n] == before[n]);
        assert forall|k: int| n < k < before.len() implies !is_row_of(row(#[trigger] before[k]), id) by {
            assert(before[k] == lines[k]);
        }
        law_last_row_decides(before, row, n, id, v);
        assert(!is_row_of(row(lines[lines.len() - 1]), id));
    }
}

/// A listing without a row of a job does not tell of it.
pub proof fn law_no_row_no_entry<V>(
    lines: Seq<Seq<char>>,
    row: spec_fn(Seq<char>) -> Option<(u64, V)>,
    id: u64,
)
    requires
        forall|k: int|
            0 <= k < lines.len() ==> !is_row_of(row(#[trigger] lines[k]), id),
    ensures
        !table(lines, row).dom().contains(id),
    decreases lines.len(),
{
    if lines.len() > 0 {
        let before = lines.drop_last();
        assert forall|k: int| 0 <= k < before.len() implies !is_row_of(row(#[trigger] before[k]), id) by {
            assert(before[k] == lines[k]);
        }
        law_no_row_no_entry(before, row, id);
        assert(!is_row_of(row(lines[lines.len() - 1]), id));
    }
}

/// The last row of the job in the listing is `v`.
pub open spec fn last_row<V>(
    lines: Seq<Seq<char>>,
    row: spec_fn(Seq<char>) -> Option<(u64, V)>,
    id: u64,
    v: V,
) -> bool {
    exists|n: int|
        0 <= n < lines.len() && #[trigger] row(lines[n]) == Some((id, v)) && forall|k: int|
            n < k < lines.len() ==> !is_row_of(row(#[trigger] lines[k]), id)
}

/// The listing has no row of the job.
pub open spec fn no_row<V>(
    lines: Seq<Seq<char>>,
    row: spec_fn(Seq<char>) -> Option<(u64, V)>,
    id: u64,
) -> bool {
    forall|k: int| 0 <= k < lines.len() ==> !is_row_of(row(#[trigger] lines[k]), id)
}

/// The table has a job exactly where the listing has a row of it, and what it has is the
/// last of these rows.
pub proof fn law_table_holds_the_last_rows<V>(
    lines: Seq<Seq<char>>,
    row: spec_fn(Seq<char>) -> Option<(u64, V)>,
    id: u64,
)
    ensures
        table(lines, row).dom().contains(id) <==> !no_row(lines, row, id),
        table(lines, row).dom().contains(id) <==> last_row(lines, row, id, table(lines, row)[id]),
        forall|v: V| #[trigger] last_row(lines, row, id, v) ==> table(lines, row)[id] == v,
    decreases lines.len(),
{
    let t = table(lines, row);
    if no_row(lines, row, id) {
        law_no_row_no_entry(lines, row, id);
    }
    assert forall|v: V| #[trigger] last_row(lines, row, id, v) implies t.dom().contains(id) && t[id]
        == v by {
        let n = choose|n: int|
            0 <= n < lines.len() && #[trigger] row(lines[n]) == Some((id, v)) && forall|k: int|
                n < k < lines.len() ==> !is_row_of(row(#[trigger] lines[k]), id);
        law_last_row_decides(lines, row, n, id, v);
    }
    if lines.len() > 0 {
        let before = lines.drop_last();
        law_table_holds_the_last_rows(before, row, id);
        if !no_row(lines, row, id) {
            let k = choose|k: int|
                0 <= k < lines.len() && is_row_of(row(#[trigger] lines[k]), id);
            if k < before.len() {
                assert(is_row_of(row(before[k]), id));
            }
        }
        if t.dom().contains(id) {
            let e = lines.len() - 1;
            if is_row_of(row(lines[e]), id) {
                assert(row(lines[e]) == Some((id, t[id])));
                assert(last_row(lines, row, id, t[id]));
            } else {
                let n = choose|n: int|
                    0 <= n < before.len() && #[trigger] row(before[n]) == Some((id, t[id]))
                        && forall|k: int|
                        n < k < before.len() ==> !is_row_of(row(#[trigger] before[k]), id);
                assert(row(lines[n]) == Some((id, t[id])));
                assert forall|k: int| n < k < lines.len() implies !is_row_of(
                    row(#[trigger] lines[k]),
                    id,
                ) by {
                    if k < e {
                        assert(lines[k] == before[k]);
                    }
                }
                assert(last_row(lines, row, id, t[id]));
            }
            let n = choose|n: int|
                0 <= n < lines.len() && #[trigger] row(lines[n]) == Some((id, t[id])) && forall|
                    k: int,
                |
                    n < k < lines.len() ==> !is_row_of(row(#[trigger] lines[k]), id);
            assert(is_row_of(row(lines[n]), id));
        }
    }
}

/// The first row decides.
pub proof fn lemma_first_row<V>(
    lines: Seq<Seq<char>>,
    row: spec_fn(Seq<char>) -> Option<V>,
    n: int,
)
    requires
        0 <= n <= lines.len(),
        forall|k: int| 0 <= k < n ==> row(#[trigger] lines[k]) is None,
        n < lines.len() ==> row(lines[n]) is Some,
    ensures
        first_row(lines, row) == if n < lines.len() {
            row(lines[n])
        } else {
            None
        },
    decreases n,
{
    if n > 0 {
        let rest = lines.skip(1);
        assert(row(lines[0]) is None);
        assert forall|k: int| 0 <= k < n - 1 implies row(#[trigger] rest[k]) is None by {
            assert(rest[k] == lines[k + 1]);
        }
        if n < lines.len() {
            assert(rest[n - 1] == lines[n]);
        }
        lemma_first_row(rest, row, n - 1);
    }
}

/// What is read of a listing are the last rows of its jobs, in each of the forms.
pub proof fn law_listings_are_read(
    text: &str,
    squeue: HashMap<u64, JobStatus>,
    sacct: HashMap<u64, JobStatus>,
    outcomes: HashMap<u64, JobOutcome>,
    qgroup: HashMap<u64, JobStatus>,
    id: u64,
)
    requires
        call_ensures(parse_squeue, (text,), squeue),
        call_ensures(parse_sacct, (text,), sacct),
        call_ensures(parse_sacct_with_exit_code, (text,), outcomes),
        call_ensures(parse_qgroup_l, (text,), qgroup),
    ensures
        ({
            let lines = model::lines(text@);
            let a = |l: Seq<char>| squeue_row(l);
            let b = |l: Seq<char>| sacct_row(l);
            let c = |l: Seq<char>| sacct_outcome_row(l);
            let d = |l: Seq<char>| qgroup_row(l);
            &&& squeue@.dom().contains(id) <==> !no_row(lines, a, id)
            &&& sacct@.dom().contains(id) <==> !no_row(lines, b, id)
            &&& outcomes@.dom().contains(id) <==> !no_row(lines, c, id)
            &&& qgroup@.dom().contains(id) <==> !no_row(lines, d, id)
            &&& forall|v: StatusView| #[trigger] last_row(lines, a, id, v) ==> squeue@[id]@ == v
            &&& forall|v: StatusView| #[trigger] last_row(lines, b, id, v) ==> sacct@[id]@ == v
            &&& forall|v: OutcomeView| #[trigger] last_row(lines, c, id, v) ==> outcomes@[id]@ == v
            &&& forall|v: StatusView| #[trigger] last_row(lines, d, id, v) ==> qgroup@[id]@ == v
        }),
{
    let lines = model::lines(text@);
    law_table_holds_the_last_rows(lines, |l: Seq<char>| squeue_row(l), id);
    law_table_holds_the_last_rows(lines, |l: Seq<char>| sacct_row(l), id);
    law_table_holds_the_last_rows(lines, |l: Seq<char>| sacct_outcome_row(l), id);
    law_table_holds_the_last_rows(lines, |l: Seq<char>| qgroup_row(l), id);
    assert(status_views(squeue@).dom().contains(id) <==> squeue@.dom().contains(id));
    assert(status_views(sacct@).dom().contains(id) <==> sacct@.dom().contains(id));
    assert(outcome_views(outcomes@).dom().contains(id) <==> outcomes@.dom().contains(id));
    assert(status_views(qgroup@).dom().contains(id) <==> qgroup@.dom().contains(id));
}

/// The word is one word.
pub open spec fn is_word(w: Seq<char>) -> bool {
    w.len() > 0 && forall|i: int| 0 <= i < w.len() ==> !model::is_white(#[trigger] w[i])
}

/// A line of `squeue` is read by its words: a number, a state and, where there is one, a
/// reason; whatever else follows does not count. The row of an array task has its key in
/// place of the number, and is the row of no other task and of no job.
pub proof fn law_squeue_lines(key: Seq<char>, state: Seq<char>, reason: Seq<char>, rest: Seq<char>)
    requires
        is_word(key),
        is_word(state),
        is_word(reason),
    ensures
        ({
            let short = key + seq![' '] + state;
            let line = key + seq![' '] + state + seq![' '] + reason;
            let long = key + seq![' '] + state + seq![' '] + reason + seq![' '] + rest;
            let status = StatusView {
                state: JobState::parsed(state),
                reason: JobReason::parsed(reason),
            };
            let bare = StatusView {
                state: JobState::parsed(state),
                reason: JobReason::parsed(Seq::empty()),
            };
            &&& job_id(key) matches Some(id) ==> squeue_row(short) == Some((id, bare))
                && squeue_row(line) == Some((id, status)) && squeue_row(long) == Some((id, status))
            &&& job_id(key) is None ==> squeue_row(short) is None && squeue_row(line) is None
                && squeue_row(long) is None
            &&& squeue_task_row(short, key) == Some(bare)
            &&& squeue_task_row(line, key) == Some(status)
            &&& squeue_task_row(long, key) == Some(status)
            &&& forall|other: Seq<char>|
                other != key ==> #[trigger] squeue_task_row(line, other) is None
                    && squeue_task_row(short, other) is None && squeue_task_row(
                    long,
                    other,
                ) is None
            &&& squeue_row(key) is None
            &&& squeue_task_row(key, key) is None
        }),
{
    let short = key + seq![' '] + state;
    let line = key + seq![' '] + state + seq![' '] + reason;
    let long = key + seq![' '] + state + seq![' '] + reason + seq![' '] + rest;
    lemmas::lemma_one_word(key);
    lemmas::lemma_one_word(state);
    lemmas::lemma_one_word(reason);
    lemmas::lemma_words_cons(key, state);
    let b = state + seq![' '] + reason;
    lemmas::lemma_words_cons(key, b);
    assert(line == key + seq![' '] + b);
    lemmas::lemma_words_cons(state, reason);
    let c = reason + seq![' '] + rest;
    let d = state + seq![' '] + c;
    lemmas::lemma_words_cons(key, d);
    lemmas::lemma_words_cons(state, c);
    lemmas::lemma_words_cons(reason, rest);
    assert(long == key + seq![' '] + d);
    assert(model::words(short) == seq![key, state]);
    assert(model::words(line) == seq![key, state, reason]);
    assert(model::words(long) == seq![key, state, reason] + model::words(rest));
    assert(model::words(long)[0] == key);
    assert(model::words(long)[1] == state);
    assert(model::words(long)[2] == reason);
}

/// A line of `sacct` is read by its cells: a number, a state and, where there are any, a
/// reason and an exit code. The row of an array task has its key in place of the number,
/// and is the row of no other task and of no job.
pub proof fn law_sacct_lines(
    key: Seq<char>,
    state: Seq<char>,
    reason: Seq<char>,
    code: Seq<char>,
)
    requires
        !key.contains('|'),
        !state.contains('|'),
        !reason.contains('|'),
    ensures
        ({
            let short = key + seq!['|'] + state;
            let line = key + seq!['|'] + state + seq!['|'] + reason;
            let long = key + seq!['|'] + state + seq!['|'] + reason + seq!['|'] + code;
            let status = StatusView {
                state: JobState::parsed(state),
                reason: JobReason::parsed(reason),
            };
            let bare = StatusView {
                state: JobState::parsed(state),
                reason: JobReason::parsed(Seq::empty()),
            };
            let outcome = OutcomeView { status, exit_code: parse::exit_code(code) };
            let no_code = OutcomeView { status, exit_code: None };
            let no_reason = OutcomeView { status: bare, exit_code: None };
            &&& job_id(key) matches Some(id) ==> {
                &&& sacct_row(short) == Some((id, bare))
                &&& sacct_row(line) == Some((id, status))
                &&& sacct_outcome_row(short) == Some((id, no_reason))
                &&& sacct_outcome_row(line) == Some((id, no_code))
                &&& sacct_outcome_row(long) == Some((id, outcome))
            }
            &&& job_id(key) is None ==> {
                &&& sacct_row(short) is None
                &&& sacct_row(line) is None
                &&& sacct_outcome_row(short) is None
                &&& sacct_outcome_row(line) is None
                &&& sacct_outcome_row(long) is None
            }
            &&& sacct_task_row(short, key) == Some(no_reason)
            &&& sacct_task_row(line, key) == Some(no_code)
            &&& sacct_task_row(long, key) == Some(outcome)
            &&& forall|other: Seq<char>|
                other != key ==> #[trigger] sacct_task_row(long, other) is None
                    && sacct_task_row(line, other) is None && sacct_task_row(short, other) is None
            &&& sacct_row(key) is None
            &&& sacct_outcome_row(key) is None
            &&& sacct_task_row(key, key) is None
        }),
{
    lemma_sacct_cells(key, state, reason, code);
}

/// The cells of such lines.
#[verifier::spinoff_prover]
proof fn lemma_sacct_cells(
    key: Seq<char>,
    state: Seq<char>,
    reason: Seq<char>,
    code: Seq<char>,
)
    requires
        !key.contains('|'),
        !state.contains('|'),
        !reason.contains('|'),
    ensures
        model::split_n(key + seq!['|'] + state, '|', 3) == seq![key, state],
        model::split_n(key + seq!['|'] + state, '|', 4) == seq![key, state],
        model::split_n(key + seq!['|'] + state + seq!['|'] + reason, '|', 3) == seq![
            key,
            state,
            reason,
        ],
        model::split_n(key + seq!['|'] + state + seq!['|'] + reason, '|', 4) == seq![
            key,
            state,
            reason,
        ],
        model::split_n(key + seq!['|'] + state + seq!['|'] + reason + seq!['|'] + code, '|', 4)
            == seq![key, state, reason, code],
        model::split_n(key, '|', 3) == seq![key],
        model::split_n(key, '|', 4) == seq![key],
        parse::exit_code(Seq::empty()) is None,
{
    let short = key + seq!['|'] + state;
    let b = state + seq!['|'] + reason;
    let line = key + seq!['|'] + state + seq!['|'] + reason;
    let c = reason + seq!['|'] + code;
    let d = state + seq!['|'] + c;
    let long = key + seq!['|'] + state + seq!['|'] + reason + seq!['|'] + code;
    assert(line == key + seq!['|'] + b);
    assert(long == key + seq!['|'] + d);
    lemmas::lemma_split_n_some(key, '|', state, 3);
    lemmas::lemma_split_n_some(key, '|', state, 4);
    lemmas::lemma_split_n_some(key, '|', b, 3);
    lemmas::lemma_split_n_some(key, '|', b, 4);
    lemmas::lemma_split_n_some(key, '|', d, 4);
    lemmas::lemma_split_n_some(state, '|', reason, 2);
    lemmas::lemma_split_n_some(state, '|', reason, 3);
    lemmas::lemma_split_n_some(state, '|', c, 3);
    lemmas::lemma_split_n_some(reason, '|', code, 2);
    lemmas::lemma_split_none(key, '|');
    lemmas::lemma_split_none(state, '|');
    lemmas::lemma_split_none(reason, '|');
    reveal_with_fuel(model::split_n, 2);
    assert(model::split_n(short, '|', 3) == seq![key, state]);
    assert(model::split_n(short, '|', 4) == seq![key, state]);
    assert(model::split_n(line, '|', 3) == seq![key, state, reason]);
    assert(model::split_n(line, '|', 4) == seq![key, state, reason]);
    assert(model::split_n(long, '|', 4) == seq![key, state, reason, code]);
    assert(model::split_n(key, '|', 3) == seq![key]);
    assert(model::split_n(key, '|', 4) == seq![key]);
    let nothing = Seq::<char>::empty();
    lemmas::lemma_split_none(nothing, ':');
}

/// A number in decimal is the id of the job; what is empty, or starts with something other
/// than a digit or a plus sign, is none.
pub proof fn law_job_ids(id: u64, s: Seq<char>)
    ensures
        job_id(model::decimal(id as nat)) == Some(id),
        s.len() == 0 ==> job_id(s) is None,
        s.len() > 0 && !model::is_digit(s[0]) && s[0] != '+' ==> job_id(s) is None,
        job_id(s) is Some ==> model::all_digits(s.skip(1)) && s.len() > 0,
{
    let key = model::decimal(id as nat);
    lemmas::lemma_decimal(id as nat);
    assert(model::is_digit(key[0]));
    if job_id(s) is Some {
        if s[0] != '+' {
            assert forall|i: int| 0 <= i < s.skip(1).len() implies model::is_digit(
                #[trigger] s.skip(1)[i],
            ) by {
                assert(s.skip(1)[i] == s[i + 1]);
            }
        }
    }
    if s.len() > 0 && !model::is_digit(s[0]) && s[0] != '+' {
        assert(!model::all_digits(s));
    }
}

/// A line of `qgroup` is read by its columns, with or without dividers: the third one is
/// the job id, and the fourth the state. It is no row where the id is zero or no number, or
/// where a number stands in the place of the state.
pub proof fn law_qgroup_lines(line: Seq<char>, columns_of: Seq<Seq<char>>)
    requires
        model::words(line).filter(|w: Seq<char>| w != seq!['|']) == columns_of,
    ensures
        columns_of.len() < 4 ==> qgroup_row(line) is None,
        columns_of.len() >= 4 ==> {
            let id = job_id(columns_of[2]);
            if id is Some && id != Some(0u64) && job_id(columns_of[3]) is None {
                qgroup_row(line) matches Some((read, status)) && read == id->0 && status.state
                    == JobState::parsed(columns_of[3]) && status.reason.text == "None"@
                    && !status.reason.other
            } else {
                qgroup_row(line) is None
            }
        },
{
    lemma_columns_filter(model::words(line));
}

/// The columns are the words other than the dividers.
proof fn lemma_columns_filter(words: Seq<Seq<char>>)
    ensures
        columns(words) == words.filter(|w: Seq<char>| w != seq!['|']),
    decreases words.len(),
{
    reveal(Seq::filter);
    if words.len() > 0 {
        lemma_columns_filter(words.drop_last());
    }
}

/// A listing is refused exactly where the code of a row, or of the first row of the task,
/// has more than 32 bits; every other one can be read.
pub proof fn law_exit_codes_are_checked(text: &str, r: bool, key: &str, q: bool, n: int)
    requires
        call_ensures(check_exit_codes, (text,), r),
        call_ensures(check_task_exit_code, (text, key), q),
        0 <= n <= model::lines(text@).len(),
    ensures
        r <==> forall|i: int|
            0 <= i < model::lines(text@).len() ==> (sacct_outcome_row(
                #[trigger] model::lines(text@)[i],
            ) matches Some((_, o)) ==> o.exit_code is Some ==> o.exit_code->0 <= i32::MAX),
        r ==> call_requires(parse_sacct_with_exit_code, (text,)),
        q ==> call_requires(parse_sacct_array_task_with_exit_code, (text, key)),
        (forall|k: int|
            0 <= k < n ==> sacct_task_row(#[trigger] model::lines(text@)[k], key@) is None) ==> {
            if n == model::lines(text@).len() {
                q
            } else {
                sacct_task_row(model::lines(text@)[n], key@) matches Some(o) ==> (q
                    <==> o.exit_code is Some ==> o.exit_code->0 <= i32::MAX)
            }
        },
{
    let lines = model::lines(text@);
    assert forall|i: int| 0 <= i < lines.len() implies row_fits(#[trigger] lines[i]) == (
    sacct_outcome_row(lines[i]) matches Some((_, o)) ==> o.exit_code is Some ==> o.exit_code->0
        <= i32::MAX) by {}
    if r {
        assert forall|i: int| 0 <= i < lines.len() implies (sacct_outcome_row(
            #[trigger] lines[i],
        ) matches Some((_, o)) ==> o.exit_code is Some ==> o.exit_code->0 <= i32::MAX) by {
            assert(row_fits(lines[i]));
        }
    }
    if forall|i: int|
        0 <= i < lines.len() ==> (sacct_outcome_row(#[trigger] lines[i]) matches Some((_, o))
            ==> o.exit_code is Some ==> o.exit_code->0 <= i32::MAX) {
        assert forall|i: int| 0 <= i < lines.len() implies row_fits(#[trigger] lines[i]) by {}
    }
    if forall|k: int| 0 <= k < n ==> sacct_task_row(#[trigger] lines[k], key@) is None {
        if n == lines.len() || sacct_task_row(lines[n], key@) is Some {
            lemma_task_code(lines, key@, n);
        }
    }
}

/// The first row of the task is what is checked.
proof fn lemma_task_code(lines: Seq<Seq<char>>, key: Seq<char>, n: int)
    requires
        0 <= n <= lines.len(),
        forall|k: int| 0 <= k < n ==> sacct_task_row(#[trigger] lines[k], key) is None,
        n < lines.len() ==> sacct_task_row(lines[n], key) is Some,
    ensures
        n == lines.len() ==> task_exit_code_fits(lines, key),
        n < lines.len() ==> task_exit_code_fits(lines, key) == parse::exit_code_fits(
            cell(model::split_n(lines[n], '|', 4), 3),
        ),
    decreases n,
{
    if n > 0 {
        let rest = lines.skip(1);
        assert(sacct_task_row(lines[0], key) is None);
        assert forall|k: int| 0 <= k < n - 1 implies sacct_task_row(#[trigger] rest[k], key) is None by {
            assert(rest[k] == lines[k + 1]);
        }
        if n < lines.len() {
            assert(rest[n - 1] == lines[n]);
        }
        lemma_task_code(rest, key, n - 1);
    }
}

/// What is read of an array task in a listing is its first row there.
pub proof fn law_task_rows_are_read(
    text: &str,
    key: &str,
    state: Option<JobStatus>,
    outcome: Option<JobOutcome>,
    n: int,
)
    requires
        call_ensures(parse_squeue_array_task, (text, key), state),
        call_ensures(parse_sacct_array_task_with_exit_code, (text, key), outcome),
        0 <= n <= model::lines(text@).len(),
    ensures
        ({
            let lines = model::lines(text@);
            &&& (forall|k: int|
                0 <= k < n ==> squeue_task_row(#[trigger] lines[k], key@) is None) ==> if n
                == lines.len() {
                state is None
            } else {
                squeue_task_row(lines[n], key@) matches Some(s) ==> state is Some && state->0@ == s
            }
            &&& (forall|k: int|
                0 <= k < n ==> sacct_task_row(#[trigger] lines[k], key@) is None) ==> if n
                == lines.len() {
                outcome is None
            } else {
                sacct_task_row(lines[n], key@) matches Some(s) ==> outcome is Some && outcome->0@
                    == s
            }
        }),
{
    let lines = model::lines(text@);
    let a = |l: Seq<char>| squeue_task_row(l, key@);
    let b = |l: Seq<char>| sacct_task_row(l, key@);
    if forall|k: int| 0 <= k < n ==> squeue_task_row(#[trigger] lines[k], key@) is None {
        assert forall|k: int| 0 <= k < n implies a(#[trigger] lines[k]) is None by {}
        if n == lines.len() || a(lines[n]) is Some {
            lemma_first_row(lines, a, n);
        }
    }
    if forall|k: int| 0 <= k < n ==> sacct_task_row(#[trigger] lines[k], key@) is None {
        assert forall|k: int| 0 <= k < n implies b(#[trigger] lines[k]) is None by {}
        if n == lines.len() || b(lines[n]) is Some {
            lemma_first_row(lines, b, n);
        }
    }
}

} // verus!
