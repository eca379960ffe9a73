//! Queries for the state of jobs.
//!
//! A query is a conversation: it names a command to run and is handed what the
//! command left behind, until it is done. Whoever runs the commands holds no rule.
use crate::dispatcher::CaptureOutput;
use crate::entities::status::{JobState, JobStatus, StatusView};
use crate::runner::listing;
use crate::runner::listing::{
    parse_qgroup_l, parse_sacct, parse_sacct_array_task_with_exit_code, parse_sacct_with_exit_code,
    parse_squeue, parse_squeue_array_task, JobOutcome, OutcomeView,
};
use crate::text;
use crate::text::lemmas;
use crate::text::model;
use crate::text::number;
use std::collections::HashMap;
use std::collections::HashSet;
use vstd::prelude::*;

verus! {

/// A command that exited with an error.
#[derive(Debug, Clone, PartialEq, Eq)]
pub struct QueryError {
    pub tool: String,
    pub exit_code: i32,
    /// What it wrote on stderr, without the white space around it.
    pub detail: String,
}

/// What a `QueryError` holds.
pub struct QueryFault {
    pub tool: Seq<char>,
    pub exit_code: i32,
    pub detail: Seq<char>,
}

impl View for QueryError {
    type V = QueryFault;

    open spec fn view(&self) -> QueryFault {
        QueryFault { tool: self.tool@, exit_code: self.exit_code, detail: self.detail@ }
    }
}

impl QueryFault {
    /// The fault of a tool that left `out` behind.
    pub open spec fn of(tool: Seq<char>, out: CaptureOutput) -> QueryFault {
        QueryFault { tool, exit_code: out.exit_code, detail: model::trim(out.stderr@) }
    }

    /// The message for the fault.
    pub open spec fn message(self) -> Seq<char> {
        seq!['`'] + self.tool + "` exited with "@ + model::decimal_int(self.exit_code as int)
            + ": "@ + self.detail
    }
}

impl QueryError {
    /// The message for the error.
    pub fn to_string(&self) -> (r: String)
        ensures
            r@ == self@.message(),
    {
        let mut out = String::new();
        out.push('`');
        out.append(self.tool.as_str());
        out.append("` exited with ");
        number::push_decimal_i32(&mut out, self.exit_code);
        out.append(": ");
        out.append(self.detail.as_str());
        assert(out@ == self@.message());
        out
    }
}

/// Passes only what exited with zero.
pub fn ensure_query_success(tool: &str, out: &CaptureOutput) -> (r: Result<(), QueryError>)
    ensures
        r is Ok <==> out.exit_code == 0,
        r matches Err(e) ==> e@ == QueryFault::of(tool@, *out),
{
    if out.success() {
        return Ok(());
    }
    let err = text::chars_of(out.stderr.as_str());
    Err(
        QueryError {
            tool: tool.to_owned(),
            exit_code: out.exit_code,
            detail: text::string_of(text::trim(err.as_slice())),
        },
    )
}

/// `squeue` failed because every job it was asked for has left the queue.
pub open spec fn vanished(out: CaptureOutput) -> bool {
    out.exit_code != 0 && model::contains(out.stderr@, "Invalid job id specified"@)
}

/// Whether `squeue` failed because every job it was asked for has left the queue. That
/// is an answer, not a failure.
pub fn squeue_reports_vanished(out: &CaptureOutput) -> (r: bool)
    ensures
        r == vanished(*out),
{
    if out.exit_code == 0 {
        return false;
    }
    let err = text::chars_of(out.stderr.as_str());
    let needle = text::chars_of("Invalid job id specified");
    text::contains(err.as_slice(), needle.as_slice())
}

/// The ids without repetitions, each where it first stood.
pub open spec fn deduped(ids: Seq<u64>) -> Seq<u64>
    decreases ids.len(),
{
    if ids.len() == 0 {
        Seq::empty()
    } else {
        let before = deduped(ids.drop_last());
        if before.contains(ids.last()) {
            before
        } else {
            before.push(ids.last())
        }
    }
}

/// Leaves out repetitions.
pub fn dedupe_preserving_order(ids: &[u64]) -> (r: Vec<u64>)
    ensures
        r@ == deduped(ids@),
{
    broadcast use vstd::std_specs::hash::group_hash_axioms;

    let mut seen: HashSet<u64> = HashSet::new();
    let mut out: Vec<u64> = Vec::new();
    let mut i: usize = 0;
    while i < ids.len()
        invariant
            i <= ids.len(),
            out@ == deduped(ids@.take(i as int)),
            forall|x: u64| seen@.contains(x) <==> out@.contains(x),
        decreases ids.len() - i,
    {
        broadcast use vstd::std_specs::hash::group_hash_axioms;

        assert(ids@.take(i + 1).drop_last() == ids@.take(i as int));
        let id: u64 = ids[i];
        let ghost before = out@;
        if seen.insert(id) {
            out.push(id);
            assert forall|x: u64| seen@.contains(x) <==> out@.contains(x) by {
                if before.contains(x) {
                    let k = choose|k: int| 0 <= k < before.len() && before[k] == x;
                    assert(out@[k] == x);
                }
                assert(out@[before.len() as int] == id);
            }
        }
        i = i + 1;
    }
    assert(ids@.take(i as int) == ids@);
    out
}

/// The numbers with commas between them.
pub open spec fn csv(ids: Seq<u64>) -> Seq<char> {
    model::join(ids.map_values(|n: u64| model::decimal(n as nat)), seq![','])
}

/// The numbers with commas between them.
pub fn csv_join(ids: &[u64]) -> (r: String)
    ensures
        r@ == csv(ids@),
{
    let mut out = String::new();
    let mut i: usize = 0;
    let ghost texts = ids@.map_values(|n: u64| model::decimal(n as nat));
    while i < ids.len()
        invariant
            i <= ids.len(),
            texts == ids@.map_values(|n: u64| model::decimal(n as nat)),
            out@ == model::join(texts.take(i as int), seq![',']),
        decreases ids.len() - i,
    {
        proof {
            lemmas::lemma_join_push(texts.take(i as int), seq![','], texts[i as int]);
            assert(texts.take(i + 1) == texts.take(i as int).push(texts[i as int]));
        }
        if i > 0 {
            out.push(',');
        }
        number::push_decimal(&mut out, ids[i]);
        i = i + 1;
    }
    assert(texts.take(i as int) == texts);
    out
}

/// The ids that the map does not hold, in order.
pub open spec fn absent(ids: Seq<u64>, m: Map<u64, StatusView>) -> Seq<u64>
    decreases ids.len(),
{
    if ids.len() == 0 {
        Seq::empty()
    } else {
        let before = absent(ids.drop_last(), m);
        if m.dom().contains(ids.last()) {
            before
        } else {
            before.push(ids.last())
        }
    }
}

/// The ids that the map does not hold, in order.
fn absent_from(ids: &[u64], m: &HashMap<u64, JobStatus>) -> (r: Vec<u64>)
    ensures
        r@ == absent(ids@, listing::status_views(m@)),
{
    let mut out: Vec<u64> = Vec::new();
    let mut i: usize = 0;
    while i < ids.len()
        invariant
            i <= ids.len(),
            out@ == absent(ids@.take(i as int), listing::status_views(m@)),
        decreases ids.len() - i,
    {
        broadcast use vstd::std_specs::hash::group_hash_axioms;

        assert(ids@.take(i + 1).drop_last() == ids@.take(i as int));
        if !m.contains_key(&ids[i]) {
            out.push(ids[i]);
        }
        i = i + 1;
    }
    assert(ids@.take(i as int) == ids@);
    out
}

/// `squeue` for the given jobs, one line for each array task.
pub open spec fn squeue_command(key: Seq<char>) -> Seq<Seq<char>> {
    seq!["squeue"@, "-h"@, "-r"@, "-j"@, key, "-o"@, "%i %T %r"@]
}

/// `sacct` for the given jobs.
pub open spec fn sacct_command(key: Seq<char>, with_exit_code: bool) -> Seq<Seq<char>> {
    seq![
        "sacct"@,
        "-P"@,
        "-n"@,
        "-j"@,
        key,
        "-o"@,
        if with_exit_code {
            "JobID,State,Reason,ExitCode"@
        } else {
            "JobID,State,Reason"@
        },
    ]
}

/// The command line of `squeue`.
pub fn squeue_argv(key: String) -> (r: Vec<String>)
    ensures
        model::texts(r@) == squeue_command(key@),
{
    let argv: Vec<String> = vec![
        "squeue".to_owned(),
        "-h".to_owned(),
        "-r".to_owned(),
        "-j".to_owned(),
        key,
        "-o".to_owned(),
        "%i %T %r".to_owned(),
    ];
    assert(model::texts(argv@) == squeue_command(key@));
    argv
}

/// The command line of `sacct`.
pub fn sacct_argv(key: String, with_exit_code: bool) -> (r: Vec<String>)
    ensures
        model::texts(r@) == sacct_command(key@, with_exit_code),
{
    let columns = if with_exit_code {
        "JobID,State,Reason,ExitCode".to_owned()
    } else {
        "JobID,State,Reason".to_owned()
    };
    let argv: Vec<String> = vec![
        "sacct".to_owned(),
        "-P".to_owned(),
        "-n".to_owned(),
        "-j".to_owned(),
        key,
        "-o".to_owned(),
        columns,
    ];
    assert(model::texts(argv@) == sacct_command(key@, with_exit_code));
    argv
}

/// What `squeue` lists: nothing where all jobs have left, and a fault where it failed
/// for another reason.
pub open spec fn squeue_answer(out: CaptureOutput) -> Result<Map<u64, StatusView>, QueryFault> {
    if vanished(out) {
        Ok(Map::empty())
    } else if out.exit_code != 0 {
        Err(QueryFault::of("squeue"@, out))
    } else {
        Ok(listing::squeue_table(out.stdout@))
    }
}

/// Reads what `squeue` left behind.
pub fn read_squeue(out: &CaptureOutput) -> (r: Result<HashMap<u64, JobStatus>, QueryError>)
    ensures
        match r {
            Ok(m) => squeue_answer(*out) == Ok::<Map<u64, StatusView>, QueryFault>(
                listing::status_views(m@),
            ),
            Err(e) => squeue_answer(*out) == Err::<Map<u64, StatusView>, QueryFault>(e@),
        },
{
    if squeue_reports_vanished(out) {
        let none: HashMap<u64, JobStatus> = HashMap::new();
        assert(listing::status_views(none@) =~= Map::<u64, StatusView>::empty());
        return Ok(none);
    }
    match ensure_query_success("squeue", out) {
        Ok(()) => Ok(parse_squeue(out.stdout.as_str())),
        Err(e) => Err(e),
    }
}

/// Of each id the active status, else that of the history, else the default.
pub open spec fn merged(
    ids: Seq<u64>,
    active: Map<u64, StatusView>,
    history: Map<u64, StatusView>,
) -> Map<u64, StatusView> {
    Map::new(
        |id: u64| ids.contains(id),
        |id: u64|
            if active.dom().contains(id) {
                active[id]
            } else if history.dom().contains(id) {
                history[id]
            } else {
                StatusView::plain(JobState::Unknown)
            },
    )
}

/// Of each id the active status, without exit code, else the outcome of the history,
/// else the default.
pub open spec fn merged_outcomes(
    ids: Seq<u64>,
    active: Map<u64, StatusView>,
    history: Map<u64, OutcomeView>,
) -> Map<u64, OutcomeView> {
    Map::new(
        |id: u64| ids.contains(id),
        |id: u64|
            if active.dom().contains(id) {
                OutcomeView { status: active[id], exit_code: None }
            } else if history.dom().contains(id) {
                history[id]
            } else {
                OutcomeView { status: StatusView::plain(JobState::Unknown), exit_code: None }
            },
    )
}

/// Resolves every id from the active jobs, the history, or the default.
pub fn merge_results(
    jobids: &[u64],
    active: &HashMap<u64, JobStatus>,
    history: &HashMap<u64, JobStatus>,
) -> (r: HashMap<u64, JobStatus>)
    ensures
        listing::status_views(r@) == merged(
            jobids@,
            listing::status_views(active@),
            listing::status_views(history@),
        ),
{
    broadcast use vstd::std_specs::hash::group_hash_axioms;

    let ghost a = listing::status_views(active@);
    let ghost h = listing::status_views(history@);
    let mut out: HashMap<u64, JobStatus> = HashMap::new();
    let mut i: usize = 0;
    assert(listing::status_views(out@) =~= merged(jobids@.take(0), a, h));
    while i < jobids.len()
        invariant
            i <= jobids.len(),
            a == listing::status_views(active@),
            h == listing::status_views(history@),
            listing::status_views(out@) == merged(jobids@.take(i as int), a, h),
        decreases jobids.len() - i,
    {
        broadcast use vstd::std_specs::hash::group_hash_axioms;

        let id: u64 = jobids[i];
        let status = match active.get(&id) {
            Some(s) => s.clone(),
            None => match history.get(&id) {
                Some(s) => s.clone(),
                None => JobStatus::default(),
            },
        };
        assert(status@ == (if a.dom().contains(id) {
            a[id]
        } else if h.dom().contains(id) {
            h[id]
        } else {
            StatusView::plain(JobState::Unknown)
        }));
        let ghost before = out@;
        out.insert(id, status);
        proof {
            lemma_take_contains(jobids@, i as int);
            let now = listing::status_views(out@);
            let want = merged(jobids@.take(i + 1), a, h);
            assert forall|x: u64| #[trigger] now.dom().contains(x) <==> want.dom().contains(x) by {
                assert(listing::status_views(before).dom().contains(x) <==> merged(
                    jobids@.take(i as int),
                    a,
                    h,
                ).dom().contains(x));
            }
            assert forall|x: u64| #[trigger] now.dom().contains(x) implies now[x] == want[x] by {
                if x != id {
                    assert(now[x] == listing::status_views(before)[x]);
                    assert(merged(jobids@.take(i as int), a, h).dom().contains(x));
                }
            }
            assert(now =~= want);
        }
        i = i + 1;
    }
    assert(jobids@.take(i as int) == jobids@);
    out
}

/// One element more.
proof fn lemma_take_contains(s: Seq<u64>, i: int)
    requires
        0 <= i < s.len(),
    ensures
        forall|x: u64| s.take(i + 1).contains(x) <==> s.take(i).contains(x) || x == s[i],
{
    assert(s.take(i + 1) == s.take(i).push(s[i]));
    assert forall|x: u64| s.take(i + 1).contains(x) <==> s.take(i).contains(x) || x == s[i] by {
        if s.take(i).contains(x) {
            let k = choose|k: int| 0 <= k < i && s.take(i)[k] == x;
            assert(s.take(i + 1)[k] == x);
        }
        assert(s.take(i + 1)[i] == s[i]);
    }
}

/// Resolves every id from the active jobs, the history, or the default.
pub fn merge_outcomes(
    jobids: &[u64],
    active: &HashMap<u64, JobStatus>,
    history: &HashMap<u64, JobOutcome>,
) -> (r: HashMap<u64, JobOutcome>)
    ensures
        listing::outcome_views(r@) == merged_outcomes(
            jobids@,
            listing::status_views(active@),
            listing::outcome_views(history@),
        ),
{
    broadcast use vstd::std_specs::hash::group_hash_axioms;

    let ghost a = listing::status_views(active@);
    let ghost h = listing::outcome_views(history@);
    let mut out: HashMap<u64, JobOutcome> = HashMap::new();
    let mut i: usize = 0;
    assert(listing::outcome_views(out@) =~= merged_outcomes(jobids@.take(0), a, h));
    while i < jobids.len()
        invariant
            i <= jobids.len(),
            a == listing::status_views(active@),
            h == listing::outcome_views(history@),
            listing::outcome_views(out@) == merged_outcomes(jobids@.take(i as int), a, h),
        decreases jobids.len() - i,
    {
        broadcast use vstd::std_specs::hash::group_hash_axioms;

        let id: u64 = jobids[i];
        let outcome = match active.get(&id) {
            Some(s) => JobOutcome { status: s.clone(), exit_code: None },
            None => match history.get(&id) {
                Some(o) => o.clone(),
                None => JobOutcome { status: JobStatus::default(), exit_code: None },
            },
        };
        assert(outcome@ == (if a.dom().contains(id) {
            OutcomeView { status: a[id], exit_code: None }
        } else if h.dom().contains(id) {
            h[id]
        } else {
            OutcomeView { status: StatusView::plain(JobState::Unknown), exit_code: None }
        }));
        let ghost before = out@;
        out.insert(id, outcome);
        proof {
            lemma_take_contains(jobids@, i as int);
            let now = listing::outcome_views(out@);
            let want = merged_outcomes(jobids@.take(i + 1), a, h);
            assert forall|x: u64| #[trigger] now.dom().contains(x) <==> want.dom().contains(x) by {
                assert(listing::outcome_views(before).dom().contains(x) <==> merged_outcomes(
                    jobids@.take(i as int),
                    a,
                    h,
                ).dom().contains(x));
            }
            assert forall|x: u64| #[trigger] now.dom().contains(x) implies now[x] == want[x] by {
                if x != id {
                    assert(now[x] == listing::outcome_views(before)[x]);
                    assert(merged_outcomes(jobids@.take(i as int), a, h).dom().contains(x));
                }
            }
            assert(now =~= want);
        }
        i = i + 1;
    }
    assert(jobids@.take(i as int) == jobids@);
    out
}

/// A query for the status of jobs: `squeue` for all of them, then `sacct` for those
/// that `squeue` does not list.
pub struct BatchQuery {
    jobids: Vec<u64>,
    active: Option<HashMap<u64, JobStatus>>,
}

/// Where a `BatchQuery` stands.
pub struct BatchView {
    pub jobids: Seq<u64>,
    /// What `squeue` listed, once it was asked.
    pub active: Option<Map<u64, StatusView>>,
}

impl View for BatchQuery {
    type V = BatchView;

    closed spec fn view(&self) -> BatchView {
        BatchView {
            jobids: self.jobids@,
            active: match self.active {
                Some(m) => Some(listing::status_views(m@)),
                None => None,
            },
        }
    }
}

/// What a query wants next.
pub enum BatchStep {
    /// Run `argv` and hand what it left behind to `query`.
    Capture { argv: Vec<String>, query: BatchQuery },
    /// The query is answered.
    Done(HashMap<u64, JobStatus>),
    /// The query has failed.
    Failed(QueryError),
}

/// What a `BatchStep` holds.
pub enum BatchStepView {
    Capture { argv: Seq<Seq<char>>, query: BatchView },
    Done(Map<u64, StatusView>),
    Failed(QueryFault),
}

impl View for BatchStep {
    type V = BatchStepView;

    open spec fn view(&self) -> BatchStepView {
        match *self {
            BatchStep::Capture { argv, query } => BatchStepView::Capture {
                argv: model::texts(argv@),
                query: query@,
            },
            BatchStep::Done(m) => BatchStepView::Done(listing::status_views(m@)),
            BatchStep::Failed(e) => BatchStepView::Failed(e@),
        }
    }
}

impl BatchView {
    /// The first step: no jobs are answered at once.
    pub open spec fn first_step(jobids: Seq<u64>) -> BatchStepView {
        if jobids.len() == 0 {
            BatchStepView::Done(Map::empty())
        } else {
            BatchStepView::Capture {
                argv: squeue_command(csv(deduped(jobids))),
                query: BatchView { jobids, active: None },
            }
        }
    }

    /// The step after what the command left behind.
    pub open spec fn next_step(self, out: CaptureOutput) -> BatchStepView {
        match self.active {
            None => match squeue_answer(out) {
                Err(e) => BatchStepView::Failed(e),
                Ok(active) => {
                    let missing = absent(deduped(self.jobids), active);
                    if missing.len() == 0 {
                        BatchStepView::Done(merged(self.jobids, active, Map::empty()))
                    } else {
                        BatchStepView::Capture {
                            argv: sacct_command(csv(missing), false),
                            query: BatchView { jobids: self.jobids, active: Some(active) },
                        }
                    }
                },
            },
            Some(active) => if out.exit_code != 0 {
                BatchStepView::Failed(QueryFault::of("sacct"@, out))
            } else {
                BatchStepView::Done(
                    merged(self.jobids, active, listing::sacct_table(out.stdout@)),
                )
            },
        }
    }
}

impl BatchQuery {
    /// Starts a query.
    pub fn start(jobids: &[u64]) -> (r: BatchStep)
        ensures
            r@ == BatchView::first_step(jobids@),
    {
        if jobids.len() == 0 {
            let none: HashMap<u64, JobStatus> = HashMap::new();
            assert(listing::status_views(none@) =~= Map::<u64, StatusView>::empty());
            return BatchStep::Done(none);
        }
        let unique = dedupe_preserving_order(jobids);
        let argv = squeue_argv(csv_join(unique.as_slice()));
        let query = BatchQuery { jobids: copy_ids(jobids), active: None };
        BatchStep::Capture { argv, query }
    }

    /// Goes on with what the command left behind.
    pub fn advance(self, out: &CaptureOutput) -> (r: BatchStep)
        ensures
            r@ == self@.next_step(*out),
    {
        let BatchQuery { jobids, active } = self;
        match active {
            None => match read_squeue(out) {
                Err(e) => BatchStep::Failed(e),
                Ok(active) => {
                    let unique = dedupe_preserving_order(jobids.as_slice());
                    let missing = absent_from(unique.as_slice(), &active);
                    if missing.len() == 0 {
                        let none: HashMap<u64, JobStatus> = HashMap::new();
                        assert(listing::status_views(none@) =~= Map::<u64, StatusView>::empty());
                        return BatchStep::Done(merge_results(jobids.as_slice(), &active, &none));
                    }
                    let argv = sacct_argv(csv_join(missing.as_slice()), false);
                    BatchStep::Capture { argv, query: BatchQuery { jobids, active: Some(active) } }
                },
            },
            Some(active) => match ensure_query_success("sacct", out) {
                Err(e) => BatchStep::Failed(e),
                Ok(()) => {
                    let history = parse_sacct(out.stdout.as_str());
                    BatchStep::Done(merge_results(jobids.as_slice(), &active, &history))
                },
            },
        }
    }
}

/// A copy of the ids.
fn copy_ids(ids: &[u64]) -> (r: Vec<u64>)
    ensures
        r@ == ids@,
{
    let mut out: Vec<u64> = Vec::new();
    out.extend_from_slice(ids);
    assert(out@ == ids@);
    out
}

/// As `BatchQuery`, with the exit codes that `sacct` knows.
pub struct OutcomeQuery {
    jobids: Vec<u64>,
    active: Option<HashMap<u64, JobStatus>>,
}

impl View for OutcomeQuery {
    type V = BatchView;

    closed spec fn view(&self) -> BatchView {
        BatchView {
            jobids: self.jobids@,
            active: match self.active {
                Some(m) => Some(listing::status_views(m@)),
                None => None,
            },
        }
    }
}

/// What a query with exit codes wants next.
pub enum OutcomeStep {
    /// Run `argv` and hand what it left behind to `query`.
    Capture { argv: Vec<String>, query: OutcomeQuery },
    /// The query is answered.
    Done(HashMap<u64, JobOutcome>),
    /// The query has failed.
    Failed(QueryError),
}

/// What an `OutcomeStep` holds.
pub enum OutcomeStepView {
    Capture { argv: Seq<Seq<char>>, query: BatchView },
    Done(Map<u64, OutcomeView>),
    Failed(QueryFault),
}

impl View for OutcomeStep {
    type V = OutcomeStepView;

    open spec fn view(&self) -> OutcomeStepView {
        match *self {
            OutcomeStep::Capture { argv, query } => OutcomeStepView::Capture {
                argv: model::texts(argv@),
                query: query@,
            },
            OutcomeStep::Done(m) => OutcomeStepView::Done(listing::outcome_views(m@)),
            OutcomeStep::Failed(e) => OutcomeStepView::Failed(e@),
        }
    }
}

impl BatchView {
    /// The first step of a query with exit codes.
    pub open spec fn first_outcome_step(jobids: Seq<u64>) -> OutcomeStepView {
        if jobids.len() == 0 {
            OutcomeStepView::Done(Map::empty())
        } else {
            OutcomeStepView::Capture {
                argv: squeue_command(csv(deduped(jobids))),
                query: BatchView { jobids, active: None },
            }
        }
    }

    /// The step after what the command left behind, of a query with exit codes.
    pub open spec fn next_outcome_step(self, out: CaptureOutput) -> OutcomeStepView {
        match self.active {
            None => match squeue_answer(out) {
                Err(e) => OutcomeStepView::Failed(e),
                Ok(active) => {
                    let missing = absent(deduped(self.jobids), active);
                    if missing.len() == 0 {
                        OutcomeStepView::Done(merged_outcomes(self.jobids, active, Map::empty()))
                    } else {
                        OutcomeStepView::Capture {
                            argv: sacct_command(csv(missing), true),
                            query: BatchView { jobids: self.jobids, active: Some(active) },
                        }
                    }
                },
            },
            Some(active) => if out.exit_code != 0 {
                OutcomeStepView::Failed(QueryFault::of("sacct"@, out))
            } else {
                OutcomeStepView::Done(
                    merged_outcomes(self.jobids, active, listing::outcome_table(out.stdout@)),
                )
            },
        }
    }
}

impl OutcomeQuery {
    /// Starts a query.
    pub fn start(jobids: &[u64]) -> (r: OutcomeStep)
        ensures
            r@ == BatchView::first_outcome_step(jobids@),
    {
        if jobids.len() == 0 {
            let none: HashMap<u64, JobOutcome> = HashMap::new();
            assert(listing::outcome_views(none@) =~= Map::<u64, OutcomeView>::empty());
            return OutcomeStep::Done(none);
        }
        let unique = dedupe_preserving_order(jobids);
        let argv = squeue_argv(csv_join(unique.as_slice()));
        let query = OutcomeQuery { jobids: copy_ids(jobids), active: None };
        OutcomeStep::Capture { argv, query }
    }

    /// Whether it is the listing of `sacct` that the query waits for.
    pub fn awaits_sacct(&self) -> (r: bool)
        ensures
            r == (self@.active is Some),
    {
        self.active.is_some()
    }

    /// Goes on with what the command left behind.
    pub fn advance(self, out: &CaptureOutput) -> (r: OutcomeStep)
        requires
            self@.active is Some && out.exit_code == 0 ==> listing::exit_codes_fit(out.stdout@),
        ensures
            r@ == self@.next_outcome_step(*out),
    {
        let OutcomeQuery { jobids, active } = self;
        match active {
            None => match read_squeue(out) {
                Err(e) => OutcomeStep::Failed(e),
                Ok(active) => {
                    let unique = dedupe_preserving_order(jobids.as_slice());
                    let missing = absent_from(unique.as_slice(), &active);
                    if missing.len() == 0 {
                        let none: HashMap<u64, JobOutcome> = HashMap::new();
                        assert(listing::outcome_views(none@) =~= Map::<u64, OutcomeView>::empty());
                        return OutcomeStep::Done(merge_outcomes(jobids.as_slice(), &active, &none));
                    }
                    let argv = sacct_argv(csv_join(missing.as_slice()), true);
                    OutcomeStep::Capture {
                        argv,
                        query: OutcomeQuery { jobids, active: Some(active) },
                    }
                },
            },
            Some(active) => match ensure_query_success("sacct", out) {
                Err(e) => OutcomeStep::Failed(e),
                Ok(()) => {
                    let history = parse_sacct_with_exit_code(out.stdout.as_str());
                    OutcomeStep::Done(merge_outcomes(jobids.as_slice(), &active, &history))
                },
            },
        }
    }
}

/// The command line of a query of `squeue` alone; none for no jobs.
pub fn squeue_only_argv(jobids: &[u64]) -> (r: Option<Vec<String>>)
    ensures
        match r {
            None => jobids@.len() == 0,
            Some(argv) => {
                &&& jobids@.len() > 0
                &&& model::texts(argv@) == squeue_command(csv(deduped(jobids@)))
            },
        },
{
    if jobids.len() == 0 {
        return None;
    }
    let unique = dedupe_preserving_order(jobids);
    Some(squeue_argv(csv_join(unique.as_slice())))
}

/// The command line of a query of `qgroup`; none for no jobs.
pub fn qgroup_argv(jobids: &[u64]) -> (r: Option<Vec<String>>)
    ensures
        match r {
            None => jobids@.len() == 0,
            Some(argv) => jobids@.len() > 0 && model::texts(argv@) == seq!["qgroup"@, "-l"@],
        },
{
    if jobids.len() == 0 {
        return None;
    }
    let argv: Vec<String> = vec!["qgroup".to_owned(), "-l".to_owned()];
    assert(model::texts(argv@) == seq!["qgroup"@, "-l"@]);
    Some(argv)
}

/// What `qgroup` lists of the given jobs.
pub open spec fn qgroup_answer(ids: Seq<u64>, out: CaptureOutput) -> Result<
    Map<u64, StatusView>,
    QueryFault,
> {
    if out.exit_code != 0 {
        Err(QueryFault::of("qgroup"@, out))
    } else {
        Ok(listing::qgroup_table(out.stdout@).restrict(ids.to_set()))
    }
}

/// Reads what `qgroup` left behind, and keeps the given jobs.
pub fn read_qgroup(jobids: &[u64], out: &CaptureOutput) -> (r: Result<
    HashMap<u64, JobStatus>,
    QueryError,
>)
    ensures
        match r {
            Ok(m) => qgroup_answer(jobids@, *out) == Ok::<Map<u64, StatusView>, QueryFault>(
                listing::status_views(m@),
            ),
            Err(e) => qgroup_answer(jobids@, *out) == Err::<Map<u64, StatusView>, QueryFault>(e@),
        },
{
    match ensure_query_success("qgroup", out) {
        Ok(()) => {},
        Err(e) => {
            return Err(e);
        },
    }
    let all = parse_qgroup_l(out.stdout.as_str());
    Ok(keep(jobids, &all))
}

/// The part of a map that the given jobs make up.
fn keep(jobids: &[u64], all: &HashMap<u64, JobStatus>) -> (r: HashMap<u64, JobStatus>)
    ensures
        listing::status_views(r@) == listing::status_views(all@).restrict(jobids@.to_set()),
{
    broadcast use vstd::std_specs::hash::group_hash_axioms;

    let mut out: HashMap<u64, JobStatus> = HashMap::new();
    let mut i: usize = 0;
    while i < jobids.len()
        invariant
            i <= jobids.len(),
            forall|x: u64| #[trigger]
                out@.dom().contains(x) <==> jobids@.take(i as int).contains(x)
                    && all@.dom().contains(x),
            forall|x: u64| #[trigger] out@.dom().contains(x) ==> out@[x] == all@[x],
        decreases jobids.len() - i,
    {
        broadcast use vstd::std_specs::hash::group_hash_axioms;

        proof {
            lemma_take_contains(jobids@, i as int);
        }
        let id: u64 = jobids[i];
        if let Some(s) = all.get(&id) {
            out.insert(id, s.clone());
        }
        i = i + 1;
    }
    assert(jobids@.take(i as int) == jobids@);
    assert(listing::status_views(out@) =~= listing::status_views(all@).restrict(jobids@.to_set()));
    out
}

/// `<master>_<index>`
pub open spec fn task_key_text(master: u64, index: u32) -> Seq<char> {
    model::decimal(master as nat) + seq!['_'] + model::decimal(index as nat)
}

/// The key of an array task.
pub fn task_key(master_jobid: u64, array_task_id: u32) -> (r: String)
    ensures
        r@ == task_key_text(master_jobid, array_task_id),
{
    let mut out = number::decimal(master_jobid);
    out.push('_');
    number::push_decimal(&mut out, array_task_id as u64);
    assert(out@ == task_key_text(master_jobid, array_task_id));
    out
}

/// The command line that asks `squeue` for an array task.
pub fn task_state_argv(master_jobid: u64, array_task_id: u32) -> (r: Vec<String>)
    ensures
        model::texts(r@) == squeue_command(task_key_text(master_jobid, array_task_id)),
{
    squeue_argv(task_key(master_jobid, array_task_id))
}

/// The command line that asks `sacct` for an array task.
pub fn task_outcome_argv(master_jobid: u64, array_task_id: u32) -> (r: Vec<String>)
    ensures
        model::texts(r@) == sacct_command(task_key_text(master_jobid, array_task_id), true),
{
    sacct_argv(task_key(master_jobid, array_task_id), true)
}

/// What `squeue` lists of an array task: nothing where it has left.
pub open spec fn task_state_answer(key: Seq<char>, out: CaptureOutput) -> Result<
    Option<StatusView>,
    QueryFault,
> {
    if vanished(out) {
        Ok(None)
    } else if out.exit_code != 0 {
        Err(QueryFault::of("squeue"@, out))
    } else {
        Ok(
            listing::first_row(
                model::lines(out.stdout@),
                |l: Seq<char>| listing::squeue_task_row(l, key),
            ),
        )
    }
}

/// What `sacct` lists of an array task: nothing where it knows none.
pub open spec fn task_outcome_answer(key: Seq<char>, out: CaptureOutput) -> Result<
    Option<OutcomeView>,
    QueryFault,
> {
    if out.exit_code != 0 {
        Err(QueryFault::of("sacct"@, out))
    } else {
        Ok(
            listing::first_row(
                model::lines(out.stdout@),
                |l: Seq<char>| listing::sacct_task_row(l, key),
            ),
        )
    }
}

/// What a status holds, where there is one.
pub open spec fn opt_status(s: Option<JobStatus>) -> Option<StatusView> {
    match s {
        Some(s) => Some(s@),
        None => None,
    }
}

/// What an outcome holds, where there is one.
pub open spec fn opt_outcome(s: Option<JobOutcome>) -> Option<OutcomeView> {
    match s {
        Some(s) => Some(s@),
        None => None,
    }
}

/// Reads what `squeue` left behind of an array task.
pub fn read_task_state(master_jobid: u64, array_task_id: u32, out: &CaptureOutput) -> (r: Result<
    Option<JobStatus>,
    QueryError,
>)
    ensures
        match r {
            Ok(s) => task_state_answer(task_key_text(master_jobid, array_task_id), *out) == Ok::<
                Option<StatusView>,
                QueryFault,
            >(opt_status(s)),
            Err(e) => task_state_answer(task_key_text(master_jobid, array_task_id), *out) == Err::<
                Option<StatusView>,
                QueryFault,
            >(e@),
        },
{
    if squeue_reports_vanished(out) {
        return Ok(None);
    }
    match ensure_query_success("squeue", out) {
        Ok(()) => {
            let key = task_key(master_jobid, array_task_id);
            Ok(parse_squeue_array_task(out.stdout.as_str(), key.as_str()))
        },
        Err(e) => Err(e),
    }
}

/// Reads what `sacct` left behind of an array task.
pub fn read_task_outcome(master_jobid: u64, array_task_id: u32, out: &CaptureOutput) -> (r: Result<
    Option<JobOutcome>,
    QueryError,
>)
    requires
        out.exit_code == 0 ==> listing::task_exit_code_fits(
            model::lines(out.stdout@),
            task_key_text(master_jobid, array_task_id),
        ),
    ensures
        match r {
            Ok(s) => task_outcome_answer(task_key_text(master_jobid, array_task_id), *out) == Ok::<
                Option<OutcomeView>,
                QueryFault,
            >(opt_outcome(s)),
            Err(e) => task_outcome_answer(task_key_text(master_jobid, array_task_id), *out)
                == Err::<Option<OutcomeView>, QueryFault>(e@),
        },
{
    match ensure_query_success("sacct", out) {
        Ok(()) => {
            let key = task_key(master_jobid, array_task_id);
            Ok(parse_sacct_array_task_with_exit_code(out.stdout.as_str(), key.as_str()))
        },
        Err(e) => Err(e),
    }
}

/// Leaving out repetitions keeps the ids and repeats none.
pub proof fn law_deduped(ids: Seq<u64>)
    ensures
        deduped(ids).no_duplicates(),
        forall|x: u64| deduped(ids).contains(x) <==> ids.contains(x),
        deduped(ids).len() <= ids.len(),
    decreases ids.len(),
{
    if ids.len() > 0 {
        let before = ids.drop_last();
        law_deduped(before);
        let d = deduped(before);
        assert forall|x: u64| deduped(ids).contains(x) <==> ids.contains(x) by {
            if ids.contains(x) {
                let k = choose|k: int| 0 <= k < ids.len() && ids[k] == x;
                if k < before.len() {
                    assert(before[k] == x);
                    assert(before.contains(x));
                    assert(d.contains(x));
                    let j = choose|j: int| 0 <= j < d.len() && d[j] == x;
                    assert(deduped(ids)[j] == x);
                } else if !d.contains(x) {
                    assert(deduped(ids)[d.len() as int] == x);
                }
            }
            if deduped(ids).contains(x) {
                let j = choose|j: int| 0 <= j < deduped(ids).len() && deduped(ids)[j] == x;
                if j < d.len() {
                    assert(d[j] == x);
                    assert(before.contains(x) && d.contains(x));
                    let k = choose|k: int| 0 <= k < before.len() && before[k] == x;
                    assert(ids[k] == x);
                } else {
                    assert(ids[ids.len() - 1] == x);
                }
            }
        }
    }
}

/// An answered query knows every job that it was asked for, and no other: an active job
/// as `squeue` lists it, else one of the past as `sacct` does, else as unknown.
pub proof fn law_query_answers_every_id(
    ids: Seq<u64>,
    active: Map<u64, StatusView>,
    history: Map<u64, StatusView>,
)
    ensures
        merged(ids, active, history).dom() =~= ids.to_set(),
        forall|id: u64| #[trigger]
            ids.contains(id) && active.dom().contains(id) ==> merged(ids, active, history)[id]
                == active[id],
        forall|id: u64| #[trigger]
            ids.contains(id) && !active.dom().contains(id) && history.dom().contains(id)
                ==> merged(ids, active, history)[id] == history[id],
        forall|id: u64| #[trigger]
            ids.contains(id) && !active.dom().contains(id) && !history.dom().contains(id)
                ==> merged(ids, active, history)[id] == StatusView::plain(JobState::Unknown),
{
}

/// The same of a query with exit codes; an active job has none, nor has an unknown one.
pub proof fn law_outcome_query_answers_every_id(
    ids: Seq<u64>,
    active: Map<u64, StatusView>,
    history: Map<u64, OutcomeView>,
)
    ensures
        merged_outcomes(ids, active, history).dom() =~= ids.to_set(),
        forall|id: u64| #[trigger]
            ids.contains(id) && active.dom().contains(id) ==> merged_outcomes(ids, active, history)[id]
                == (OutcomeView { status: active[id], exit_code: None }),
        forall|id: u64| #[trigger]
            ids.contains(id) && !active.dom().contains(id) && history.dom().contains(id)
                ==> merged_outcomes(ids, active, history)[id] == history[id],
        forall|id: u64| #[trigger]
            ids.contains(id) && !active.dom().contains(id) && !history.dom().contains(id)
                ==> merged_outcomes(ids, active, history)[id] == (OutcomeView {
                status: StatusView::plain(JobState::Unknown),
                exit_code: None,
            }),
{
}

/// A query runs `squeue` at most once and then `sacct` at most once.
pub proof fn law_query_runs_two_commands(q: BatchView, out: CaptureOutput)
    ensures
        q.next_step(out) matches BatchStepView::Capture { query, .. } ==> q.active is None
            && query.active is Some,
        q.next_outcome_step(out) matches OutcomeStepView::Capture { query, .. } ==> q.active is None
            && query.active is Some,
{
}

/// `sacct` is asked only for jobs that `squeue` did not list.
pub proof fn law_absent_ids(ids: Seq<u64>, m: Map<u64, StatusView>)
    ensures
        forall|x: u64| #[trigger]
            absent(ids, m).contains(x) <==> ids.contains(x) && !m.dom().contains(x),
    decreases ids.len(),
{
    if ids.len() > 0 {
        let before = ids.drop_last();
        law_absent_ids(before, m);
        let a = absent(before, m);
        assert forall|x: u64| absent(ids, m).contains(x) <==> ids.contains(x) && !m.dom().contains(
            x,
        ) by {
            if absent(ids, m).contains(x) {
                let j = choose|j: int| 0 <= j < absent(ids, m).len() && absent(ids, m)[j] == x;
                if j < a.len() {
                    assert(a[j] == x);
                    assert(a.contains(x));
                    assert(before.contains(x));
                    let k = choose|k: int| 0 <= k < before.len() && before[k] == x;
                    assert(ids[k] == x);
                } else {
                    assert(ids[ids.len() - 1] == x);
                }
            }
            if ids.contains(x) && !m.dom().contains(x) {
                let k = choose|k: int| 0 <= k < ids.len() && ids[k] == x;
                if k < before.len() {
                    assert(before[k] == x);
                    assert(before.contains(x));
                    assert(a.contains(x));
                    let j = choose|j: int| 0 <= j < a.len() && a[j] == x;
                    assert(absent(ids, m)[j] == x);
                } else {
                    assert(absent(ids, m)[a.len() as int] == x);
                }
            }
        }
    }
}

/// The text is a list of the numbers, with commas between them and none of them twice.
pub open spec fn names(text: Seq<char>, ids: Seq<u64>) -> bool {
    &&& ids.no_duplicates()
    &&& model::split(text, ',') == ids.map_values(|n: u64| model::decimal(n as nat))
}

/// The command line asks `squeue` for these ids, one line for each array task.
pub open spec fn squeue_asks(argv: Seq<Seq<char>>, ids: Seq<u64>) -> bool {
    &&& argv.len() == 7
    &&& argv == seq!["squeue"@, "-h"@, "-r"@, "-j"@, argv[4], "-o"@, "%i %T %r"@]
    &&& names(argv[4], ids)
}

/// The command line asks `sacct` for these columns of these ids.
pub open spec fn sacct_asks(argv: Seq<Seq<char>>, columns: Seq<char>, ids: Seq<u64>) -> bool {
    &&& argv.len() == 7
    &&& argv == seq!["sacct"@, "-P"@, "-n"@, "-j"@, argv[4], "-o"@, columns]
    &&& names(argv[4], ids)
}

/// The error tells of the tool, its exit code and what it wrote on stderr.
pub open spec fn tells_of(e: QueryError, tool: Seq<char>, out: CaptureOutput) -> bool {
    &&& e.tool@ == tool
    &&& e.exit_code == out.exit_code
    &&& e.detail@ == model::trim(out.stderr@)
}

/// Between the commas stand the numbers.
proof fn lemma_names(ids: Seq<u64>)
    requires
        ids.len() > 0,
    ensures
        model::split(csv(ids), ',') == ids.map_values(|n: u64| model::decimal(n as nat)),
{
    let texts = ids.map_values(|n: u64| model::decimal(n as nat));
    assert forall|i: int| 0 <= i < texts.len() implies !(#[trigger] texts[i]).contains(',') by {
        lemmas::lemma_decimal(ids[i] as nat);
        lemmas::lemma_digits_without(texts[i], ',');
    }
    lemmas::lemma_split_join(texts, ',');
}

/// Leaving out some ids repeats none.
proof fn lemma_absent_unique(ids: Seq<u64>, m: Map<u64, StatusView>)
    requires
        ids.no_duplicates(),
    ensures
        absent(ids, m).no_duplicates(),
    decreases ids.len(),
{
    if ids.len() > 0 {
        let before = ids.drop_last();
        assert(before.no_duplicates());
        lemma_absent_unique(before, m);
        law_absent_ids(before, m);
        if absent(before, m).contains(ids.last()) {
            assert(before.contains(ids.last()));
            let k = choose|k: int| 0 <= k < before.len() && before[k] == ids.last();
            assert(ids[k] == ids[ids.len() - 1]);
        }
    }
}

/// A whole query, from its first command to its answer.
///
/// `squeue` is asked for all the ids, each once. An id with a row there is answered with
/// its last row there. `sacct` is asked for the others alone, and only where there are any;
/// one with a row there is answered with its last row there, and the rest as unknown.
pub proof fn law_whole_query(
    ids: &[u64],
    first: BatchStep,
    squeue: &CaptureOutput,
    second: BatchStep,
    sacct: &CaptureOutput,
    third: BatchStep,
)
    requires
        call_ensures(BatchQuery::start, (ids,), first),
        first matches BatchStep::Capture { query, .. } ==> call_ensures(
            BatchQuery::advance,
            (query, squeue),
            second,
        ),
        second matches BatchStep::Capture { query, .. } ==> call_ensures(
            BatchQuery::advance,
            (query, sacct),
            third,
        ),
    ensures
        ids@.len() == 0 ==> (first matches BatchStep::Done(m) && m@.dom() =~= Set::empty()),
        ids@.len() > 0 ==> (first matches BatchStep::Capture { argv, .. } && exists|asked: Seq<u64>|
            {
                &&& #[trigger] squeue_asks(model::texts(argv@), asked)
                &&& forall|x: u64| asked.contains(x) <==> ids@.contains(x)
            }),
        ids@.len() > 0 ==> {
            let lines = if squeue.exit_code == 0 {
                model::lines(squeue.stdout@)
            } else {
                Seq::empty()
            };
            let row = |l: Seq<char>| listing::squeue_row(l);
            let history = model::lines(sacct.stdout@);
            let old_row = |l: Seq<char>| listing::sacct_row(l);
            let gone = model::contains(squeue.stderr@, "Invalid job id specified"@);
            if squeue.exit_code != 0 && !gone {
                second matches BatchStep::Failed(e) && tells_of(e, "squeue"@, *squeue)
            } else {
                match second {
                    BatchStep::Failed(_) => false,
                    BatchStep::Done(m) => {
                        &&& forall|id: u64| ids@.contains(id) ==> !listing::no_row(lines, row, id)
                        &&& m@.dom() =~= ids@.to_set()
                        &&& forall|id: u64, s: StatusView|
                            ids@.contains(id) && #[trigger] listing::last_row(lines, row, id, s)
                                ==> m@[id]@ == s
                    },
                    BatchStep::Capture { argv, .. } => {
                        &&& exists|asked: Seq<u64>|
                            {
                                &&& #[trigger] sacct_asks(model::texts(argv@), "JobID,State,Reason"@, asked)
                                &&& forall|x: u64|
                                    asked.contains(x) <==> ids@.contains(x) && listing::no_row(
                                        lines,
                                        row,
                                        x,
                                    )
                            }
                        &&& exists|id: u64| #[trigger]
                            ids@.contains(id) && listing::no_row(lines, row, id)
                        &&& if sacct.exit_code != 0 {
                            third matches BatchStep::Failed(e) && tells_of(e, "sacct"@, *sacct)
                        } else {
                            &&& third matches BatchStep::Done(m)
                            &&& m@.dom() =~= ids@.to_set()
                            &&& forall|id: u64, s: StatusView|
                                ids@.contains(id) && #[trigger] listing::last_row(
                                    lines,
                                    row,
                                    id,
                                    s,
                                ) ==> m@[id]@ == s
                            &&& forall|id: u64, s: StatusView|
                                ids@.contains(id) && listing::no_row(lines, row, id)
                                    && #[trigger] listing::last_row(history, old_row, id, s)
                                    ==> m@[id]@ == s
                            &&& forall|id: u64| #[trigger]
                                ids@.contains(id) && listing::no_row(lines, row, id)
                                    && listing::no_row(history, old_row, id)
                                    ==> m@[id]@.state == JobState::Unknown
                        }
                    },
                }
            }
        },
{
    if ids@.len() > 0 {
        let query = first->query;
        law_deduped(ids@);
        assert(ids@.contains(ids@[0]));
        lemma_names(deduped(ids@));
        assert(squeue_asks(squeue_command(csv(deduped(ids@))), deduped(ids@)));
        let row = |l: Seq<char>| listing::squeue_row(l);
        let old_row = |l: Seq<char>| listing::sacct_row(l);
        let history = model::lines(sacct.stdout@);
        let lines = if squeue.exit_code == 0 {
            model::lines(squeue.stdout@)
        } else {
            Seq::empty()
        };
        if squeue_answer(*squeue) is Ok {
            let active = squeue_answer(*squeue)->Ok_0;
            assert(active == listing::table(lines, row));
            assert forall|id: u64| active.dom().contains(id) <==> !#[trigger] listing::no_row(
                lines,
                row,
                id,
            ) by {
                listing::law_table_holds_the_last_rows(lines, row, id);
            }
            assert forall|id: u64, s: StatusView| #[trigger]
                listing::last_row(lines, row, id, s) implies active.dom().contains(id)
                && active[id] == s by {
                listing::law_table_holds_the_last_rows(lines, row, id);
            }
            let past = listing::table(history, old_row);
            assert forall|id: u64| past.dom().contains(id) <==> !#[trigger] listing::no_row(
                history,
                old_row,
                id,
            ) by {
                listing::law_table_holds_the_last_rows(history, old_row, id);
            }
            assert forall|id: u64, s: StatusView| #[trigger]
                listing::last_row(history, old_row, id, s) implies past.dom().contains(id)
                && past[id] == s by {
                listing::law_table_holds_the_last_rows(history, old_row, id);
            }
            let missing = absent(deduped(ids@), active);
            law_absent_ids(deduped(ids@), active);
            lemma_absent_unique(deduped(ids@), active);
            if missing.len() > 0 {
                lemma_names(missing);
                assert(sacct_asks(
                    sacct_command(csv(missing), false),
                    "JobID,State,Reason"@,
                    missing,
                ));
                assert forall|x: u64|
                    missing.contains(x) <==> ids@.contains(x) && listing::no_row(
                        lines,
                        row,
                        x,
                    ) by {
                    assert(missing.contains(x) <==> deduped(ids@).contains(x)
                        && !active.dom().contains(x));
                    assert(active.dom().contains(x) <==> !listing::no_row(lines, row, x));
                }
                assert(missing.contains(missing[0]));
                assert(ids@.contains(missing[0]) && listing::no_row(lines, row, missing[0]));
            }
            match second {
                BatchStep::Done(m) => {
                    assert forall|id: u64| ids@.contains(id) implies !listing::no_row(
                        lines,
                        row,
                        id,
                    ) by {
                        if !active.dom().contains(id) {
                            assert(missing.contains(id));
                        }
                    }
                    assert(listing::status_views(m@).dom() =~= m@.dom());
                    assert forall|id: u64| m@.dom().contains(id) implies #[trigger] m@[id]@
                        == listing::status_views(m@)[id] by {}
                },
                BatchStep::Capture { argv, .. } => {
                    assert(missing.contains(missing[0]));
                    if let BatchStep::Done(m) = third {
                        assert(listing::status_views(m@).dom() =~= m@.dom());
                        assert forall|id: u64| m@.dom().contains(id) implies #[trigger] m@[id]@
                            == listing::status_views(m@)[id] by {}
                    }
                },
                _ => {},
            }
        }
    } else if let BatchStep::Done(m) = first {
        assert(listing::status_views(m@).dom() =~= m@.dom());
    }
}

/// A whole query with exit codes, from its first command to its answer. What `squeue`
/// lists has no exit code.
///
/// `squeue` is asked for all the ids, each once. An id with a row there is answered with
/// its last row there. `sacct` is asked for the others alone, and only where there are any;
/// one with a row there is answered with its last row there, and the rest as unknown.
pub proof fn law_whole_outcome_query(
    ids: &[u64],
    first: OutcomeStep,
    squeue: &CaptureOutput,
    second: OutcomeStep,
    sacct: &CaptureOutput,
    third: OutcomeStep,
)
    requires
        call_ensures(OutcomeQuery::start, (ids,), first),
        first matches OutcomeStep::Capture { query, .. } ==> call_ensures(
            OutcomeQuery::advance,
            (query, squeue),
            second,
        ),
        second matches OutcomeStep::Capture { query, .. } ==> call_ensures(
            OutcomeQuery::advance,
            (query, sacct),
            third,
        ),
    ensures
        ids@.len() == 0 ==> (first matches OutcomeStep::Done(m) && m@.dom() =~= Set::empty()),
        ids@.len() > 0 ==> (first matches OutcomeStep::Capture { argv, .. } && exists|asked: Seq<u64>|
            {
                &&& #[trigger] squeue_asks(model::texts(argv@), asked)
                &&& forall|x: u64| asked.contains(x) <==> ids@.contains(x)
            }),
        ids@.len() > 0 ==> {
            let lines = if squeue.exit_code == 0 {
                model::lines(squeue.stdout@)
            } else {
                Seq::empty()
            };
            let row = |l: Seq<char>| listing::squeue_row(l);
            let history = model::lines(sacct.stdout@);
            let old_row = |l: Seq<char>| listing::sacct_outcome_row(l);
            let gone = model::contains(squeue.stderr@, "Invalid job id specified"@);
            if squeue.exit_code != 0 && !gone {
                second matches OutcomeStep::Failed(e) && tells_of(e, "squeue"@, *squeue)
            } else {
                match second {
                    OutcomeStep::Failed(_) => false,
                    OutcomeStep::Done(m) => {
                        &&& forall|id: u64| ids@.contains(id) ==> !listing::no_row(lines, row, id)
                        &&& m@.dom() =~= ids@.to_set()
                        &&& forall|id: u64, s: StatusView|
                            ids@.contains(id) && #[trigger] listing::last_row(lines, row, id, s)
                                ==> m@[id]@ == (OutcomeView { status: s, exit_code: None })
                    },
                    OutcomeStep::Capture { argv, .. } => {
                        &&& exists|asked: Seq<u64>|
                            {
                                &&& #[trigger] sacct_asks(model::texts(argv@), "JobID,State,Reason,ExitCode"@, asked)
                                &&& forall|x: u64|
                                    asked.contains(x) <==> ids@.contains(x) && listing::no_row(
                                        lines,
                                        row,
                                        x,
                                    )
                            }
                        &&& exists|id: u64| #[trigger]
                            ids@.contains(id) && listing::no_row(lines, row, id)
                        &&& if sacct.exit_code != 0 {
                            third matches OutcomeStep::Failed(e) && tells_of(e, "sacct"@, *sacct)
                        } else {
                            &&& third matches OutcomeStep::Done(m)
                            &&& m@.dom() =~= ids@.to_set()
                            &&& forall|id: u64, s: StatusView|
                                ids@.contains(id) && #[trigger] listing::last_row(
                                    lines,
                                    row,
                                    id,
                                    s,
                                ) ==> m@[id]@ == (OutcomeView { status: s, exit_code: None })
                            &&& forall|id: u64, s: OutcomeView|
                                ids@.contains(id) && listing::no_row(lines, row, id)
                                    && #[trigger] listing::last_row(history, old_row, id, s)
                                    ==> m@[id]@ == s
                            &&& forall|id: u64| #[trigger]
                                ids@.contains(id) && listing::no_row(lines, row, id)
                                    && listing::no_row(history, old_row, id)
                                    ==> m@[id]@.status.state == JobState::Unknown && m@[id].exit_code is None
                        }
                    },
                }
            }
        },
{
    if ids@.len() > 0 {
        let query = first->query;
        law_deduped(ids@);
        assert(ids@.contains(ids@[0]));
        lemma_names(deduped(ids@));
        assert(squeue_asks(squeue_command(csv(deduped(ids@))), deduped(ids@)));
        let row = |l: Seq<char>| listing::squeue_row(l);
        let old_row = |l: Seq<char>| listing::sacct_outcome_row(l);
        let history = model::lines(sacct.stdout@);
        let lines = if squeue.exit_code == 0 {
            model::lines(squeue.stdout@)
        } else {
            Seq::empty()
        };
        if squeue_answer(*squeue) is Ok {
            let active = squeue_answer(*squeue)->Ok_0;
            assert(active == listing::table(lines, row));
            assert forall|id: u64| active.dom().contains(id) <==> !#[trigger] listing::no_row(
                lines,
                row,
                id,
            ) by {
                listing::law_table_holds_the_last_rows(lines, row, id);
            }
            assert forall|id: u64, s: StatusView| #[trigger]
                listing::last_row(lines, row, id, s) implies active.dom().contains(id)
                && active[id] == s by {
                listing::law_table_holds_the_last_rows(lines, row, id);
            }
            let past = listing::table(history, old_row);
            assert forall|id: u64| past.dom().contains(id) <==> !#[trigger] listing::no_row(
                history,
                old_row,
                id,
            ) by {
                listing::law_table_holds_the_last_rows(history, old_row, id);
            }
            assert forall|id: u64, s: OutcomeView| #[trigger]
                listing::last_row(history, old_row, id, s) implies past.dom().contains(id)
                && past[id] == s by {
                listing::law_table_holds_the_last_rows(history, old_row, id);
            }
            let missing = absent(deduped(ids@), active);
            law_absent_ids(deduped(ids@), active);
            lemma_absent_unique(deduped(ids@), active);
            if missing.len() > 0 {
                lemma_names(missing);
                assert(sacct_asks(
                    sacct_command(csv(missing), true),
                    "JobID,State,Reason,ExitCode"@,
                    missing,
                ));
                assert forall|x: u64|
                    missing.contains(x) <==> ids@.contains(x) && listing::no_row(
                        lines,
                        row,
                        x,
                    ) by {
                    assert(missing.contains(x) <==> deduped(ids@).contains(x)
                        && !active.dom().contains(x));
                    assert(active.dom().contains(x) <==> !listing::no_row(lines, row, x));
                }
                assert(missing.contains(missing[0]));
                assert(ids@.contains(missing[0]) && listing::no_row(lines, row, missing[0]));
            }
            match second {
                OutcomeStep::Done(m) => {
                    assert forall|id: u64| ids@.contains(id) implies !listing::no_row(
                        lines,
                        row,
                        id,
                    ) by {
                        if !active.dom().contains(id) {
                            assert(missing.contains(id));
                        }
                    }
                    assert(listing::outcome_views(m@).dom() =~= m@.dom());
                    assert forall|id: u64| m@.dom().contains(id) implies #[trigger] m@[id]@
                        == listing::outcome_views(m@)[id] by {}
                },
                OutcomeStep::Capture { argv, .. } => {
                    assert(missing.contains(missing[0]));
                    if let OutcomeStep::Done(m) = third {
                        assert(listing::outcome_views(m@).dom() =~= m@.dom());
                        assert forall|id: u64| m@.dom().contains(id) implies #[trigger] m@[id]@
                            == listing::outcome_views(m@)[id] by {}
                    }
                },
                _ => {},
            }
        }
    } else if let OutcomeStep::Done(m) = first {
        assert(listing::outcome_views(m@).dom() =~= m@.dom());
    }
}

/// A query of `squeue` alone asks for all the ids, each once, and is answered with the last
/// row of each job that has one. That `squeue` knows none of them is an answer; another
/// failure is an error.
pub proof fn law_squeue_only(
    ids: &[u64],
    argv: Option<Vec<String>>,
    out: &CaptureOutput,
    r: Result<HashMap<u64, JobStatus>, QueryError>,
    id: u64,
)
    requires
        call_ensures(squeue_only_argv, (ids,), argv),
        call_ensures(read_squeue, (out,), r),
    ensures
        argv is None <==> ids@.len() == 0,
        argv matches Some(a) ==> exists|asked: Seq<u64>|
            {
                &&& #[trigger] squeue_asks(model::texts(a@), asked)
                &&& forall|x: u64| asked.contains(x) <==> ids@.contains(x)
            },
        ({
            let lines = model::lines(out.stdout@);
            let row = |l: Seq<char>| listing::squeue_row(l);
            if out.exit_code == 0 {
                &&& r matches Ok(m)
                &&& m@.dom().contains(id) <==> !listing::no_row(lines, row, id)
                &&& forall|s: StatusView| #[trigger]
                    listing::last_row(lines, row, id, s) ==> m@[id]@ == s
            } else if model::contains(out.stderr@, "Invalid job id specified"@) {
                r matches Ok(m) && !m@.dom().contains(id)
            } else {
                r matches Err(e) && tells_of(e, "squeue"@, *out)
            }
        }),
{
    if ids@.len() > 0 {
        law_deduped(ids@);
        assert(ids@.contains(ids@[0]));
        lemma_names(deduped(ids@));
        assert(squeue_asks(squeue_command(csv(deduped(ids@))), deduped(ids@)));
    }
    listing::law_table_holds_the_last_rows(
        model::lines(out.stdout@),
        |l: Seq<char>| listing::squeue_row(l),
        id,
    );
    if let Ok(m) = r {
        assert(listing::status_views(m@).dom().contains(id) <==> m@.dom().contains(id));
    }
}

/// A query of `qgroup` runs `qgroup -l` and is answered with the last row of each job that
/// was asked for and has one; a failure is an error.
pub proof fn law_qgroup_only(
    ids: &[u64],
    argv: Option<Vec<String>>,
    out: &CaptureOutput,
    r: Result<HashMap<u64, JobStatus>, QueryError>,
    id: u64,
)
    requires
        call_ensures(qgroup_argv, (ids,), argv),
        call_ensures(read_qgroup, (ids, out), r),
    ensures
        argv is None <==> ids@.len() == 0,
        argv matches Some(a) ==> model::texts(a@) == seq!["qgroup"@, "-l"@],
        ({
            let lines = model::lines(out.stdout@);
            let row = |l: Seq<char>| listing::qgroup_row(l);
            if out.exit_code == 0 {
                &&& r matches Ok(m)
                &&& m@.dom().contains(id) <==> ids@.contains(id) && !listing::no_row(
                    lines,
                    row,
                    id,
                )
                &&& forall|s: StatusView|
                    ids@.contains(id) && #[trigger] listing::last_row(lines, row, id, s)
                        ==> m@[id]@ == s
            } else {
                r matches Err(e) && tells_of(e, "qgroup"@, *out)
            }
        }),
{
    listing::law_table_holds_the_last_rows(
        model::lines(out.stdout@),
        |l: Seq<char>| listing::qgroup_row(l),
        id,
    );
    if let Ok(m) = r {
        assert(listing::status_views(m@).dom().contains(id) <==> m@.dom().contains(id));
        assert(ids@.to_set().contains(id) <==> ids@.contains(id));
        let all = listing::qgroup_table(out.stdout@);
        let kept = all.restrict(ids@.to_set());
        assert(listing::status_views(m@) == kept);
        assert(kept.dom().contains(id) <==> all.dom().contains(id) && ids@.contains(id));
        if ids@.contains(id) && all.dom().contains(id) {
            assert(kept[id] == all[id]);
            assert(m@[id]@ == all[id]);
        }
    }
}

/// An array task is asked for by its key, and answered with its first row.
pub proof fn law_task_queries(
    master: u64,
    index: u32,
    state_argv: Vec<String>,
    outcome_argv: Vec<String>,
    key: String,
)
    requires
        call_ensures(task_state_argv, (master, index), state_argv),
        call_ensures(task_outcome_argv, (master, index), outcome_argv),
        call_ensures(task_key, (master, index), key),
    ensures
        key@ == model::decimal(master as nat) + seq!['_'] + model::decimal(index as nat),
        model::texts(state_argv@) == seq![
            "squeue"@,
            "-h"@,
            "-r"@,
            "-j"@,
            key@,
            "-o"@,
            "%i %T %r"@,
        ],
        model::texts(outcome_argv@) == seq![
            "sacct"@,
            "-P"@,
            "-n"@,
            "-j"@,
            key@,
            "-o"@,
            "JobID,State,Reason,ExitCode"@,
        ],
{
}

/// What is read of an array task is its first row in the listing, and nothing where it has
/// none there or where `squeue` does not know it; another failure is an error.
pub proof fn law_task_answers(
    master: u64,
    index: u32,
    out: &CaptureOutput,
    state: Result<Option<JobStatus>, QueryError>,
    outcome: Result<Option<JobOutcome>, QueryError>,
    n: int,
)
    requires
        call_ensures(read_task_state, (master, index, out), state),
        call_ensures(read_task_outcome, (master, index, out), outcome),
        0 <= n <= model::lines(out.stdout@).len(),
    ensures
        ({
            let lines = model::lines(out.stdout@);
            let key = model::decimal(master as nat) + seq!['_'] + model::decimal(index as nat);
            let gone = model::contains(out.stderr@, "Invalid job id specified"@);
            &&& out.exit_code == 0 && (forall|k: int|
                0 <= k < n ==> listing::squeue_task_row(#[trigger] lines[k], key) is None) ==> (
            state matches Ok(s) && if n == lines.len() {
                s is None
            } else {
                listing::squeue_task_row(lines[n], key) is Some ==> s is Some && Some(s->0@)
                    == listing::squeue_task_row(lines[n], key)
            })
            &&& out.exit_code == 0 && (forall|k: int|
                0 <= k < n ==> listing::sacct_task_row(#[trigger] lines[k], key) is None) ==> (
            outcome matches Ok(s) && if n == lines.len() {
                s is None
            } else {
                listing::sacct_task_row(lines[n], key) is Some ==> s is Some && Some(s->0@)
                    == listing::sacct_task_row(lines[n], key)
            })
            &&& out.exit_code != 0 && gone ==> (state matches Ok(s) && s is None)
            &&& out.exit_code != 0 && !gone ==> (state matches Err(e) && tells_of(
                e,
                "squeue"@,
                *out,
            ))
            &&& out.exit_code != 0 ==> (outcome matches Err(e) && tells_of(e, "sacct"@, *out))
        }),
{
    let lines = model::lines(out.stdout@);
    let key = task_key_text(master, index);
    let a = |l: Seq<char>| listing::squeue_task_row(l, key);
    let b = |l: Seq<char>| listing::sacct_task_row(l, key);
    if forall|k: int| 0 <= k < n ==> listing::squeue_task_row(#[trigger] lines[k], key) is None {
        assert forall|k: int| 0 <= k < n implies a(#[trigger] lines[k]) is None by {}
        if n == lines.len() || a(lines[n]) is Some {
            listing::lemma_first_row(lines, a, n);
        }
    }
    if forall|k: int| 0 <= k < n ==> listing::sacct_task_row(#[trigger] lines[k], key) is None {
        assert forall|k: int| 0 <= k < n implies b(#[trigger] lines[k]) is None by {}
        if n == lines.len() || b(lines[n]) is Some {
            listing::lemma_first_row(lines, b, n);
        }
    }
}

/// Ids without repetitions stay in the order in which they first stood.
pub proof fn law_dedupe_keeps_the_order(ids: &[u64], r: Vec<u64>, i: int, j: int)
    requires
        call_ensures(dedupe_preserving_order, (ids,), r),
        0 <= i < j < ids@.len(),
        forall|k: int| 0 <= k < i ==> ids@[k] != ids@[i],
        forall|k: int| 0 <= k < j ==> ids@[k] != ids@[j],
    ensures
        r@.no_duplicates(),
        r@.contains(ids@[i]),
        r@.contains(ids@[j]),
        r@.index_of(ids@[i]) < r@.index_of(ids@[j]),
{
    law_deduped(ids@);
    let head = ids@.take(j);
    law_deduped(head);
    lemma_deduped_prefix(ids@, j);
    assert(ids@.contains(ids@[i]));
    assert(ids@.contains(ids@[j]));
    assert(head[i] == ids@[i]);
    assert(head.contains(ids@[i]));
    let d = deduped(head);
    assert(d.contains(ids@[i]));
    let p = choose|p: int| 0 <= p < d.len() && d[p] == ids@[i];
    assert(r@[p] == ids@[i]);
    assert(r@[r@.index_of(ids@[i])] == ids@[i]);
    let q = r@.index_of(ids@[j]);
    assert(r@[q] == ids@[j]);
    if q < d.len() {
        assert(d[q] == ids@[j]);
        assert(d.contains(ids@[j]));
        assert(head.contains(ids@[j]));
        let k = choose|k: int| 0 <= k < head.len() && head[k] == ids@[j];
        assert(ids@[k] == ids@[j]);
    }
}

/// More ids only add at the end.
proof fn lemma_deduped_prefix(ids: Seq<u64>, n: int)
    requires
        0 <= n <= ids.len(),
    ensures
        deduped(ids.take(n)).len() <= deduped(ids).len(),
        forall|k: int|
            0 <= k < deduped(ids.take(n)).len() ==> deduped(ids)[k] == #[trigger] deduped(
                ids.take(n),
            )[k],
    decreases ids.len() - n,
{
    if n == ids.len() {
        assert(ids.take(n) == ids);
    } else {
        lemma_deduped_prefix(ids, n + 1);
        let more = ids.take(n + 1);
        assert(more.drop_last() == ids.take(n));
        assert forall|k: int| 0 <= k < deduped(ids.take(n)).len() implies deduped(ids)[k]
            == #[trigger] deduped(ids.take(n))[k] by {
            assert(deduped(more)[k] == deduped(ids.take(n))[k]);
        }
    }
}

/// Merging answers every id, and no other: with what is active, else with the history, else
/// as unknown.
pub proof fn law_merging(
    ids: &[u64],
    active: HashMap<u64, JobStatus>,
    history: HashMap<u64, JobStatus>,
    outcomes: HashMap<u64, JobOutcome>,
    r: HashMap<u64, JobStatus>,
    q: HashMap<u64, JobOutcome>,
    id: u64,
)
    requires
        call_ensures(merge_results, (ids, &active, &history), r),
        call_ensures(merge_outcomes, (ids, &active, &outcomes), q),
    ensures
        r@.dom().contains(id) <==> ids@.contains(id),
        q@.dom().contains(id) <==> ids@.contains(id),
        ids@.contains(id) && active@.dom().contains(id) ==> r@[id]@ == active@[id]@
            && q@[id].status@ == active@[id]@ && q@[id].exit_code is None,
        ids@.contains(id) && !active@.dom().contains(id) && history@.dom().contains(id)
            ==> r@[id]@ == history@[id]@,
        ids@.contains(id) && !active@.dom().contains(id) && outcomes@.dom().contains(id)
            ==> q@[id]@ == outcomes@[id]@,
        ids@.contains(id) && !active@.dom().contains(id) && !history@.dom().contains(id)
            ==> r@[id].state == JobState::Unknown,
        ids@.contains(id) && !active@.dom().contains(id) && !outcomes@.dom().contains(id)
            ==> q@[id].status.state == JobState::Unknown && q@[id].exit_code is None,
{
    let a = listing::status_views(active@);
    assert(a.dom().contains(id) <==> active@.dom().contains(id));
    assert(listing::status_views(history@).dom().contains(id) <==> history@.dom().contains(id));
    assert(listing::outcome_views(outcomes@).dom().contains(id) <==> outcomes@.dom().contains(id));
    assert(listing::status_views(r@).dom().contains(id) <==> r@.dom().contains(id));
    assert(listing::outcome_views(q@).dom().contains(id) <==> q@.dom().contains(id));
    if ids@.contains(id) {
        assert(listing::status_views(r@)[id] == r@[id]@);
        assert(listing::outcome_views(q@)[id] == q@[id]@);
        assert(q@[id]@.exit_code is None <==> q@[id].exit_code is None);
    }
}

/// The message of a failed command names the command, its exit code and what it wrote.
pub proof fn law_query_error_message(e: QueryError, r: String)
    requires
        call_ensures(QueryError::to_string, (&e,), r),
    ensures
        r@ == seq!['`'] + e.tool@ + "` exited with "@ + model::decimal_int(e.exit_code as int)
            + seq![':', ' '] + e.detail@,
{
    reveal_strlit(": ");
    assert(": "@ =~= seq![':', ' ']);
}

/// Every query can go on with every output, but for an exit code of more than 32 bits where
/// `sacct` is read.
pub proof fn law_queries_take_every_output(
    q: BatchQuery,
    o: OutcomeQuery,
    out: &CaptureOutput,
    stdout: &str,
    fits: bool,
    awaits: bool,
)
    requires
        stdout@ == out.stdout@,
        call_ensures(listing::check_exit_codes, (stdout,), fits),
        call_ensures(OutcomeQuery::awaits_sacct, (&o,), awaits),
    ensures
        call_requires(BatchQuery::advance, (q, out)),
        fits || !awaits || out.exit_code != 0 ==> call_requires(OutcomeQuery::advance, (o, out)),
{
}

/// What is left without repetitions are the ids that were there.
pub proof fn law_dedupe_keeps_the_ids(ids: &[u64], r: Vec<u64>, x: u64, text: String)
    requires
        call_ensures(dedupe_preserving_order, (ids,), r),
        call_ensures(csv_join, (ids,), text),
    ensures
        r@.no_duplicates(),
        r@.contains(x) <==> ids@.contains(x),
        ids@.len() > 0 ==> model::split(text@, ',') == ids@.map_values(
            |n: u64| model::decimal(n as nat),
        ),
{
    law_deduped(ids@);
    if ids@.len() > 0 {
        lemma_names(ids@);
    }
}

/// A command passes exactly where it exited with zero; that of `squeue` is an answer that all
/// jobs have left exactly where it failed with these words.
pub proof fn law_command_results(
    tool: &str,
    out: &CaptureOutput,
    r: Result<(), QueryError>,
    gone: bool,
)
    requires
        call_ensures(ensure_query_success, (tool, out), r),
        call_ensures(squeue_reports_vanished, (out,), gone),
    ensures
        r is Ok <==> out.exit_code == 0,
        r matches Err(e) ==> tells_of(e, tool@, *out),
        gone <==> out.exit_code != 0 && model::contains(
            out.stderr@,
            "Invalid job id specified"@,
        ),
{
}

} // verus!
