//! Submitting, finding, running and cancelling jobs.
use crate::dispatcher::CaptureOutput;
use crate::entities::array_spec::SlurmArraySpec;
use crate::entities::status::JobState;
use crate::ident;
use crate::ident::{uuid_string, Timestamp};
use crate::sbatch::cmd;
use crate::sbatch::cmd::SbatchCmd;
use crate::sbatch::error;
use crate::sbatch::error::{
    quoted, SbatchAttachError, SbatchCancelError, SbatchRunError, SbatchSpawnError, SpawnFault,
};
use crate::sbatch::handle::{
    FinishedInfo, LogPathSpec, LogView, SbatchJobSnapshot, SbatchLifecycle, SnapshotView,
};
use crate::sbatch::parse;
use crate::sbatch::parse::{expand_array_indices, parse_submitted_jobid};
use crate::store::{KindCheck, KindView};
use crate::text;
use crate::text::model;
use crate::text::number;
use vstd::prelude::*;

verus! {

/// How often a job is polled by default, in seconds: longer than the interval in which
/// SLURM samples its tasks, so that two polls never fall into one of them.
pub const DEFAULT_POLL_SECONDS: u64 = 60;

/// The id of a submitted job, or why there is none.
pub open spec fn submission(out: CaptureOutput) -> Result<u64, SpawnFault> {
    if out.exit_code != 0 {
        Err(SpawnFault::SubmitFailed { exit_code: out.exit_code, output: out.shown() })
    } else {
        match parse::first_jobid(model::lines(out.stdout@)) {
            Some(id) => Ok(id),
            None => Err(SpawnFault::JobidParseError { stdout: out.stdout@ }),
        }
    }
}

/// Reads what `sbatch` left behind.
pub fn read_submission(out: &CaptureOutput) -> (r: Result<u64, SbatchSpawnError>)
    ensures
        match r {
            Ok(id) => submission(*out) == Ok::<u64, SpawnFault>(id),
            Err(e) => submission(*out) == Err::<u64, SpawnFault>(e@),
        },
{
    if !out.success() {
        return Err(
            SbatchSpawnError::SubmitFailed {
                exit_code: out.exit_code,
                output: out.diagnostic(),
            },
        );
    }
    match parse_submitted_jobid(out.stdout.as_str()) {
        Some(id) => Ok(id),
        None => Err(SbatchSpawnError::JobidParseError { stdout: out.stdout.clone() }),
    }
}

/// A job right after its submission.
pub open spec fn fresh_snapshot(
    cmd: SbatchCmd,
    argv: Seq<Seq<char>>,
    jobid: u64,
    task: Option<u32>,
    uuid: u128,
    script_path: Seq<char>,
    now: Timestamp,
) -> SnapshotView {
    SnapshotView {
        uuid,
        jobid,
        array_task_id: task,
        argv,
        sent_env: cmd.env@,
        script_path,
        chdir: cmd::opt_string(cmd.chdir),
        partition: cmd::opt_string(cmd.partition),
        job_name: cmd::opt_string(cmd.job_name),
        submitted_at: now,
        log: LogView {
            output_template: cmd::opt_string(cmd.output),
            error_template: cmd::opt_string(cmd.error),
        },
        lifecycle: SbatchLifecycle {
            last_observed_state: None,
            last_observed_at: None,
            left_active_listing: false,
            finished: None,
        },
    }
}

/// Makes the snapshot of a job right after its submission.
pub fn new_snapshot(
    cmd: &SbatchCmd,
    argv: &[String],
    jobid: u64,
    task: Option<u32>,
    uuid: u128,
    script_path: &str,
    now: Timestamp,
) -> (r: SbatchJobSnapshot)
    ensures
        r@ == fresh_snapshot(*cmd, model::texts(argv@), jobid, task, uuid, script_path@, now),
{
    SbatchJobSnapshot {
        uuid,
        jobid,
        array_task_id: task,
        argv: text::copy_strings(argv),
        sent_env: cmd.env.clone(),
        script_path: script_path.to_owned(),
        chdir: cmd::copy_opt(&cmd.chdir),
        partition: cmd::copy_opt(&cmd.partition),
        job_name: cmd::copy_opt(&cmd.job_name),
        submitted_at: now,
        log: LogPathSpec {
            output_template: cmd::copy_opt(&cmd.output),
            error_template: cmd::copy_opt(&cmd.error),
        },
        lifecycle: SbatchLifecycle::default(),
    }
}

/// The message for an array without tasks.
pub open spec fn no_tasks_message() -> Seq<char> {
    "spawn_array: SlurmArraySpec yielded zero task indices (constructed via FromStr should be non-empty)"@
}

/// The task indices of an array to be submitted: at least one.
pub fn plan_array(spec: &SlurmArraySpec) -> (r: Result<Vec<u32>, SbatchSpawnError>)
    requires
        forall|i: int|
            0 <= i < spec@.indices.len() ==> parse::advances(#[trigger] spec@.indices[i]),
    ensures
        match r {
            Ok(indices) => indices@ == parse::expanded(spec@.indices) && indices@.len() > 0,
            Err(e) => parse::expanded(spec@.indices).len() == 0 && e@ == SpawnFault::Other(
                no_tasks_message(),
            ),
        },
{
    let indices = expand_array_indices(spec);
    if indices.len() == 0 {
        return Err(
            SbatchSpawnError::Other(
                "spawn_array: SlurmArraySpec yielded zero task indices (constructed via FromStr should be non-empty)".to_owned(),
            ),
        );
    }
    Ok(indices)
}

/// The submission with the given array in place of the one it may have.
pub fn with_array(cmd: SbatchCmd, spec: SlurmArraySpec) -> (r: SbatchCmd)
    ensures
        r == (SbatchCmd { array_spec: Some(spec), ..cmd }),
{
    let mut cmd = cmd;
    cmd.array_spec = Some(spec);
    cmd
}

/// Makes the snapshots of the tasks of an array, in the order of the indices: all with
/// the id of the array and its command line, each with its own index, key and time.
pub fn array_snapshots(
    cmd: &SbatchCmd,
    argv: &[String],
    master_jobid: u64,
    indices: &[u32],
    stamps: &[(u128, Timestamp)],
    script_path: &str,
) -> (r: Vec<SbatchJobSnapshot>)
    requires
        stamps@.len() == indices@.len(),
    ensures
        r@.len() == indices@.len(),
        forall|i: int|
            0 <= i < r@.len() ==> (#[trigger] r@[i])@ == fresh_snapshot(
                *cmd,
                model::texts(argv@),
                master_jobid,
                Some(indices@[i]),
                stamps@[i].0,
                script_path@,
                stamps@[i].1,
            ),
{
    let mut out: Vec<SbatchJobSnapshot> = Vec::new();
    let mut i: usize = 0;
    while i < indices.len()
        invariant
            i <= indices.len(),
            stamps@.len() == indices@.len(),
            out@.len() == i,
            forall|k: int|
                0 <= k < i ==> (#[trigger] out@[k])@ == fresh_snapshot(
                    *cmd,
                    model::texts(argv@),
                    master_jobid,
                    Some(indices@[k]),
                    stamps@[k].0,
                    script_path@,
                    stamps@[k].1,
                ),
        decreases indices.len() - i,
    {
        let (uuid, now) = stamps[i];
        out.push(new_snapshot(cmd, argv, master_jobid, Some(indices[i]), uuid, script_path, now));
        i = i + 1;
    }
    out
}

/// What to attach to.
#[derive(Debug, Clone, PartialEq, Eq)]
pub enum SbatchAttachKey {
    /// The primary key.
    Uuid(u128),
    /// The id of a job of its own.
    JobId(u64),
    /// The file of a snapshot.
    File(String),
}

impl SbatchAttachKey {
    /// How the key is shown in a message.
    pub open spec fn shown(self) -> Seq<char> {
        match self {
            SbatchAttachKey::Uuid(u) => "Uuid("@ + ident::uuid_text(u) + seq![')'],
            SbatchAttachKey::JobId(j) => "JobId("@ + model::decimal(j as nat) + seq![')'],
            SbatchAttachKey::File(p) => "File("@ + error::debug_text(p@) + seq![')'],
        }
    }

    /// How the key is shown in a message.
    pub fn show(&self) -> (r: String)
        ensures
            r@ == self.shown(),
    {
        let mut out = String::new();
        match self {
            SbatchAttachKey::Uuid(u) => {
                out.append("Uuid(");
                out.append(uuid_string(*u).as_str());
            },
            SbatchAttachKey::JobId(j) => {
                out.append("JobId(");
                number::push_decimal(&mut out, *j);
            },
            SbatchAttachKey::File(p) => {
                out.append("File(");
                out.append(quoted(p.as_str()).as_str());
            },
        }
        out.push(')');
        assert(out@ == self.shown());
        out
    }
}

/// Passes a snapshot that was found.
pub fn found(key: &SbatchAttachKey, snapshot: Option<SbatchJobSnapshot>) -> (r: Result<
    SbatchJobSnapshot,
    SbatchAttachError,
>)
    ensures
        match r {
            Ok(s) => snapshot == Some(s),
            Err(e) => snapshot is None && (e matches SbatchAttachError::NotFound { key: k } && k@
                == key.shown()),
        },
{
    match snapshot {
        Some(s) => Ok(s),
        None => Err(SbatchAttachError::NotFound { key: key.show() }),
    }
}

/// Picks the one snapshot of a job among those with its id.
pub fn only_match(jobid: u64, matches: Vec<SbatchJobSnapshot>) -> (r: Result<
    SbatchJobSnapshot,
    SbatchAttachError,
>)
    ensures
        match r {
            Ok(s) => matches@ == seq![s],
            Err(SbatchAttachError::NotFound { key }) => matches@.len() == 0 && key@
                == SbatchAttachKey::JobId(jobid).shown(),
            Err(SbatchAttachError::MultipleMatch { jobid: j, count }) => matches@.len() > 1 && j
                == jobid && count == matches@.len(),
            Err(_) => false,
        },
{
    let mut matches = matches;
    let count: usize = matches.len();
    if count > 1 {
        return Err(SbatchAttachError::MultipleMatch { jobid, count });
    }
    let ghost all = matches@;
    let first = matches.pop();
    proof {
        if count == 1 {
            assert(all == seq![all[0]]);
        }
    }
    found(&SbatchAttachKey::JobId(jobid), first)
}

/// Judges a file that is to be attached to: it must be JSON, and of no other kind.
pub fn judge_file(check: KindCheck, expected: &str) -> (r: Result<(), SbatchAttachError>)
    ensures
        match r {
            Ok(()) => check is Matches,
            Err(SbatchAttachError::Io(e)) => check@ == (KindView::NotJson { message: e@ }),
            Err(SbatchAttachError::KindMismatch { expected: x, got }) => x@ == expected@ && check@
                == (KindView::Other { got: got@ }),
            Err(_) => false,
        },
{
    match check {
        KindCheck::NotJson { message } => Err(SbatchAttachError::Io(message)),
        KindCheck::Other { got } => Err(
            SbatchAttachError::KindMismatch { expected: expected.to_owned(), got },
        ),
        KindCheck::Matches => Ok(()),
    }
}

/// The list with a task put before the first one whose index is not less.
pub open spec fn placed(sorted: Seq<SbatchJobSnapshot>, s: SbatchJobSnapshot) -> Seq<
    SbatchJobSnapshot,
>
    decreases sorted.len(),
{
    if sorted.len() > 0 && sorted[0].array_task_id->0 < s.array_task_id->0 {
        seq![sorted[0]] + placed(sorted.skip(1), s)
    } else {
        seq![s] + sorted
    }
}

/// The array tasks among the snapshots, by index; those with the same index stay in the
/// order of the list.
pub open spec fn tasks_by_index(all: Seq<SbatchJobSnapshot>) -> Seq<SbatchJobSnapshot>
    decreases all.len(),
{
    if all.len() == 0 {
        Seq::empty()
    } else if all[0].array_task_id is Some {
        placed(tasks_by_index(all.skip(1)), all[0])
    } else {
        tasks_by_index(all.skip(1))
    }
}

/// Puts a task in its place.
fn place(sorted: &mut Vec<SbatchJobSnapshot>, s: SbatchJobSnapshot, index: u32)
    requires
        s.array_task_id == Some(index),
        forall|i: int|
            0 <= i < old(sorted)@.len() ==> (#[trigger] old(sorted)@[i]).array_task_id is Some,
    ensures
        final(sorted)@ == placed(old(sorted)@, s),
        forall|i: int|
            0 <= i < final(sorted)@.len() ==> (#[trigger] final(sorted)@[i]).array_task_id is Some,
{
    let ghost was = sorted@;
    let mut at: usize = 0;
    assert(was.take(0) + placed(was.skip(0), s) == placed(was, s)) by {
        assert(was.skip(0) == was);
        assert(was.take(0) == Seq::<SbatchJobSnapshot>::empty());
    }
    while at < sorted.len() && less(&sorted[at], index)
        invariant
            at <= sorted.len(),
            sorted@ == was,
            s.array_task_id == Some(index),
            forall|i: int| 0 <= i < was.len() ==> (#[trigger] was[i]).array_task_id is Some,
            was.take(at as int) + placed(was.skip(at as int), s) == placed(was, s),
        decreases sorted.len() - at,
    {
        proof {
            let rest = was.skip(at as int);
            assert(rest[0] == was[at as int]);
            assert(rest.skip(1) == was.skip(at + 1));
            assert(was.take(at as int) + (seq![rest[0]] + placed(was.skip(at + 1), s)) == was.take(
                at + 1,
            ) + placed(was.skip(at + 1), s));
        }
        at = at + 1;
    }
    sorted.insert(at, s);
    proof {
        let rest = was.skip(at as int);
        if at < was.len() {
            assert(rest[0] == was[at as int]);
        }
        assert(placed(rest, s) == seq![s] + rest);
        assert(sorted@ == was.take(at as int) + (seq![s] + rest));
        assert forall|i: int| 0 <= i < sorted@.len() implies (
        #[trigger] sorted@[i]).array_task_id is Some by {
            if i < at {
                assert(sorted@[i] == was[i]);
            } else if i > at {
                assert(sorted@[i] == was[i - 1]);
            }
        }
    }
}

/// Whether the index of the task is less.
fn less(s: &SbatchJobSnapshot, index: u32) -> (r: bool)
    requires
        s.array_task_id is Some,
    ensures
        r == (s.array_task_id->0 < index),
{
    match s.array_task_id {
        Some(i) => i < index,
        None => false,
    }
}

/// The array tasks among the snapshots, by index.
pub fn array_tasks(all: Vec<SbatchJobSnapshot>) -> (r: Vec<SbatchJobSnapshot>)
    ensures
        r@ == tasks_by_index(all@),
{
    let ghost given = all@;
    let mut rest = all;
    let mut out: Vec<SbatchJobSnapshot> = Vec::new();
    assert(given.skip(given.len() as int) == Seq::<SbatchJobSnapshot>::empty());
    while rest.len() > 0
        invariant
            rest@ == given.take(rest@.len() as int),
            rest@.len() <= given.len(),
            out@ == tasks_by_index(given.skip(rest@.len() as int)),
            forall|i: int| 0 <= i < out@.len() ==> (#[trigger] out@[i]).array_task_id is Some,
        decreases rest.len(),
    {
        let ghost n = rest@.len() as int;
        match rest.pop() {
            Some(s) => {
                proof {
                    let tail = given.skip(n - 1);
                    assert(tail[0] == s);
                    assert(tail.skip(1) == given.skip(n));
                }
                if let Some(index) = s.array_task_id {
                    place(&mut out, s, index);
                }
            },
            None => {},
        }
    }
    assert(given.skip(0) == given);
    out
}

/// Refuses to run an array.
pub fn check_run(cmd: &SbatchCmd) -> (r: Result<(), SbatchRunError>)
    ensures
        match r {
            Ok(()) => cmd.array_spec is None,
            Err(e) => cmd.array_spec is Some && e == SbatchRunError::ArrayNotSupported,
        },
{
    if cmd.array_spec.is_some() {
        return Err(SbatchRunError::ArrayNotSupported);
    }
    Ok(())
}

/// What a run comes to, given how the job ended: success is the state of a completed job
/// alone.
pub fn run_result(jobid: u64, finished: Option<FinishedInfo>) -> (r: Result<
    FinishedInfo,
    SbatchRunError,
>)
    ensures
        match r {
            Ok(f) => finished == Some(f) && f.final_state == JobState::Completed,
            Err(e) => match finished {
                None => e == (SbatchRunError::MissingFinished { jobid }),
                Some(f) => f.final_state != JobState::Completed && e == (
                SbatchRunError::JobFailed { state: f.final_state, exit_code: f.exit_code }),
            },
        },
{
    match finished {
        None => Err(SbatchRunError::MissingFinished { jobid }),
        Some(f) => match f.final_state {
            JobState::Completed => Ok(f),
            state => Err(SbatchRunError::JobFailed { state, exit_code: f.exit_code }),
        },
    }
}

/// The command line that cancels a job.
pub fn cancel_argv(scancel_bin: &str, jobid: u64) -> (r: Vec<String>)
    ensures
        model::texts(r@) == seq![scancel_bin@, model::decimal(jobid as nat)],
{
    let argv: Vec<String> = vec![scancel_bin.to_owned(), number::decimal(jobid)];
    assert(model::texts(argv@) == seq![scancel_bin@, model::decimal(jobid as nat)]);
    argv
}

/// Reads what `scancel` left behind.
pub fn read_cancel(out: &CaptureOutput) -> (r: Result<(), SbatchCancelError>)
    ensures
        match r {
            Ok(()) => out.exit_code == 0,
            Err(e) => out.exit_code != 0 && (e matches SbatchCancelError::Scancel {
                exit_code,
                output,
            } && exit_code == out.exit_code && output@ == out.shown()),
        },
{
    if !out.success() {
        return Err(
            SbatchCancelError::Scancel { exit_code: out.exit_code, output: out.diagnostic() },
        );
    }
    Ok(())
}

/// The tasks come out by index.
pub proof fn law_tasks_are_sorted(all: Seq<SbatchJobSnapshot>)
    ensures
        forall|i: int, j: int|
            0 <= i <= j < tasks_by_index(all).len() ==> (#[trigger] tasks_by_index(
                all,
            )[i]).array_task_id->0 <= (#[trigger] tasks_by_index(all)[j]).array_task_id->0,
    decreases all.len(),
{
    if all.len() > 0 {
        law_tasks_are_sorted(all.skip(1));
        if all[0].array_task_id is Some {
            lemma_placed_sorted(tasks_by_index(all.skip(1)), all[0]);
        }
    }
}

/// Putting a task in its place keeps the order.
proof fn lemma_placed_sorted(sorted: Seq<SbatchJobSnapshot>, s: SbatchJobSnapshot)
    requires
        forall|i: int, j: int|
            0 <= i <= j < sorted.len() ==> (#[trigger] sorted[i]).array_task_id->0 <= (
            #[trigger] sorted[j]).array_task_id->0,
    ensures
        forall|i: int, j: int|
            0 <= i <= j < placed(sorted, s).len() ==> (#[trigger] placed(
                sorted,
                s,
            )[i]).array_task_id->0 <= (#[trigger] placed(sorted, s)[j]).array_task_id->0,
        forall|i: int|
            0 <= i < placed(sorted, s).len() ==> (#[trigger] placed(sorted, s)[i]) == s
                || sorted.contains(placed(sorted, s)[i]),
    decreases sorted.len(),
{
    let all = placed(sorted, s);
    if sorted.len() > 0 && sorted[0].array_task_id->0 < s.array_task_id->0 {
        let rest = sorted.skip(1);
        assert forall|i: int, j: int| 0 <= i <= j < rest.len() implies (
        #[trigger] rest[i]).array_task_id->0 <= (#[trigger] rest[j]).array_task_id->0 by {
            assert(rest[i] == sorted[i + 1] && rest[j] == sorted[j + 1]);
        }
        lemma_placed_sorted(rest, s);
        let p = placed(rest, s);
        assert(all == seq![sorted[0]] + p);
        assert forall|i: int| 0 <= i < all.len() implies (#[trigger] all[i]) == s
            || sorted.contains(all[i]) by {
            if i > 0 {
                assert(all[i] == p[i - 1]);
                if p[i - 1] != s {
                    assert(rest.contains(p[i - 1]));
                    let k = choose|k: int| 0 <= k < rest.len() && rest[k] == p[i - 1];
                    assert(sorted[k + 1] == all[i]);
                }
            } else {
                assert(all[0] == sorted[0]);
            }
        }
        assert forall|i: int, j: int| 0 <= i <= j < all.len() implies (
        #[trigger] all[i]).array_task_id->0 <= (#[trigger] all[j]).array_task_id->0 by {
            if i > 0 {
                assert(all[i] == p[i - 1] && all[j] == p[j - 1]);
            } else if j > 0 {
                assert(all[j] == s || sorted.contains(all[j]));
                if all[j] != s {
                    let k = choose|k: int| 0 <= k < sorted.len() && sorted[k] == all[j];
                    assert(sorted[0].array_task_id->0 <= sorted[k].array_task_id->0);
                }
            }
        }
    } else {
        assert(all == seq![s] + sorted);
        assert forall|i: int| 0 <= i < all.len() implies (#[trigger] all[i]) == s
            || sorted.contains(all[i]) by {
            if i > 0 {
                assert(all[i] == sorted[i - 1]);
            }
        }
        assert forall|i: int, j: int| 0 <= i <= j < all.len() implies (
        #[trigger] all[i]).array_task_id->0 <= (#[trigger] all[j]).array_task_id->0 by {
            if i > 0 {
                assert(all[i] == sorted[i - 1] && all[j] == sorted[j - 1]);
            } else if j > 0 {
                assert(all[j] == sorted[j - 1]);
                assert(sorted[0].array_task_id->0 <= sorted[j - 1].array_task_id->0);
            }
        }
    }
}

/// The tasks that come out are the array tasks that went in, none lost and none twice.
pub proof fn law_tasks_are_kept(all: Seq<SbatchJobSnapshot>)
    ensures
        tasks_by_index(all).to_multiset() =~= all.filter(
            |s: SbatchJobSnapshot| s.array_task_id is Some,
        ).to_multiset(),
    decreases all.len(),
{
    broadcast use vstd::seq_lib::group_to_multiset_ensures;

    let f = |s: SbatchJobSnapshot| s.array_task_id is Some;
    reveal(Seq::filter);
    if all.len() > 0 {
        let rest = all.skip(1);
        law_tasks_are_kept(rest);
        assert(all == seq![all[0]] + rest);
        lemma_filter_first(all[0], rest);
        if all[0].array_task_id is Some {
            lemma_placed_multiset(tasks_by_index(rest), all[0]);
            vstd::seq_lib::lemma_multiset_commutative(seq![all[0]], rest.filter(f));
        } else {
            assert(Seq::<SbatchJobSnapshot>::empty() + rest.filter(f) == rest.filter(f));
        }
    } else {
        assert(all.filter(f) == Seq::<SbatchJobSnapshot>::empty());
    }
}

/// Filtering from the front.
proof fn lemma_filter_first(s: SbatchJobSnapshot, rest: Seq<SbatchJobSnapshot>)
    ensures
        ({
            let f = |s: SbatchJobSnapshot| s.array_task_id is Some;
            (seq![s] + rest).filter(f) == (if s.array_task_id is Some {
                seq![s]
            } else {
                Seq::empty()
            }) + rest.filter(f)
        }),
    decreases rest.len(),
{
    let f = |s: SbatchJobSnapshot| s.array_task_id is Some;
    reveal(Seq::filter);
    let all = seq![s] + rest;
    let head: Seq<SbatchJobSnapshot> = if s.array_task_id is Some {
        seq![s]
    } else {
        Seq::empty()
    };
    if rest.len() == 0 {
        assert(all == seq![s]);
        assert(all.drop_last() == Seq::<SbatchJobSnapshot>::empty());
        assert(all.drop_last().filter(f) == Seq::<SbatchJobSnapshot>::empty());
        assert(rest.filter(f) == Seq::<SbatchJobSnapshot>::empty());
        assert(all.filter(f) == head);
    } else {
        lemma_filter_first(s, rest.drop_last());
        assert(all.drop_last() == seq![s] + rest.drop_last());
        assert(all.last() == rest.last());
        if f(rest.last()) {
            assert(head + rest.drop_last().filter(f).push(rest.last()) == (head
                + rest.drop_last().filter(f)).push(rest.last()));
        }
    }
}

/// Putting a task in its place adds just that task.
proof fn lemma_placed_multiset(sorted: Seq<SbatchJobSnapshot>, s: SbatchJobSnapshot)
    ensures
        placed(sorted, s).to_multiset() =~= sorted.to_multiset().insert(s),
    decreases sorted.len(),
{
    broadcast use vstd::seq_lib::group_to_multiset_ensures;

    if sorted.len() > 0 && sorted[0].array_task_id->0 < s.array_task_id->0 {
        let rest = sorted.skip(1);
        lemma_placed_multiset(rest, s);
        vstd::seq_lib::lemma_multiset_commutative(seq![sorted[0]], placed(rest, s));
        vstd::seq_lib::lemma_multiset_commutative(seq![sorted[0]], rest);
        assert(sorted == seq![sorted[0]] + rest);
    } else {
        vstd::seq_lib::lemma_multiset_commutative(seq![s], sorted);
        assert(seq![s] == Seq::<SbatchJobSnapshot>::empty().push(s));
    }
}

/// The tasks of one array share its id and command line, and each keeps its own index.
pub proof fn law_array_tasks_share_the_master(
    cmd: SbatchCmd,
    argv: Seq<Seq<char>>,
    master: u64,
    i: u32,
    j: u32,
    a: (u128, Timestamp),
    b: (u128, Timestamp),
    script: Seq<char>,
)
    ensures
        ({
            let x = fresh_snapshot(cmd, argv, master, Some(i), a.0, script, a.1);
            let y = fresh_snapshot(cmd, argv, master, Some(j), b.0, script, b.1);
            &&& x.jobid == y.jobid
            &&& x.argv == y.argv
            &&& x.array_task_id == y.array_task_id <==> i == j
        }),
{
}

/// What `sbatch` left behind is read as the id that it reports, where it exited with zero;
/// where it reports none, and where it failed, that is the error, with what there is to
/// show for it.
pub proof fn law_submissions_are_read(
    out: CaptureOutput,
    r: Result<u64, SbatchSpawnError>,
    reported: Option<u64>,
)
    requires
        call_ensures(read_submission, (&out,), r),
        reported == parse::first_jobid(model::lines(out.stdout@)),
    ensures
        match r {
            Ok(id) => out.exit_code == 0 && reported == Some(id),
            Err(SbatchSpawnError::SubmitFailed { exit_code, output }) => out.exit_code != 0
                && exit_code == out.exit_code && output@ == (if model::trim(out.stderr@).len()
                > 0 {
                model::trim(out.stderr@)
            } else {
                model::trim(out.stdout@)
            }),
            Err(SbatchSpawnError::JobidParseError { stdout }) => out.exit_code == 0
                && reported is None && stdout@ == out.stdout@,
            Err(_) => false,
        },
{
}

/// A submission that reports a job is read as that job, whatever else `sbatch` prints.
pub proof fn law_reported_submission_succeeds(
    out: CaptureOutput,
    r: Result<u64, SbatchSpawnError>,
    n: int,
    jobid: u64,
    rest: Seq<char>,
)
    requires
        call_ensures(read_submission, (&out,), r),
        out.exit_code == 0,
        0 <= n < model::lines(out.stdout@).len(),
        forall|i: int|
            0 <= i < n ==> !parse::announces(#[trigger] model::lines(out.stdout@)[i]),
        model::lines(out.stdout@)[n] == "Submitted batch job "@ + model::decimal(jobid as nat)
            + rest,
        rest.len() > 0 ==> !model::is_digit(rest[0]),
    ensures
        r == Ok::<u64, SbatchSpawnError>(jobid),
{
    let lines = model::lines(out.stdout@);
    let before = lines.take(n);
    let after = lines.skip(n + 1);
    assert(lines == before + seq![lines[n]] + after);
    parse::law_reported_job_is_read(jobid, rest);
    assert forall|i: int| 0 <= i < before.len() implies parse::line_jobid(
        #[trigger] before[i],
    ) is None by {
        assert(before[i] == lines[i]);
        assert(!parse::announces(lines[i]));
    }
    parse::law_first_report_counts(before, lines[n], after, jobid);
}

/// The snapshot of a new job holds what it was submitted with, and nothing is observed of
/// it yet.
pub proof fn law_new_jobs(
    cmd: SbatchCmd,
    argv: &[String],
    jobid: u64,
    task: Option<u32>,
    uuid: u128,
    script: &str,
    now: Timestamp,
    r: SbatchJobSnapshot,
)
    requires
        call_ensures(new_snapshot, (&cmd, argv, jobid, task, uuid, script, now), r),
    ensures
        r.uuid == uuid,
        r.jobid == jobid,
        r.array_task_id == task,
        model::texts(r.argv@) == model::texts(argv@),
        r.sent_env@ == cmd.env@,
        r.script_path@ == script@,
        r.chdir is Some <==> cmd.chdir is Some,
        r.chdir is Some ==> r.chdir->0@ == cmd.chdir->0@,
        r.partition is Some <==> cmd.partition is Some,
        r.partition is Some ==> r.partition->0@ == cmd.partition->0@,
        r.job_name is Some <==> cmd.job_name is Some,
        r.job_name is Some ==> r.job_name->0@ == cmd.job_name->0@,
        r.submitted_at == now,
        r.log.output_template is Some <==> cmd.output is Some,
        r.log.output_template is Some ==> r.log.output_template->0@ == cmd.output->0@,
        r.log.error_template is Some <==> cmd.error is Some,
        r.log.error_template is Some ==> r.log.error_template->0@ == cmd.error->0@,
        r.lifecycle.last_observed_state is None,
        r.lifecycle.last_observed_at is None,
        !r.lifecycle.left_active_listing,
        r.lifecycle.finished is None,
{
    let v = r@;
    assert(v.uuid == uuid && v.jobid == jobid && v.lifecycle.finished is None);
    assert(v.chdir == cmd::opt_string(cmd.chdir));
    assert(v.partition == cmd::opt_string(cmd.partition));
    assert(v.job_name == cmd::opt_string(cmd.job_name));
    assert(v.log.output_template == cmd::opt_string(cmd.output));
    assert(v.log.error_template == cmd::opt_string(cmd.error));
}

/// An array has one new job for each index, in the order of the indices, each as if made on
/// its own with the id of the array.
pub proof fn law_new_arrays(
    cmd: SbatchCmd,
    argv: &[String],
    master: u64,
    indices: &[u32],
    stamps: &[(u128, Timestamp)],
    script: &str,
    all: Vec<SbatchJobSnapshot>,
    i: int,
    one: SbatchJobSnapshot,
)
    requires
        call_ensures(array_snapshots, (&cmd, argv, master, indices, stamps, script), all),
        0 <= i < indices@.len(),
        call_ensures(
            new_snapshot,
            (
                &cmd,
                argv,
                master,
                Some(indices@[i]),
                stamps@[i].0,
                script,
                stamps@[i].1,
            ),
            one,
        ),
    ensures
        all@.len() == indices@.len(),
        all@[i]@ == one@,
        all@[i].jobid == master,
        all@[i].array_task_id == Some(indices@[i]),
        all@[i].uuid == stamps@[i].0,
{
    assert(all@[i]@ == one@);
    assert(all@[i]@.jobid == master);
}

/// An array is submitted with the indices that its spec covers, where there are any, and
/// with that spec in place of the one it may have had.
pub proof fn law_arrays_are_planned(
    spec: SlurmArraySpec,
    cmd: SbatchCmd,
    r: Result<Vec<u32>, SbatchSpawnError>,
    indices: Vec<u32>,
    with: SbatchCmd,
)
    requires
        call_ensures(plan_array, (&spec,), r),
        call_ensures(expand_array_indices, (&spec,), indices),
        call_ensures(with_array, (cmd, spec), with),
    ensures
        r matches Ok(planned) ==> planned@ == indices@,
        r is Ok <==> indices@.len() > 0,
        with.array_spec == Some(spec),
        with == (SbatchCmd { array_spec: Some(spec), ..cmd }),
{
}

/// A run succeeds exactly where the job is recorded as completed; an end in another state is
/// a failure with that state and its exit code, and no recorded end is a failure too.
pub proof fn law_runs_succeed_with_completed_jobs(
    jobid: u64,
    finished: Option<FinishedInfo>,
    r: Result<FinishedInfo, SbatchRunError>,
    cmd: SbatchCmd,
    check: Result<(), SbatchRunError>,
)
    requires
        call_ensures(run_result, (jobid, finished), r),
        call_ensures(check_run, (&cmd,), check),
    ensures
        r is Ok <==> finished is Some && finished->0.final_state == JobState::Completed,
        r is Ok ==> r->Ok_0 == finished->0,
        finished is None ==> r == Err::<FinishedInfo, SbatchRunError>(
            SbatchRunError::MissingFinished { jobid },
        ),
        finished matches Some(f) ==> f.final_state != JobState::Completed ==> r == Err::<
            FinishedInfo,
            SbatchRunError,
        >(SbatchRunError::JobFailed { state: f.final_state, exit_code: f.exit_code }),
        check is Ok <==> cmd.array_spec is None,
        check is Err ==> check->Err_0 == SbatchRunError::ArrayNotSupported,
{
}

/// Attaching by job id finds the one snapshot of the job: none is an error, and so are two.
pub proof fn law_attaching_needs_one_match(
    jobid: u64,
    matches: Vec<SbatchJobSnapshot>,
    r: Result<SbatchJobSnapshot, SbatchAttachError>,
)
    requires
        call_ensures(only_match, (jobid, matches), r),
    ensures
        r is Ok <==> matches@.len() == 1,
        r is Ok ==> r->Ok_0 == matches@[0],
        matches@.len() == 0 ==> (r matches Err(SbatchAttachError::NotFound { key }) && key@
            == "JobId("@ + model::decimal(jobid as nat) + seq![')']),
        matches@.len() > 1 ==> (r matches Err(SbatchAttachError::MultipleMatch {
            jobid: j,
            count,
        }) && j == jobid && count == matches@.len()),
{
}

/// Attaching by another key finds the snapshot or says which key was not found; a file is
/// attached to exactly where its bytes are JSON of no other kind.
pub proof fn law_attaching_by_key_or_file(
    key: SbatchAttachKey,
    snapshot: Option<SbatchJobSnapshot>,
    r: Result<SbatchJobSnapshot, SbatchAttachError>,
    check: KindCheck,
    expected: &str,
    judged: Result<(), SbatchAttachError>,
    shown: String,
)
    requires
        call_ensures(found, (&key, snapshot), r),
        call_ensures(judge_file, (check, expected), judged),
        call_ensures(SbatchAttachKey::show, (&key,), shown),
    ensures
        snapshot matches Some(s) ==> r == Ok::<SbatchJobSnapshot, SbatchAttachError>(s),
        snapshot is None ==> (r matches Err(SbatchAttachError::NotFound { key: k }) && k@
            == shown@),
        judged is Ok <==> check is Matches,
        check matches KindCheck::NotJson { message } ==> (judged matches Err(
            SbatchAttachError::Io(e),
        ) && e@ == message@),
        check matches KindCheck::Other { got } ==> (judged matches Err(
            SbatchAttachError::KindMismatch { expected: x, got: g },
        ) && x@ == expected@ && g@ == got@),
        key matches SbatchAttachKey::Uuid(u) ==> shown@ == "Uuid("@ + ident::uuid_text(u) + seq![
            ')',
        ],
        key matches SbatchAttachKey::JobId(j) ==> shown@ == "JobId("@ + model::decimal(j as nat)
            + seq![')'],
{
}

/// The tasks of an array come back by index: all snapshots that are tasks, no other, and no
/// task before one of a lower index.
pub proof fn law_array_tasks_come_back(all: Vec<SbatchJobSnapshot>, r: Vec<SbatchJobSnapshot>)
    requires
        call_ensures(array_tasks, (all,), r),
    ensures
        r@.to_multiset() =~= all@.filter(
            |s: SbatchJobSnapshot| s.array_task_id is Some,
        ).to_multiset(),
        forall|i: int, j: int|
            0 <= i <= j < r@.len() ==> (#[trigger] r@[i]).array_task_id->0 <= (
            #[trigger] r@[j]).array_task_id->0,
{
    law_tasks_are_kept(all@);
    law_tasks_are_sorted(all@);
}

/// A job is cancelled by its id, and that succeeds exactly where `scancel` exits with zero.
pub proof fn law_cancelling(
    bin: &str,
    jobid: u64,
    argv: Vec<String>,
    out: CaptureOutput,
    r: Result<(), SbatchCancelError>,
)
    requires
        call_ensures(cancel_argv, (bin, jobid), argv),
        call_ensures(read_cancel, (&out,), r),
    ensures
        model::texts(argv@) == seq![bin@, model::decimal(jobid as nat)],
        r is Ok <==> out.exit_code == 0,
        out.exit_code != 0 ==> (r matches Err(SbatchCancelError::Scancel { exit_code, output })
            && exit_code == out.exit_code && output@ == (if model::trim(out.stderr@).len() > 0 {
            model::trim(out.stderr@)
        } else {
            model::trim(out.stdout@)
        })),
{
}

} // verus!
