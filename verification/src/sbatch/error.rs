//! Errors of submitting, finding, running and cancelling jobs.
use crate::entities::status::JobState;
use crate::text::model;
use crate::text::number;
use vstd::prelude::*;

verus! {

/// How Rust writes a string for debugging: in quotes, with escapes.
pub uninterp spec fn debug_text(s: Seq<char>) -> Seq<char>;

/// The `Debug` form of a `str`, by `format!` with `{:?}`: it depends on the string
/// alone.
#[verifier::external_body]
fn debug_string(s: &str) -> (r: String)
    ensures
        r@ == debug_text(s@),
{
    format!("{:?}", s)
}

/// Why a submission did not lead to a handle.
#[non_exhaustive]
#[derive(Debug, Clone, PartialEq, Eq)]
pub enum SbatchSpawnError {
    /// `sbatch` exited with an error.
    SubmitFailed { exit_code: i32, output: String },
    /// `sbatch` did not report a job id.
    JobidParseError { stdout: String },
    /// A variable name would corrupt `--export`.
    InvalidExportKey { key: String },
    /// The value of a variable would corrupt `--export`.
    InvalidExportValue { key: String, value: String },
    /// The job runs, but its snapshot could not be saved.
    SubmittedButUnpersisted { jobid: u64, source: String },
    /// Any other failure, by its message.
    Other(String),
}

/// What an `SbatchSpawnError` holds.
pub enum SpawnFault {
    SubmitFailed { exit_code: i32, output: Seq<char> },
    JobidParseError { stdout: Seq<char> },
    InvalidExportKey { key: Seq<char> },
    InvalidExportValue { key: Seq<char>, value: Seq<char> },
    SubmittedButUnpersisted { jobid: u64, source: Seq<char> },
    Other(Seq<char>),
}

impl View for SbatchSpawnError {
    type V = SpawnFault;

    open spec fn view(&self) -> SpawnFault {
        match *self {
            SbatchSpawnError::SubmitFailed { exit_code, output } => SpawnFault::SubmitFailed {
                exit_code,
                output: output@,
            },
            SbatchSpawnError::JobidParseError { stdout } => SpawnFault::JobidParseError {
                stdout: stdout@,
            },
            SbatchSpawnError::InvalidExportKey { key } => SpawnFault::InvalidExportKey {
                key: key@,
            },
            SbatchSpawnError::InvalidExportValue { key, value } => SpawnFault::InvalidExportValue {
                key: key@,
                value: value@,
            },
            SbatchSpawnError::SubmittedButUnpersisted { jobid, source } =>
                SpawnFault::SubmittedButUnpersisted { jobid, source: source@ },
            SbatchSpawnError::Other(s) => SpawnFault::Other(s@),
        }
    }
}

impl SpawnFault {
    /// The message for the fault.
    pub open spec fn message(self) -> Seq<char> {
        match self {
            SpawnFault::SubmitFailed { exit_code, output } => "sbatch invocation failed (exit="@
                + model::decimal_int(exit_code as int) + "): "@ + output,
            SpawnFault::JobidParseError { stdout } =>
                "sbatch stdout did not contain a parseable jobid: "@ + stdout,
            SpawnFault::InvalidExportKey { key } =>
                "--export key contains forbidden char (`,` or `=`): "@ + debug_text(key),
            SpawnFault::InvalidExportValue { key, value } => "--export value for key "@
                + debug_text(key) + " contains forbidden char (`,` or `=`): "@ + debug_text(value),
            SpawnFault::SubmittedButUnpersisted { jobid, source } => "sbatch submitted jobid="@
                + model::decimal(jobid as nat) + " but snapshot save failed: "@ + source,
            SpawnFault::Other(s) => s,
        }
    }
}

impl SbatchSpawnError {
    /// The message for the error.
    pub fn to_string(&self) -> (r: String)
        ensures
            r@ == self@.message(),
    {
        let mut out = String::new();
        match self {
            SbatchSpawnError::SubmitFailed { exit_code, output } => {
                out.append("sbatch invocation failed (exit=");
                number::push_decimal_i32(&mut out, *exit_code);
                out.append("): ");
                out.append(output.as_str());
            },
            SbatchSpawnError::JobidParseError { stdout } => {
                out.append("sbatch stdout did not contain a parseable jobid: ");
                out.append(stdout.as_str());
            },
            SbatchSpawnError::InvalidExportKey { key } => {
                out.append("--export key contains forbidden char (`,` or `=`): ");
                out.append(debug_string(key.as_str()).as_str());
            },
            SbatchSpawnError::InvalidExportValue { key, value } => {
                out.append("--export value for key ");
                out.append(debug_string(key.as_str()).as_str());
                out.append(" contains forbidden char (`,` or `=`): ");
                out.append(debug_string(value.as_str()).as_str());
            },
            SbatchSpawnError::SubmittedButUnpersisted { jobid, source } => {
                out.append("sbatch submitted jobid=");
                number::push_decimal(&mut out, *jobid);
                out.append(" but snapshot save failed: ");
                out.append(source.as_str());
            },
            SbatchSpawnError::Other(s) => {
                out.append(s.as_str());
            },
        }
        assert(out@ == self@.message());
        out
    }
}

/// Why no job could be attached to.
#[non_exhaustive]
#[derive(Debug, Clone, PartialEq, Eq)]
pub enum SbatchAttachError {
    /// The store could not be read, by its message.
    Io(String),
    /// More than one snapshot has the job id, as for an array.
    MultipleMatch { jobid: u64, count: usize },
    /// The file holds a snapshot of another kind.
    KindMismatch { expected: String, got: String },
    /// There is no snapshot for the key.
    NotFound { key: String },
}

impl SbatchAttachError {
    /// The message for the error.
    pub open spec fn message(self) -> Seq<char> {
        match self {
            SbatchAttachError::Io(e) => e@,
            SbatchAttachError::MultipleMatch { jobid, count } => "jobid "@ + model::decimal(
                jobid as nat,
            ) + " matches "@ + model::decimal(count as nat) + " snapshots"@,
            SbatchAttachError::KindMismatch { expected, got } => "snapshot kind mismatch: expected "@
                + debug_text(expected@) + ", got "@ + debug_text(got@),
            SbatchAttachError::NotFound { key } => "no snapshot found for "@ + key@,
        }
    }

    /// The message for the error.
    pub fn to_string(&self) -> (r: String)
        ensures
            r@ == self.message(),
    {
        let mut out = String::new();
        match self {
            SbatchAttachError::Io(e) => {
                out.append(e.as_str());
            },
            SbatchAttachError::MultipleMatch { jobid, count } => {
                out.append("jobid ");
                number::push_decimal(&mut out, *jobid);
                out.append(" matches ");
                number::push_decimal(&mut out, *count as u64);
                out.append(" snapshots");
            },
            SbatchAttachError::KindMismatch { expected, got } => {
                out.append("snapshot kind mismatch: expected ");
                out.append(debug_string(expected.as_str()).as_str());
                out.append(", got ");
                out.append(debug_string(got.as_str()).as_str());
            },
            SbatchAttachError::NotFound { key } => {
                out.append("no snapshot found for ");
                out.append(key.as_str());
            },
        }
        assert(out@ == self.message());
        out
    }
}

/// Why a job could not be cancelled.
#[non_exhaustive]
#[derive(Debug, Clone, PartialEq, Eq)]
pub enum SbatchCancelError {
    /// `scancel` exited with an error.
    Scancel { exit_code: i32, output: String },
    /// Any other failure, by its message.
    Other(String),
}

impl SbatchCancelError {
    /// The message for the error.
    pub open spec fn message(self) -> Seq<char> {
        match self {
            SbatchCancelError::Scancel { exit_code, output } => "scancel failed (exit="@
                + model::decimal_int(exit_code as int) + "): "@ + output@,
            SbatchCancelError::Other(s) => s@,
        }
    }

    /// The message for the error.
    pub fn to_string(&self) -> (r: String)
        ensures
            r@ == self.message(),
    {
        let mut out = String::new();
        match self {
            SbatchCancelError::Scancel { exit_code, output } => {
                out.append("scancel failed (exit=");
                number::push_decimal_i32(&mut out, *exit_code);
                out.append("): ");
                out.append(output.as_str());
            },
            SbatchCancelError::Other(s) => {
                out.append(s.as_str());
            },
        }
        assert(out@ == self.message());
        out
    }
}

/// Why a job that was run to its end has no successful end.
#[non_exhaustive]
#[derive(Debug, Clone, PartialEq, Eq)]
pub enum SbatchRunError {
    /// Arrays cannot be run.
    ArrayNotSupported,
    /// The job was not submitted.
    Spawn(SbatchSpawnError),
    /// Waiting for the job failed, by its message.
    Wait(String),
    /// Asking `sacct` failed, by its message.
    Sacct(String),
    /// `sacct` did not report how the job ended.
    MissingFinished { jobid: u64 },
    /// The job ended in another state than success.
    JobFailed { state: JobState, exit_code: Option<i32> },
}

impl SbatchRunError {
    /// The message for the error.
    pub open spec fn message(self) -> Seq<char> {
        match self {
            SbatchRunError::ArrayNotSupported => "run does not support array submissions"@,
            SbatchRunError::Spawn(e) => e@.message(),
            SbatchRunError::Wait(s) => "waiting for the job failed: "@ + s@,
            SbatchRunError::Sacct(s) => "asking sacct failed: "@ + s@,
            SbatchRunError::MissingFinished { jobid } => "sacct did not report how jobid="@
                + model::decimal(jobid as nat) + " ended"@,
            SbatchRunError::JobFailed { state, exit_code } => "job ended in state "@ + state.token()
                + match exit_code {
                Some(n) => " (exit="@ + model::decimal_int(n as int) + ")"@,
                None => Seq::empty(),
            },
        }
    }

    /// The message for the error.
    pub fn to_string(&self) -> (r: String)
        ensures
            r@ == self.message(),
    {
        let mut out = String::new();
        match self {
            SbatchRunError::ArrayNotSupported => {
                out.append("run does not support array submissions");
            },
            SbatchRunError::Spawn(e) => {
                out.append(e.to_string().as_str());
            },
            SbatchRunError::Wait(s) => {
                out.append("waiting for the job failed: ");
                out.append(s.as_str());
            },
            SbatchRunError::Sacct(s) => {
                out.append("asking sacct failed: ");
                out.append(s.as_str());
            },
            SbatchRunError::MissingFinished { jobid } => {
                out.append("sacct did not report how jobid=");
                number::push_decimal(&mut out, *jobid);
                out.append(" ended");
            },
            SbatchRunError::JobFailed { state, exit_code } => {
                out.append("job ended in state ");
                out.append(state.as_token());
                if let Some(n) = exit_code {
                    out.append(" (exit=");
                    number::push_decimal_i32(&mut out, *n);
                    out.append(")");
                }
            },
        }
        assert(out@ == self.message());
        out
    }
}

/// How a path is shown in a message: as a string for debugging.
pub fn quoted(path: &str) -> (r: String)
    ensures
        r@ == debug_text(path@),
{
    debug_string(path)
}

/// The message of a failed submission says what went wrong and with what: the exit code and
/// the output, what was printed, the variable, or the job that now runs without a snapshot.
pub proof fn law_spawn_messages(e: SbatchSpawnError, r: String)
    requires
        call_ensures(SbatchSpawnError::to_string, (&e,), r),
    ensures
        match e {
            SbatchSpawnError::SubmitFailed { exit_code, output } => r@
                == "sbatch invocation failed (exit="@ + model::decimal_int(exit_code as int)
                + "): "@ + output@,
            SbatchSpawnError::JobidParseError { stdout } => r@
                == "sbatch stdout did not contain a parseable jobid: "@ + stdout@,
            SbatchSpawnError::InvalidExportKey { key } => r@
                == "--export key contains forbidden char (`,` or `=`): "@ + debug_text(key@),
            SbatchSpawnError::InvalidExportValue { key, value } => r@ == "--export value for key "@
                + debug_text(key@) + " contains forbidden char (`,` or `=`): "@ + debug_text(
                value@,
            ),
            SbatchSpawnError::SubmittedButUnpersisted { jobid, source } => r@
                == "sbatch submitted jobid="@ + model::decimal(jobid as nat)
                + " but snapshot save failed: "@ + source@,
            SbatchSpawnError::Other(s) => r@ == s@,
        },
{
}

/// The message of a failure to attach says what was looked for and what was found.
pub proof fn law_attach_messages(e: SbatchAttachError, r: String)
    requires
        call_ensures(SbatchAttachError::to_string, (&e,), r),
    ensures
        match e {
            SbatchAttachError::Io(m) => r@ == m@,
            SbatchAttachError::MultipleMatch { jobid, count } => r@ == "jobid "@ + model::decimal(
                jobid as nat,
            ) + " matches "@ + model::decimal(count as nat) + " snapshots"@,
            SbatchAttachError::KindMismatch { expected, got } => r@
                == "snapshot kind mismatch: expected "@ + debug_text(expected@) + ", got "@
                + debug_text(got@),
            SbatchAttachError::NotFound { key } => r@ == "no snapshot found for "@ + key@,
        },
{
}

/// The message of a failure to cancel holds the exit code and the output.
pub proof fn law_cancel_messages(e: SbatchCancelError, r: String)
    requires
        call_ensures(SbatchCancelError::to_string, (&e,), r),
    ensures
        match e {
            SbatchCancelError::Scancel { exit_code, output } => r@ == "scancel failed (exit="@
                + model::decimal_int(exit_code as int) + "): "@ + output@,
            SbatchCancelError::Other(s) => r@ == s@,
        },
{
}

/// The message of a failed run names the state that the job ended in and, where there is
/// one, its exit code; that of a failed submission is the message of the submission.
pub proof fn law_run_messages(e: SbatchRunError, r: String)
    requires
        call_ensures(SbatchRunError::to_string, (&e,), r),
    ensures
        match e {
            SbatchRunError::JobFailed { state, exit_code } => match exit_code {
                Some(n) => r@ == "job ended in state "@ + state.token() + (" (exit="@
                    + model::decimal_int(n as int) + ")"@),
                None => r@ == "job ended in state "@ + state.token(),
            },
            SbatchRunError::MissingFinished { jobid } => r@ == "sacct did not report how jobid="@
                + model::decimal(jobid as nat) + " ended"@,
            SbatchRunError::Spawn(s) => r@ == s@.message(),
            SbatchRunError::Wait(s) => r@ == "waiting for the job failed: "@ + s@,
            SbatchRunError::Sacct(s) => r@ == "asking sacct failed: "@ + s@,
            SbatchRunError::ArrayNotSupported => r@ == "run does not support array submissions"@,
        },
{
    if let SbatchRunError::JobFailed { state, exit_code } = e {
        assert("job ended in state "@ + state.token() + Seq::<char>::empty()
            == "job ended in state "@ + state.token());
    }
}

} // verus!
