//! State of a job, as `squeue %T`, `sacct State` and `qgroup -l` report it.
use crate::entities::reason::{JobReason, ReasonView};
use crate::text;
use crate::text::lemmas;
use crate::text::model;
use vstd::prelude::*;

verus! {

/// State of a SLURM job: one of the official state codes, or `Unknown`.
#[derive(Debug, Clone, Copy, PartialEq, Eq, Structural, Hash)]
pub enum JobState {
    // Queued, not progressing
    Pending,
    Configuring,
    Requeued,
    RequeueFed,
    RequeueHold,
    ResvDelHold,
    Suspended,
    Stopped,
    // Alive, progressing
    Running,
    Completing,
    Resizing,
    Signaling,
    StageOut,
    // Terminal success
    Completed,
    // Terminal failure
    BootFail,
    Cancelled,
    Deadline,
    Failed,
    NodeFail,
    OutOfMemory,
    Preempted,
    Revoked,
    SpecialExit,
    Timeout,
    // None of the above
    Unknown,
}

impl JobState {
    /// The long form of the state.
    pub open spec fn token(self) -> Seq<char> {
        match self {
            JobState::Pending => "PENDING"@,
            JobState::Configuring => "CONFIGURING"@,
            JobState::Requeued => "REQUEUED"@,
            JobState::RequeueFed => "REQUEUE_FED"@,
            JobState::RequeueHold => "REQUEUE_HOLD"@,
            JobState::ResvDelHold => "RESV_DEL_HOLD"@,
            JobState::Suspended => "SUSPENDED"@,
            JobState::Stopped => "STOPPED"@,
            JobState::Running => "RUNNING"@,
            JobState::Completing => "COMPLETING"@,
            JobState::Resizing => "RESIZING"@,
            JobState::Signaling => "SIGNALING"@,
            JobState::StageOut => "STAGE_OUT"@,
            JobState::Completed => "COMPLETED"@,
            JobState::BootFail => "BOOT_FAIL"@,
            JobState::Cancelled => "CANCELLED"@,
            JobState::Deadline => "DEADLINE"@,
            JobState::Failed => "FAILED"@,
            JobState::NodeFail => "NODE_FAIL"@,
            JobState::OutOfMemory => "OUT_OF_MEMORY"@,
            JobState::Preempted => "PREEMPTED"@,
            JobState::Revoked => "REVOKED"@,
            JobState::SpecialExit => "SPECIAL_EXIT"@,
            JobState::Timeout => "TIMEOUT"@,
            JobState::Unknown => "UNKNOWN"@,
        }
    }

    /// The state that a word in upper case names: by its long form, its compact code
    /// or, for some, the word that `qgroup` prints.
    pub open spec fn named(t: Seq<char>) -> JobState {
        if t == "PENDING"@ || t == "PD"@ || t == "QUE"@ {
            JobState::Pending
        } else if t == "CONFIGURING"@ || t == "CF"@ {
            JobState::Configuring
        } else if t == "REQUEUED"@ || t == "RQ"@ {
            JobState::Requeued
        } else if t == "REQUEUE_FED"@ || t == "RF"@ {
            JobState::RequeueFed
        } else if t == "REQUEUE_HOLD"@ || t == "RH"@ {
            JobState::RequeueHold
        } else if t == "RESV_DEL_HOLD"@ || t == "RD"@ {
            JobState::ResvDelHold
        } else if t == "SUSPENDED"@ || t == "S"@ {
            JobState::Suspended
        } else if t == "STOPPED"@ || t == "ST"@ {
            JobState::Stopped
        } else if t == "RUNNING"@ || t == "R"@ || t == "RUN"@ {
            JobState::Running
        } else if t == "COMPLETING"@ || t == "CG"@ {
            JobState::Completing
        } else if t == "RESIZING"@ || t == "RS"@ {
            JobState::Resizing
        } else if t == "SIGNALING"@ || t == "SI"@ {
            JobState::Signaling
        } else if t == "STAGE_OUT"@ || t == "SO"@ {
            JobState::StageOut
        } else if t == "COMPLETED"@ || t == "CD"@ || t == "CMP"@ || t == "FINI"@ {
            JobState::Completed
        } else if t == "BOOT_FAIL"@ || t == "BF"@ {
            JobState::BootFail
        } else if t == "CANCELLED"@ || t == "CA"@ {
            JobState::Cancelled
        } else if t == "DEADLINE"@ || t == "DL"@ {
            JobState::Deadline
        } else if t == "FAILED"@ || t == "F"@ || t == "FAIL"@ {
            JobState::Failed
        } else if t == "NODE_FAIL"@ || t == "NF"@ {
            JobState::NodeFail
        } else if t == "OUT_OF_MEMORY"@ || t == "OOM"@ {
            JobState::OutOfMemory
        } else if t == "PREEMPTED"@ || t == "PR"@ {
            JobState::Preempted
        } else if t == "REVOKED"@ || t == "RV"@ {
            JobState::Revoked
        } else if t == "SPECIAL_EXIT"@ || t == "SE"@ {
            JobState::SpecialExit
        } else if t == "TIMEOUT"@ || t == "TO"@ {
            JobState::Timeout
        } else {
            JobState::Unknown
        }
    }

    /// The state that `raw` reports: its first word decides, in any case.
    pub open spec fn parsed(raw: Seq<char>) -> JobState {
        let words = model::words(raw);
        if words.len() == 0 {
            JobState::Unknown
        } else {
            Self::named(model::to_upper(words[0]))
        }
    }

    /// The job is alive and progressing.
    pub open spec fn running(self) -> bool {
        match self {
            JobState::Running
            | JobState::Completing
            | JobState::Resizing
            | JobState::Signaling
            | JobState::StageOut => true,
            _ => false,
        }
    }

    /// The job has ended, with success or not.
    pub open spec fn terminal(self) -> bool {
        match self {
            JobState::Completed
            | JobState::BootFail
            | JobState::Cancelled
            | JobState::Deadline
            | JobState::Failed
            | JobState::NodeFail
            | JobState::OutOfMemory
            | JobState::Preempted
            | JobState::Revoked
            | JobState::SpecialExit
            | JobState::Timeout => true,
            _ => false,
        }
    }

    /// Reads a state. Long forms (`"PENDING"`), compact codes (`"PD"`) and the words
    /// of `qgroup` (`"QUE"`) are known, in any case; what follows the first word
    /// (`"CANCELLED by 1234"`) does not count.
    pub fn parse(raw: &str) -> (r: JobState)
        ensures
            r == Self::parsed(raw@),
    {
        let cs = text::chars_of(raw);
        Self::parse_chars(cs.as_slice())
    }

    /// Reads a state from its characters.
    pub fn parse_chars(raw: &[char]) -> (r: JobState)
        ensures
            r == Self::parsed(raw@),
    {
        let words = text::words(raw);
        assert(model::views(words@) == model::words(raw@));
        if words.len() == 0 {
            return JobState::Unknown;
        }
        let token = text::to_upper(words[0]);
        let t = token.as_slice();
        if text::is_str(t, "PENDING") || text::is_str(t, "PD") || text::is_str(t, "QUE") {
            JobState::Pending
        } else if text::is_str(t, "CONFIGURING") || text::is_str(t, "CF") {
            JobState::Configuring
        } else if text::is_str(t, "REQUEUED") || text::is_str(t, "RQ") {
            JobState::Requeued
        } else if text::is_str(t, "REQUEUE_FED") || text::is_str(t, "RF") {
            JobState::RequeueFed
        } else if text::is_str(t, "REQUEUE_HOLD") || text::is_str(t, "RH") {
            JobState::RequeueHold
        } else if text::is_str(t, "RESV_DEL_HOLD") || text::is_str(t, "RD") {
            JobState::ResvDelHold
        } else if text::is_str(t, "SUSPENDED") || text::is_str(t, "S") {
            JobState::Suspended
        } else if text::is_str(t, "STOPPED") || text::is_str(t, "ST") {
            JobState::Stopped
        } else if text::is_str(t, "RUNNING") || text::is_str(t, "R") || text::is_str(t, "RUN") {
            JobState::Running
        } else if text::is_str(t, "COMPLETING") || text::is_str(t, "CG") {
            JobState::Completing
        } else if text::is_str(t, "RESIZING") || text::is_str(t, "RS") {
            JobState::Resizing
        } else if text::is_str(t, "SIGNALING") || text::is_str(t, "SI") {
            JobState::Signaling
        } else if text::is_str(t, "STAGE_OUT") || text::is_str(t, "SO") {
            JobState::StageOut
        } else if text::is_str(t, "COMPLETED") || text::is_str(t, "CD") || text::is_str(t, "CMP") || text::is_str(t, "FINI") {
            JobState::Completed
        } else if text::is_str(t, "BOOT_FAIL") || text::is_str(t, "BF") {
            JobState::BootFail
        } else if text::is_str(t, "CANCELLED") || text::is_str(t, "CA") {
            JobState::Cancelled
        } else if text::is_str(t, "DEADLINE") || text::is_str(t, "DL") {
            JobState::Deadline
        } else if text::is_str(t, "FAILED") || text::is_str(t, "F") || text::is_str(t, "FAIL") {
            JobState::Failed
        } else if text::is_str(t, "NODE_FAIL") || text::is_str(t, "NF") {
            JobState::NodeFail
        } else if text::is_str(t, "OUT_OF_MEMORY") || text::is_str(t, "OOM") {
            JobState::OutOfMemory
        } else if text::is_str(t, "PREEMPTED") || text::is_str(t, "PR") {
            JobState::Preempted
        } else if text::is_str(t, "REVOKED") || text::is_str(t, "RV") {
            JobState::Revoked
        } else if text::is_str(t, "SPECIAL_EXIT") || text::is_str(t, "SE") {
            JobState::SpecialExit
        } else if text::is_str(t, "TIMEOUT") || text::is_str(t, "TO") {
            JobState::Timeout
        } else {
            JobState::Unknown
        }
    }

    /// The long form of the state, in upper case.
    pub fn as_token(&self) -> (r: &'static str)
        ensures
            r@ == self.token(),
    {
        match self {
            JobState::Pending => "PENDING",
            JobState::Configuring => "CONFIGURING",
            JobState::Requeued => "REQUEUED",
            JobState::RequeueFed => "REQUEUE_FED",
            JobState::RequeueHold => "REQUEUE_HOLD",
            JobState::ResvDelHold => "RESV_DEL_HOLD",
            JobState::Suspended => "SUSPENDED",
            JobState::Stopped => "STOPPED",
            JobState::Running => "RUNNING",
            JobState::Completing => "COMPLETING",
            JobState::Resizing => "RESIZING",
            JobState::Signaling => "SIGNALING",
            JobState::StageOut => "STAGE_OUT",
            JobState::Completed => "COMPLETED",
            JobState::BootFail => "BOOT_FAIL",
            JobState::Cancelled => "CANCELLED",
            JobState::Deadline => "DEADLINE",
            JobState::Failed => "FAILED",
            JobState::NodeFail => "NODE_FAIL",
            JobState::OutOfMemory => "OUT_OF_MEMORY",
            JobState::Preempted => "PREEMPTED",
            JobState::Revoked => "REVOKED",
            JobState::SpecialExit => "SPECIAL_EXIT",
            JobState::Timeout => "TIMEOUT",
            JobState::Unknown => "UNKNOWN",
        }
    }

    /// Whether the job is alive and progressing.
    pub fn is_running(&self) -> (r: bool)
        ensures
            r == self.running(),
    {
        match self {
            JobState::Running
            | JobState::Completing
            | JobState::Resizing
            | JobState::Signaling
            | JobState::StageOut => true,
            _ => false,
        }
    }

    /// Whether the job has ended.
    pub fn is_terminal(&self) -> (r: bool)
        ensures
            r == self.terminal(),
    {
        match self {
            JobState::Completed
            | JobState::BootFail
            | JobState::Cancelled
            | JobState::Deadline
            | JobState::Failed
            | JobState::NodeFail
            | JobState::OutOfMemory
            | JobState::Preempted
            | JobState::Revoked
            | JobState::SpecialExit
            | JobState::Timeout => true,
            _ => false,
        }
    }
}

/// State of a job and why it is in it.
#[derive(Debug, PartialEq, Eq, Hash)]
pub struct JobStatus {
    pub state: JobState,
    pub reason: JobReason,
}

/// What a `JobStatus` holds.
pub struct StatusView {
    pub state: JobState,
    pub reason: ReasonView,
}

impl View for JobStatus {
    type V = StatusView;

    open spec fn view(&self) -> StatusView {
        StatusView { state: self.state, reason: self.reason@ }
    }
}

impl StatusView {
    /// A state without a reason.
    pub open spec fn plain(state: JobState) -> StatusView {
        StatusView { state, reason: ReasonView { other: false, text: "None"@ } }
    }

    /// The status that a state and a reason report.
    pub open spec fn parsed(state: Seq<char>, reason: Seq<char>) -> StatusView {
        StatusView { state: JobState::parsed(state), reason: JobReason::parsed(reason) }
    }
}

impl JobStatus {
    /// A state without a reason.
    pub fn new(state: JobState) -> (r: JobStatus)
        ensures
            r == (JobStatus { state, reason: JobReason::NoReason }),
    {
        JobStatus { state, reason: JobReason::NoReason }
    }

    /// A state with a reason.
    pub fn with_reason(state: JobState, reason: JobReason) -> (r: JobStatus)
        ensures
            r == (JobStatus { state, reason }),
    {
        JobStatus { state, reason }
    }

    /// The status that a state and a reason report.
    pub fn parse(state: &str, reason: &str) -> (r: JobStatus)
        ensures
            r@ == StatusView::parsed(state@, reason@),
    {
        JobStatus { state: JobState::parse(state), reason: JobReason::parse(reason) }
    }

    /// The token of the state and, in brackets, the reason.
    pub fn to_string(&self) -> (r: String)
        ensures
            r@ == self.state.token() + " ("@ + self.reason.text() + seq![')'],
    {
        let mut out = self.state.as_token().to_owned();
        out.append(" (");
        out.append(self.reason.as_str());
        out.push(')');
        out
    }

    /// The status that a state and a reason report.
    pub fn parse_chars(state: &[char], reason: &[char]) -> (r: JobStatus)
        ensures
            r@ == StatusView::parsed(state@, reason@),
    {
        JobStatus { state: JobState::parse_chars(state), reason: JobReason::parse_chars(reason) }
    }
}

impl Clone for JobStatus {
    fn clone(&self) -> (r: JobStatus)
        ensures
            r == *self,
    {
        JobStatus { state: self.state, reason: self.reason.clone() }
    }
}

impl Default for JobStatus {
    fn default() -> (r: JobStatus)
        ensures
            r == (JobStatus { state: JobState::Unknown, reason: JobReason::NoReason }),
    {
        JobStatus { state: JobState::Unknown, reason: JobReason::NoReason }
    }
}

/// A number that tells the names of states apart: their length, their first
/// character and the one two thirds through.
#[verifier::opaque]
spec fn print(t: Seq<char>) -> int {
    t.len() * 1_000_000 + t[0] as int * 1_000 + t[2 * t.len() as int / 3] as int
}

/// The state whose name has the number.
#[verifier::opaque]
spec fn printed(p: int) -> JobState {
    if p == 7080073 || p == 2080068 || p == 3081069 {
        JobState::Pending
    } else if p == 11067082 || p == 2067070 {
        JobState::Configuring
    } else if p == 8082085 || p == 2082081 {
        JobState::Requeued
    } else if p == 11082095 || p == 2082070 {
        JobState::RequeueFed
    } else if p == 12082072 || p == 2082072 {
        JobState::RequeueHold
    } else if p == 13082095 || p == 2082068 {
        JobState::ResvDelHold
    } else if p == 9083068 || p == 1083083 {
        JobState::Suspended
    } else if p == 7083080 || p == 2083084 {
        JobState::Stopped
    } else if p == 7082073 || p == 1082082 || p == 3082078 {
        JobState::Running
    } else if p == 10067084 || p == 2067071 {
        JobState::Completing
    } else if p == 8082073 || p == 2082083 {
        JobState::Resizing
    } else if p == 9083073 || p == 2083073 {
        JobState::Signaling
    } else if p == 9083079 || p == 2083079 {
        JobState::StageOut
    } else if p == 9067084 || p == 2067068 || p == 3067080 || p == 4070078 {
        JobState::Completed
    } else if p == 9066065 || p == 2066070 {
        JobState::BootFail
    } else if p == 9067076 || p == 2067065 {
        JobState::Cancelled
    } else if p == 8068073 || p == 2068076 {
        JobState::Deadline
    } else if p == 6070069 || p == 1070070 || p == 4070073 {
        JobState::Failed
    } else if p == 9078065 || p == 2078070 {
        JobState::NodeFail
    } else if p == 13079069 || p == 3079077 {
        JobState::OutOfMemory
    } else if p == 9080084 || p == 2080082 {
        JobState::Preempted
    } else if p == 7082075 || p == 2082086 {
        JobState::Revoked
    } else if p == 12083069 || p == 2083069 {
        JobState::SpecialExit
    } else if p == 7084079 || p == 2084079 {
        JobState::Timeout
    } else {
        JobState::Unknown
    }
}

/// The number of a name leads back to its state.
#[verifier::spinoff_prover]
proof fn lemma_prints()
    ensures
        printed(print("PENDING"@)) == JobState::Pending,
        printed(print("PD"@)) == JobState::Pending,
        printed(print("QUE"@)) == JobState::Pending,
        printed(print("CONFIGURING"@)) == JobState::Configuring,
        printed(print("CF"@)) == JobState::Configuring,
        printed(print("REQUEUED"@)) == JobState::Requeued,
        printed(print("RQ"@)) == JobState::Requeued,
        printed(print("REQUEUE_FED"@)) == JobState::RequeueFed,
        printed(print("RF"@)) == JobState::RequeueFed,
        printed(print("REQUEUE_HOLD"@)) == JobState::RequeueHold,
        printed(print("RH"@)) == JobState::RequeueHold,
        printed(print("RESV_DEL_HOLD"@)) == JobState::ResvDelHold,
        printed(print("RD"@)) == JobState::ResvDelHold,
        printed(print("SUSPENDED"@)) == JobState::Suspended,
        printed(print("S"@)) == JobState::Suspended,
        printed(print("STOPPED"@)) == JobState::Stopped,
        printed(print("ST"@)) == JobState::Stopped,
        printed(print("RUNNING"@)) == JobState::Running,
        printed(print("R"@)) == JobState::Running,
        printed(print("RUN"@)) == JobState::Running,
        printed(print("COMPLETING"@)) == JobState::Completing,
        printed(print("CG"@)) == JobState::Completing,
        printed(print("RESIZING"@)) == JobState::Resizing,
        printed(print("RS"@)) == JobState::Resizing,
        printed(print("SIGNALING"@)) == JobState::Signaling,
        printed(print("SI"@)) == JobState::Signaling,
        printed(print("STAGE_OUT"@)) == JobState::StageOut,
        printed(print("SO"@)) == JobState::StageOut,
        printed(print("COMPLETED"@)) == JobState::Completed,
        printed(print("CD"@)) == JobState::Completed,
        printed(print("CMP"@)) == JobState::Completed,
        printed(print("FINI"@)) == JobState::Completed,
        printed(print("BOOT_FAIL"@)) == JobState::BootFail,
        printed(print("BF"@)) == JobState::BootFail,
        printed(print("CANCELLED"@)) == JobState::Cancelled,
        printed(print("CA"@)) == JobState::Cancelled,
        printed(print("DEADLINE"@)) == JobState::Deadline,
        printed(print("DL"@)) == JobState::Deadline,
        printed(print("FAILED"@)) == JobState::Failed,
        printed(print("F"@)) == JobState::Failed,
        printed(print("FAIL"@)) == JobState::Failed,
        printed(print("NODE_FAIL"@)) == JobState::NodeFail,
        printed(print("NF"@)) == JobState::NodeFail,
        printed(print("OUT_OF_MEMORY"@)) == JobState::OutOfMemory,
        printed(print("OOM"@)) == JobState::OutOfMemory,
        printed(print("PREEMPTED"@)) == JobState::Preempted,
        printed(print("PR"@)) == JobState::Preempted,
        printed(print("REVOKED"@)) == JobState::Revoked,
        printed(print("RV"@)) == JobState::Revoked,
        printed(print("SPECIAL_EXIT"@)) == JobState::SpecialExit,
        printed(print("SE"@)) == JobState::SpecialExit,
        printed(print("TIMEOUT"@)) == JobState::Timeout,
        printed(print("TO"@)) == JobState::Timeout,
        printed(print("UNKNOWN"@)) == JobState::Unknown,
{
    reveal(print);
    reveal(printed);
    reveal_strlit("PENDING");
    assert("PENDING"@.len() == 7 && "PENDING"@[0] == 'P' && "PENDING"@[4] == 'I');
    reveal_strlit("PD");
    assert("PD"@.len() == 2 && "PD"@[0] == 'P' && "PD"@[1] == 'D');
    reveal_strlit("QUE");
    assert("QUE"@.len() == 3 && "QUE"@[0] == 'Q' && "QUE"@[2] == 'E');
    reveal_strlit("CONFIGURING");
    assert("CONFIGURING"@.len() == 11 && "CONFIGURING"@[0] == 'C' && "CONFIGURING"@[7] == 'R');
    reveal_strlit("CF");
    assert("CF"@.len() == 2 && "CF"@[0] == 'C' && "CF"@[1] == 'F');
    reveal_strlit("REQUEUED");
    assert("REQUEUED"@.len() == 8 && "REQUEUED"@[0] == 'R' && "REQUEUED"@[5] == 'U');
    reveal_strlit("RQ");
    assert("RQ"@.len() == 2 && "RQ"@[0] == 'R' && "RQ"@[1] == 'Q');
    reveal_strlit("REQUEUE_FED");
    assert("REQUEUE_FED"@.len() == 11 && "REQUEUE_FED"@[0] == 'R' && "REQUEUE_FED"@[7] == '_');
    reveal_strlit("RF");
    assert("RF"@.len() == 2 && "RF"@[0] == 'R' && "RF"@[1] == 'F');
    reveal_strlit("REQUEUE_HOLD");
    assert("REQUEUE_HOLD"@.len() == 12 && "REQUEUE_HOLD"@[0] == 'R' && "REQUEUE_HOLD"@[8] == 'H');
    reveal_strlit("RH");
    assert("RH"@.len() == 2 && "RH"@[0] == 'R' && "RH"@[1] == 'H');
    reveal_strlit("RESV_DEL_HOLD");
    assert("RESV_DEL_HOLD"@.len() == 13 && "RESV_DEL_HOLD"@[0] == 'R' && "RESV_DEL_HOLD"@[8] == '_');
    reveal_strlit("RD");
    assert("RD"@.len() == 2 && "RD"@[0] == 'R' && "RD"@[1] == 'D');
    reveal_strlit("SUSPENDED");
    assert("SUSPENDED"@.len() == 9 && "SUSPENDED"@[0] == 'S' && "SUSPENDED"@[6] == 'D');
    reveal_strlit("S");
    assert("S"@.len() == 1 && "S"@[0] == 'S' && "S"@[0] == 'S');
    reveal_strlit("STOPPED");
    assert("STOPPED"@.len() == 7 && "STOPPED"@[0] == 'S' && "STOPPED"@[4] == 'P');
    reveal_strlit("ST");
    assert("ST"@.len() == 2 && "ST"@[0] == 'S' && "ST"@[1] == 'T');
    reveal_strlit("RUNNING");
    assert("RUNNING"@.len() == 7 && "RUNNING"@[0] == 'R' && "RUNNING"@[4] == 'I');
    reveal_strlit("R");
    assert("R"@.len() == 1 && "R"@[0] == 'R' && "R"@[0] == 'R');
    reveal_strlit("RUN");
    assert("RUN"@.len() == 3 && "RUN"@[0] == 'R' && "RUN"@[2] == 'N');
    reveal_strlit("COMPLETING");
    assert("COMPLETING"@.len() == 10 && "COMPLETING"@[0] == 'C' && "COMPLETING"@[6] == 'T');
    reveal_strlit("CG");
    assert("CG"@.len() == 2 && "CG"@[0] == 'C' && "CG"@[1] == 'G');
    reveal_strlit("RESIZING");
    assert("RESIZING"@.len() == 8 && "RESIZING"@[0] == 'R' && "RESIZING"@[5] == 'I');
    reveal_strlit("RS");
    assert("RS"@.len() == 2 && "RS"@[0] == 'R' && "RS"@[1] == 'S');
    reveal_strlit("SIGNALING");
    assert("SIGNALING"@.len() == 9 && "SIGNALING"@[0] == 'S' && "SIGNALING"@[6] == 'I');
    reveal_strlit("SI");
    assert("SI"@.len() == 2 && "SI"@[0] == 'S' && "SI"@[1] == 'I');
    reveal_strlit("STAGE_OUT");
    assert("STAGE_OUT"@.len() == 9 && "STAGE_OUT"@[0] == 'S' && "STAGE_OUT"@[6] == 'O');
    reveal_strlit("SO");
    assert("SO"@.len() == 2 && "SO"@[0] == 'S' && "SO"@[1] == 'O');
    reveal_strlit("COMPLETED");
    assert("COMPLETED"@.len() == 9 && "COMPLETED"@[0] == 'C' && "COMPLETED"@[6] == 'T');
    reveal_strlit("CD");
    assert("CD"@.len() == 2 && "CD"@[0] == 'C' && "CD"@[1] == 'D');
    reveal_strlit("CMP");
    assert("CMP"@.len() == 3 && "CMP"@[0] == 'C' && "CMP"@[2] == 'P');
    reveal_strlit("FINI");
    assert("FINI"@.len() == 4 && "FINI"@[0] == 'F' && "FINI"@[2] == 'N');
    reveal_strlit("BOOT_FAIL");
    assert("BOOT_FAIL"@.len() == 9 && "BOOT_FAIL"@[0] == 'B' && "BOOT_FAIL"@[6] == 'A');
    reveal_strlit("BF");
    assert("BF"@.len() == 2 && "BF"@[0] == 'B' && "BF"@[1] == 'F');
    reveal_strlit("CANCELLED");
    assert("CANCELLED"@.len() == 9 && "CANCELLED"@[0] == 'C' && "CANCELLED"@[6] == 'L');
    reveal_strlit("CA");
    assert("CA"@.len() == 2 && "CA"@[0] == 'C' && "CA"@[1] == 'A');
    reveal_strlit("DEADLINE");
    assert("DEADLINE"@.len() == 8 && "DEADLINE"@[0] == 'D' && "DEADLINE"@[5] == 'I');
    reveal_strlit("DL");
    assert("DL"@.len() == 2 && "DL"@[0] == 'D' && "DL"@[1] == 'L');
    reveal_strlit("FAILED");
    assert("FAILED"@.len() == 6 && "FAILED"@[0] == 'F' && "FAILED"@[4] == 'E');
    reveal_strlit("F");
    assert("F"@.len() == 1 && "F"@[0] == 'F' && "F"@[0] == 'F');
    reveal_strlit("FAIL");
    assert("FAIL"@.len() == 4 && "FAIL"@[0] == 'F' && "FAIL"@[2] == 'I');
    reveal_strlit("NODE_FAIL");
    assert("NODE_FAIL"@.len() == 9 && "NODE_FAIL"@[0] == 'N' && "NODE_FAIL"@[6] == 'A');
    reveal_strlit("NF");
    assert("NF"@.len() == 2 && "NF"@[0] == 'N' && "NF"@[1] == 'F');
    reveal_strlit("OUT_OF_MEMORY");
    assert("OUT_OF_MEMORY"@.len() == 13 && "OUT_OF_MEMORY"@[0] == 'O' && "OUT_OF_MEMORY"@[8] == 'E');
    reveal_strlit("OOM");
    assert("OOM"@.len() == 3 && "OOM"@[0] == 'O' && "OOM"@[2] == 'M');
    reveal_strlit("PREEMPTED");
    assert("PREEMPTED"@.len() == 9 && "PREEMPTED"@[0] == 'P' && "PREEMPTED"@[6] == 'T');
    reveal_strlit("PR");
    assert("PR"@.len() == 2 && "PR"@[0] == 'P' && "PR"@[1] == 'R');
    reveal_strlit("REVOKED");
    assert("REVOKED"@.len() == 7 && "REVOKED"@[0] == 'R' && "REVOKED"@[4] == 'K');
    reveal_strlit("RV");
    assert("RV"@.len() == 2 && "RV"@[0] == 'R' && "RV"@[1] == 'V');
    reveal_strlit("SPECIAL_EXIT");
    assert("SPECIAL_EXIT"@.len() == 12 && "SPECIAL_EXIT"@[0] == 'S' && "SPECIAL_EXIT"@[8] == 'E');
    reveal_strlit("SE");
    assert("SE"@.len() == 2 && "SE"@[0] == 'S' && "SE"@[1] == 'E');
    reveal_strlit("TIMEOUT");
    assert("TIMEOUT"@.len() == 7 && "TIMEOUT"@[0] == 'T' && "TIMEOUT"@[4] == 'O');
    reveal_strlit("TO");
    assert("TO"@.len() == 2 && "TO"@[0] == 'T' && "TO"@[1] == 'O');
    reveal_strlit("UNKNOWN");
    assert("UNKNOWN"@.len() == 7 && "UNKNOWN"@[0] == 'U' && "UNKNOWN"@[4] == 'O');
}

/// The long form of a state is one word in upper case.
pub proof fn lemma_token_word(s: JobState)
    ensures
        model::words(s.token()) == seq![s.token()],
        model::to_upper(s.token()) == s.token(),
        s.token().len() > 0,
        forall|i: int| 0 <= i < s.token().len() ==> !model::is_white(#[trigger] s.token()[i]),
        !s.token().contains('|'),
        !model::is_digit(s.token()[0]) && s.token()[0] != '+',
{
    match s {
        JobState::Pending => reveal_strlit("PENDING"),
        JobState::Configuring => reveal_strlit("CONFIGURING"),
        JobState::Requeued => reveal_strlit("REQUEUED"),
        JobState::RequeueFed => reveal_strlit("REQUEUE_FED"),
        JobState::RequeueHold => reveal_strlit("REQUEUE_HOLD"),
        JobState::ResvDelHold => reveal_strlit("RESV_DEL_HOLD"),
        JobState::Suspended => reveal_strlit("SUSPENDED"),
        JobState::Stopped => reveal_strlit("STOPPED"),
        JobState::Running => reveal_strlit("RUNNING"),
        JobState::Completing => reveal_strlit("COMPLETING"),
        JobState::Resizing => reveal_strlit("RESIZING"),
        JobState::Signaling => reveal_strlit("SIGNALING"),
        JobState::StageOut => reveal_strlit("STAGE_OUT"),
        JobState::Completed => reveal_strlit("COMPLETED"),
        JobState::BootFail => reveal_strlit("BOOT_FAIL"),
        JobState::Cancelled => reveal_strlit("CANCELLED"),
        JobState::Deadline => reveal_strlit("DEADLINE"),
        JobState::Failed => reveal_strlit("FAILED"),
        JobState::NodeFail => reveal_strlit("NODE_FAIL"),
        JobState::OutOfMemory => reveal_strlit("OUT_OF_MEMORY"),
        JobState::Preempted => reveal_strlit("PREEMPTED"),
        JobState::Revoked => reveal_strlit("REVOKED"),
        JobState::SpecialExit => reveal_strlit("SPECIAL_EXIT"),
        JobState::Timeout => reveal_strlit("TIMEOUT"),
        JobState::Unknown => reveal_strlit("UNKNOWN"),
    }
    let t = s.token();
    assert forall|i: int| 0 <= i < t.len() implies !model::is_white(#[trigger] t[i]) && model::upper(
        t[i],
    ) == t[i] && t[i] != '|' by {}
    lemmas::lemma_one_word(t);
    assert(model::to_upper(t) == t);
}

/// A word that is a name of a state leads to the state that its number leads to.
#[verifier::spinoff_prover]
proof fn lemma_named(t: Seq<char>)
    ensures
        JobState::named(t) != JobState::Unknown ==> JobState::named(t) == printed(print(t)),
{
    lemma_prints();
}

/// The long form of a state is one of its names.
#[verifier::spinoff_prover]
proof fn lemma_token_named(s: JobState)
    requires
        s != JobState::Unknown,
    ensures
        JobState::named(s.token()) != JobState::Unknown,
        printed(print(s.token())) == s,
{
    lemma_prints();
}

/// `UNKNOWN` is no name.
#[verifier::spinoff_prover]
proof fn lemma_unknown_unnamed()
    ensures
        JobState::named("UNKNOWN"@) == JobState::Unknown,
{
    lemma_prints();
    lemma_named("UNKNOWN"@);
}

/// The long form of a state reads back as it.
pub proof fn law_job_state_round_trip(s: JobState)
    ensures
        JobState::parsed(s.token()) == s,
{
    lemma_token_word(s);
    if s == JobState::Unknown {
        lemma_unknown_unnamed();
    } else {
        lemma_token_named(s);
        lemma_named(s.token());
    }
}

/// Upper and lower case make no difference.
pub proof fn law_job_state_ignores_case(a: Seq<char>, b: Seq<char>)
    requires
        model::to_upper(a) == model::to_upper(b),
    ensures
        JobState::parsed(a) == JobState::parsed(b),
{
    lemmas::lemma_words_upper(a);
    lemmas::lemma_words_upper(b);
    let u = model::words(model::to_upper(a));
    if u.len() > 0 {
        assert(u[0] == model::to_upper(model::words(a)[0]));
        assert(u[0] == model::to_upper(model::words(b)[0]));
    }
}

/// What follows the first word makes no difference.
pub proof fn law_job_state_ignores_context(word: Seq<char>, rest: Seq<char>)
    requires
        word.len() > 0,
        forall|i: int| 0 <= i < word.len() ==> !model::is_white(#[trigger] word[i]),
        rest.len() > 0 ==> model::is_white(rest[0]),
    ensures
        JobState::parsed(word + rest) == JobState::parsed(word),
{
    lemmas::lemma_first_word(word, rest);
    lemmas::lemma_one_word(word);
}

/// No state is both alive and ended, and an unknown state is neither.
pub proof fn law_job_state_groups(s: JobState)
    ensures
        !(s.running() && s.terminal()),
        s == JobState::Unknown ==> !s.running() && !s.terminal(),
{
}

/// A job has ended in exactly these states.
pub proof fn law_terminal_states(s: JobState, r: bool)
    requires
        call_ensures(JobState::is_terminal, (&s,), r),
    ensures
        r <==> {
            ||| s == JobState::Completed
            ||| s == JobState::BootFail
            ||| s == JobState::Cancelled
            ||| s == JobState::Deadline
            ||| s == JobState::Failed
            ||| s == JobState::NodeFail
            ||| s == JobState::OutOfMemory
            ||| s == JobState::Preempted
            ||| s == JobState::Revoked
            ||| s == JobState::SpecialExit
            ||| s == JobState::Timeout
        },
        s.terminal() == r,
{
}

/// A job is alive and progressing in exactly these states.
pub proof fn law_running_states(s: JobState, r: bool)
    requires
        call_ensures(JobState::is_running, (&s,), r),
    ensures
        r <==> {
            ||| s == JobState::Running
            ||| s == JobState::Completing
            ||| s == JobState::Resizing
            ||| s == JobState::Signaling
            ||| s == JobState::StageOut
        },
        s.running() == r,
{
}

/// Every known state is exactly one of queued, alive and ended, and the queued ones are
/// these.
pub proof fn law_states_are_queued_running_or_ended(s: JobState, running: bool, terminal: bool)
    requires
        call_ensures(JobState::is_running, (&s,), running),
        call_ensures(JobState::is_terminal, (&s,), terminal),
    ensures
        !(running && terminal),
        !running && !terminal <==> {
            ||| s == JobState::Pending
            ||| s == JobState::Configuring
            ||| s == JobState::Requeued
            ||| s == JobState::RequeueFed
            ||| s == JobState::RequeueHold
            ||| s == JobState::ResvDelHold
            ||| s == JobState::Suspended
            ||| s == JobState::Stopped
            ||| s == JobState::Unknown
        },
{
}

/// The compact code of a state; an unknown one has none.
pub open spec fn compact_code(s: JobState) -> Seq<char> {
    match s {
        JobState::Pending => "PD"@,
        JobState::Configuring => "CF"@,
        JobState::Requeued => "RQ"@,
        JobState::RequeueFed => "RF"@,
        JobState::RequeueHold => "RH"@,
        JobState::ResvDelHold => "RD"@,
        JobState::Suspended => "S"@,
        JobState::Stopped => "ST"@,
        JobState::Running => "R"@,
        JobState::Completing => "CG"@,
        JobState::Resizing => "RS"@,
        JobState::Signaling => "SI"@,
        JobState::StageOut => "SO"@,
        JobState::Completed => "CD"@,
        JobState::BootFail => "BF"@,
        JobState::Cancelled => "CA"@,
        JobState::Deadline => "DL"@,
        JobState::Failed => "F"@,
        JobState::NodeFail => "NF"@,
        JobState::OutOfMemory => "OOM"@,
        JobState::Preempted => "PR"@,
        JobState::Revoked => "RV"@,
        JobState::SpecialExit => "SE"@,
        JobState::Timeout => "TO"@,
        JobState::Unknown => ""@,
    }
}

/// The words that `qgroup` has for the state.
pub open spec fn is_qgroup_word(s: JobState, w: Seq<char>) -> bool {
    match s {
        JobState::Pending => w == "QUE"@,
        JobState::Running => w == "RUN"@,
        JobState::Completed => w == "CMP"@ || w == "FINI"@,
        JobState::Failed => w == "FAIL"@,
        _ => false,
    }
}

/// A text is read as a known state exactly where its first word is, in any case, the long
/// form of the state, its compact code or a word that `qgroup` has for it.
pub proof fn law_job_state_words(raw: &str, r: JobState, s: JobState)
    requires
        call_ensures(JobState::parse, (raw,), r),
        s != JobState::Unknown,
    ensures
        r == s <==> model::words(raw@).len() > 0 && {
            let w = model::to_upper(model::words(raw@)[0]);
            w == s.token() || w == compact_code(s) || is_qgroup_word(s, w)
        },
{
    let words = model::words(raw@);
    if words.len() > 0 {
        let w = model::to_upper(words[0]);
        lemma_names_are_read(s, w);
        if r == s {
            lemma_read_names(s, w);
        }
    }
}

/// What is read as the state is one of its names.
#[verifier::spinoff_prover]
proof fn lemma_read_names(s: JobState, w: Seq<char>)
    requires
        s != JobState::Unknown,
        JobState::named(w) == s,
    ensures
        w == s.token() || w == compact_code(s) || is_qgroup_word(s, w),
{
}

/// The names of a state are read as it.
#[verifier::spinoff_prover]
proof fn lemma_names_are_read(s: JobState, w: Seq<char>)
    requires
        s != JobState::Unknown,
    ensures
        w == s.token() || w == compact_code(s) || is_qgroup_word(s, w) ==> JobState::named(w) == s,
{
    lemma_prints();
    lemma_named(w);
}

/// The long form of every state, as SLURM writes it.
pub proof fn law_job_state_tokens(s: JobState, r: &'static str)
    requires
        call_ensures(JobState::as_token, (&s,), r),
    ensures
        r@ == match s {
            JobState::Pending => "PENDING"@,
            JobState::Configuring => "CONFIGURING"@,
            JobState::Requeued => "REQUEUED"@,
            JobState::RequeueFed => "REQUEUE_FED"@,
            JobState::RequeueHold => "REQUEUE_HOLD"@,
            JobState::ResvDelHold => "RESV_DEL_HOLD"@,
            JobState::Suspended => "SUSPENDED"@,
            JobState::Stopped => "STOPPED"@,
            JobState::Running => "RUNNING"@,
            JobState::Completing => "COMPLETING"@,
            JobState::Resizing => "RESIZING"@,
            JobState::Signaling => "SIGNALING"@,
            JobState::StageOut => "STAGE_OUT"@,
            JobState::Completed => "COMPLETED"@,
            JobState::BootFail => "BOOT_FAIL"@,
            JobState::Cancelled => "CANCELLED"@,
            JobState::Deadline => "DEADLINE"@,
            JobState::Failed => "FAILED"@,
            JobState::NodeFail => "NODE_FAIL"@,
            JobState::OutOfMemory => "OUT_OF_MEMORY"@,
            JobState::Preempted => "PREEMPTED"@,
            JobState::Revoked => "REVOKED"@,
            JobState::SpecialExit => "SPECIAL_EXIT"@,
            JobState::Timeout => "TIMEOUT"@,
            JobState::Unknown => "UNKNOWN"@,
        },
{
}

/// A status is read from its state and its reason, each on its own.
pub proof fn law_status_parts_are_read(
    state: &str,
    reason: &str,
    r: JobStatus,
    s: JobState,
    q: JobReason,
)
    requires
        call_ensures(JobStatus::parse, (state, reason), r),
        call_ensures(JobState::parse, (state,), s),
        call_ensures(JobReason::parse, (reason,), q),
    ensures
        r.state == s,
        r.reason@ == q@,
{
}

/// A status is shown as the long form of its state and, in brackets, its reason.
pub proof fn law_status_is_shown(s: JobStatus, r: String, state: &'static str, reason: &str)
    requires
        call_ensures(JobStatus::to_string, (&s,), r),
        call_ensures(JobState::as_token, (&s.state,), state),
        call_ensures(JobReason::as_str, (&s.reason,), reason),
    ensures
        r@ == state@ + seq![' ', '('] + reason@ + seq![')'],
{
    reveal_strlit(" (");
    assert(" ("@ =~= seq![' ', '(']);
}

/// A status made of its parts holds them; one without a reason has none, and one of which
/// nothing is known is unknown.
pub proof fn law_statuses_are_made(
    state: JobState,
    reason: JobReason,
    bare: JobStatus,
    full: JobStatus,
    unknown: JobStatus,
    copy: JobStatus,
)
    requires
        call_ensures(JobStatus::new, (state,), bare),
        call_ensures(JobStatus::with_reason, (state, reason), full),
        call_ensures(<JobStatus as Default>::default, (), unknown),
        call_ensures(<JobStatus as Clone>::clone, (&full,), copy),
    ensures
        bare.state == state && bare.reason == JobReason::NoReason,
        full.state == state && full.reason == reason,
        unknown.state == JobState::Unknown && unknown.reason == JobReason::NoReason,
        copy == full,
{
}

} // verus!
