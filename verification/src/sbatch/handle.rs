//! A submitted job: what is known of it, and how that changes with each listing.
use crate::dispatcher::CaptureOutput;
use crate::entities::reason::JobReason;
use crate::entities::status::{JobState, JobStatus, StatusView};
use crate::ident::Timestamp;
use crate::runner::listing;
use crate::runner::listing::{JobOutcome, OutcomeView};
use crate::runner::query;
use crate::runner::query::{BatchView, OutcomeQuery, OutcomeStep, OutcomeStepView};
use crate::sbatch::cmd;
use crate::sbatch::env;
use crate::sbatch::env::EnvMap;
use crate::sbatch::parse;
use crate::sbatch::parse::resolve_log_path;
use crate::text;
use crate::text::model;
use std::collections::HashMap;
use vstd::prelude::*;

verus! {

/// Where the logs of a job go, as templates.
#[derive(Debug, PartialEq, Eq)]
pub struct LogPathSpec {
    pub output_template: Option<String>,
    pub error_template: Option<String>,
}

impl Clone for LogPathSpec {
    fn clone(&self) -> (r: LogPathSpec)
        ensures
            r@ == self@,
    {
        LogPathSpec {
            output_template: cmd::copy_opt(&self.output_template),
            error_template: cmd::copy_opt(&self.error_template),
        }
    }
}

/// What a `LogPathSpec` holds.
pub struct LogView {
    pub output_template: Option<Seq<char>>,
    pub error_template: Option<Seq<char>>,
}

impl View for LogPathSpec {
    type V = LogView;

    open spec fn view(&self) -> LogView {
        LogView {
            output_template: cmd::opt_string(self.output_template),
            error_template: cmd::opt_string(self.error_template),
        }
    }
}

impl Default for LogPathSpec {
    fn default() -> (r: LogPathSpec)
        ensures
            r == (LogPathSpec { output_template: None, error_template: None }),
    {
        LogPathSpec { output_template: None, error_template: None }
    }
}

/// How a job ended.
#[derive(Debug, PartialEq, Eq)]
pub struct FinishedInfo {
    pub final_state: JobState,
    pub final_reason: JobReason,
    pub exit_code: Option<i32>,
    pub finished_at: Timestamp,
}

impl Clone for FinishedInfo {
    fn clone(&self) -> (r: FinishedInfo)
        ensures
            r == *self,
    {
        FinishedInfo {
            final_state: self.final_state,
            final_reason: self.final_reason.clone(),
            exit_code: self.exit_code,
            finished_at: self.finished_at,
        }
    }
}

/// What was observed of a job since its submission.
#[derive(Debug, PartialEq, Eq)]
pub struct SbatchLifecycle {
    pub last_observed_state: Option<JobStatus>,
    pub last_observed_at: Option<Timestamp>,
    pub left_active_listing: bool,
    pub finished: Option<FinishedInfo>,
}

impl Default for SbatchLifecycle {
    fn default() -> (r: SbatchLifecycle)
        ensures
            r == (SbatchLifecycle {
                last_observed_state: None,
                last_observed_at: None,
                left_active_listing: false,
                finished: None,
            }),
    {
        SbatchLifecycle {
            last_observed_state: None,
            last_observed_at: None,
            left_active_listing: false,
            finished: None,
        }
    }
}

impl Clone for SbatchLifecycle {
    fn clone(&self) -> (r: SbatchLifecycle)
        ensures
            r == *self,
    {
        SbatchLifecycle {
            last_observed_state: match &self.last_observed_state {
                Some(s) => Some(s.clone()),
                None => None,
            },
            last_observed_at: self.last_observed_at,
            left_active_listing: self.left_active_listing,
            finished: match &self.finished {
                Some(f) => Some(f.clone()),
                None => None,
            },
        }
    }
}

impl SbatchLifecycle {
    /// The last observed state is that of a job that is alive, and the job has not left
    /// the listings since.
    pub open spec fn running(self) -> bool {
        !self.left_active_listing && self.last_observed_state is Some
            && self.last_observed_state->0.state.running()
    }

    /// The last observed state is one of an ended job.
    pub open spec fn observed_terminal(self) -> bool {
        self.last_observed_state is Some && self.last_observed_state->0.state.terminal()
    }

    /// It is not recorded how the job ended, but there is nothing left to poll for.
    pub open spec fn wants_sacct(self) -> bool {
        self.finished is None && (self.observed_terminal() || self.left_active_listing)
    }

    /// The exit code, where the job has finished with one.
    pub open spec fn code(self) -> Option<i32> {
        match self.finished {
            Some(f) => f.exit_code,
            None => None,
        }
    }

    /// Whether the job was last observed alive.
    pub fn is_running(&self) -> (r: bool)
        ensures
            r == self.running(),
    {
        if self.left_active_listing {
            return false;
        }
        match &self.last_observed_state {
            Some(s) => s.state.is_running(),
            None => false,
        }
    }

    /// Whether it is recorded how the job ended.
    pub fn is_finished(&self) -> (r: bool)
        ensures
            r == (self.finished is Some),
    {
        self.finished.is_some()
    }

    /// The exit code, where one is recorded.
    pub fn exit_code(&self) -> (r: Option<i32>)
        ensures
            r == self.code(),
    {
        match &self.finished {
            Some(f) => f.exit_code,
            None => None,
        }
    }

    /// Whether there is nothing left to poll for: the job was observed to have ended, or
    /// it has left the listings.
    pub fn is_settled(&self) -> (r: bool)
        ensures
            r == (self.observed_terminal() || self.left_active_listing),
    {
        if self.left_active_listing {
            return true;
        }
        match &self.last_observed_state {
            Some(s) => s.state.is_terminal(),
            None => false,
        }
    }
}

/// A submitted job.
#[derive(Debug, PartialEq, Eq)]
pub struct SbatchJobSnapshot {
    pub uuid: u128,
    /// The job id; of an array task that of the array.
    pub jobid: u64,
    /// The index within the array; none for a job of its own.
    pub array_task_id: Option<u32>,
    pub argv: Vec<String>,
    pub sent_env: EnvMap,
    pub script_path: String,
    pub chdir: Option<String>,
    pub partition: Option<String>,
    pub job_name: Option<String>,
    pub submitted_at: Timestamp,
    pub log: LogPathSpec,
    pub lifecycle: SbatchLifecycle,
}

/// What an `SbatchJobSnapshot` holds.
pub struct SnapshotView {
    pub uuid: u128,
    pub jobid: u64,
    pub array_task_id: Option<u32>,
    pub argv: Seq<Seq<char>>,
    pub sent_env: Seq<env::Entry>,
    pub script_path: Seq<char>,
    pub chdir: Option<Seq<char>>,
    pub partition: Option<Seq<char>>,
    pub job_name: Option<Seq<char>>,
    pub submitted_at: Timestamp,
    pub log: LogView,
    pub lifecycle: SbatchLifecycle,
}

impl View for SbatchJobSnapshot {
    type V = SnapshotView;

    open spec fn view(&self) -> SnapshotView {
        SnapshotView {
            uuid: self.uuid,
            jobid: self.jobid,
            array_task_id: self.array_task_id,
            argv: model::texts(self.argv@),
            sent_env: self.sent_env@,
            script_path: self.script_path@,
            chdir: cmd::opt_string(self.chdir),
            partition: cmd::opt_string(self.partition),
            job_name: cmd::opt_string(self.job_name),
            submitted_at: self.submitted_at,
            log: self.log@,
            lifecycle: self.lifecycle,
        }
    }
}

impl Clone for SbatchJobSnapshot {
    fn clone(&self) -> (r: SbatchJobSnapshot)
        ensures
            r@ == self@,
    {
        SbatchJobSnapshot {
            uuid: self.uuid,
            jobid: self.jobid,
            array_task_id: self.array_task_id,
            argv: text::copy_strings(self.argv.as_slice()),
            sent_env: self.sent_env.clone(),
            script_path: self.script_path.clone(),
            chdir: cmd::copy_opt(&self.chdir),
            partition: cmd::copy_opt(&self.partition),
            job_name: cmd::copy_opt(&self.job_name),
            submitted_at: self.submitted_at,
            log: self.log.clone(),
            lifecycle: self.lifecycle.clone(),
        }
    }
}

/// One of the two logs of a job.
#[derive(Debug, Clone, Copy, PartialEq, Eq, Structural)]
pub enum LogStream {
    Stdout,
    Stderr,
}

/// Why a log could not be read.
#[derive(Debug, Clone, PartialEq, Eq)]
pub enum LogReadError {
    /// The job was submitted without a template for that log.
    PathNotResolved,
    /// Reading failed, with the message of the system.
    Io(String),
}

impl LogReadError {
    /// The message for the error.
    pub open spec fn message(self) -> Seq<char> {
        match self {
            LogReadError::PathNotResolved =>
                "log path not resolved on snapshot (template missing)"@,
            LogReadError::Io(e) => "io error reading log: "@ + e@,
        }
    }

    /// The message for the error.
    pub fn to_string(&self) -> (r: String)
        ensures
            r@ == self.message(),
    {
        match self {
            LogReadError::PathNotResolved =>
                "log path not resolved on snapshot (template missing)".to_owned(),
            LogReadError::Io(e) => {
                let mut out = "io error reading log: ".to_owned();
                out.append(e.as_str());
                out
            },
        }
    }
}

impl SbatchJobSnapshot {
    /// The path that a template stands for.
    pub open spec fn resolved(
        self,
        template: Option<String>,
        user: Seq<char>,
        hostname: Seq<char>,
    ) -> Option<Seq<char>> {
        match template {
            Some(t) => Some(
                parse::resolved(
                    t@,
                    self.jobid,
                    self.array_task_id,
                    cmd::opt_string(self.job_name),
                    user,
                    hostname,
                ),
            ),
            None => None,
        }
    }

    /// Fills in a template.
    fn resolve(&self, template: &Option<String>, user: &str, hostname: &str) -> (r: Option<String>)
        ensures
            cmd::opt_string(r) == self.resolved(*template, user@, hostname@),
    {
        match template {
            Some(t) => {
                let name: Option<&str> = match &self.job_name {
                    Some(n) => Some(n.as_str()),
                    None => None,
                };
                Some(
                    resolve_log_path(
                        t.as_str(),
                        self.jobid,
                        self.array_task_id,
                        name,
                        user,
                        hostname,
                    ),
                )
            },
            None => None,
        }
    }

    /// The path of the log of stdout.
    pub fn output_path(&self, user: &str, hostname: &str) -> (r: Option<String>)
        ensures
            cmd::opt_string(r) == self.resolved(self.log.output_template, user@, hostname@),
    {
        self.resolve(&self.log.output_template, user, hostname)
    }

    /// The path of the log of stderr.
    pub fn error_path(&self, user: &str, hostname: &str) -> (r: Option<String>)
        ensures
            cmd::opt_string(r) == self.resolved(self.log.error_template, user@, hostname@),
    {
        self.resolve(&self.log.error_template, user, hostname)
    }

    /// The path of a log; an error exactly where there is no template for it.
    pub fn log_path(&self, stream: LogStream, user: &str, hostname: &str) -> (r: Result<
        String,
        LogReadError,
    >)
        ensures
            ({
                let template = match stream {
                    LogStream::Stdout => self.log.output_template,
                    LogStream::Stderr => self.log.error_template,
                };
                match r {
                    Ok(p) => self.resolved(template, user@, hostname@) == Some(p@),
                    Err(e) => template is None && e == LogReadError::PathNotResolved,
                }
            }),
    {
        let path = match stream {
            LogStream::Stdout => self.output_path(user, hostname),
            LogStream::Stderr => self.error_path(user, hostname),
        };
        match path {
            Some(p) => Ok(p),
            None => Err(LogReadError::PathNotResolved),
        }
    }

    /// Whether the job was last observed alive.
    pub fn is_running(&self) -> (r: bool)
        ensures
            r == self.lifecycle.running(),
    {
        self.lifecycle.is_running()
    }

    /// Whether it is recorded how the job ended.
    pub fn is_finished(&self) -> (r: bool)
        ensures
            r == (self.lifecycle.finished is Some),
    {
        self.lifecycle.is_finished()
    }

    /// The exit code, where one is recorded.
    pub fn exit_code(&self) -> (r: Option<i32>)
        ensures
            r == self.lifecycle.code(),
    {
        self.lifecycle.exit_code()
    }
}

/// Which listing a refresh waits for.
#[derive(Debug, Clone, Copy, PartialEq, Eq, Structural)]
pub enum RefreshStage {
    /// `squeue` for the one array task.
    Task,
    /// `qgroup`.
    Qgroup,
    /// `squeue`, after `qgroup` did not list the job.
    Squeue,
}

/// What a refresh wants next.
pub enum RefreshStep {
    /// Run `argv` and go on with what it left behind.
    Capture { stage: RefreshStage, argv: Vec<String> },
    /// The snapshot is up to date: save and publish it.
    Save,
    /// A command exited with an error; the snapshot is as it was.
    Failed(QueryFailure),
}

/// Why a refresh failed.
pub enum QueryFailure {
    /// The command could not be run.
    NotRun,
    /// The command exited with an error.
    Exited(query::QueryError),
}

/// What a `RefreshStep` holds.
pub enum RefreshStepView {
    Capture { stage: RefreshStage, argv: Seq<Seq<char>> },
    Save,
    NotRun,
    Exited(query::QueryFault),
}

impl View for RefreshStep {
    type V = RefreshStepView;

    open spec fn view(&self) -> RefreshStepView {
        match *self {
            RefreshStep::Capture { stage, argv } => RefreshStepView::Capture {
                stage,
                argv: model::texts(argv@),
            },
            RefreshStep::Save => RefreshStepView::Save,
            RefreshStep::Failed(QueryFailure::NotRun) => RefreshStepView::NotRun,
            RefreshStep::Failed(QueryFailure::Exited(e)) => RefreshStepView::Exited(e@),
        }
    }
}

/// How to ask how a job ended.
pub enum OutcomeAsk {
    /// Run `argv` and read the row of the array task with that index.
    Task { argv: Vec<String>, index: u32 },
    /// Go through the steps of a query for the job alone.
    Job(OutcomeStep),
}

/// What an `OutcomeAsk` holds.
pub enum OutcomeAskView {
    Task { argv: Seq<Seq<char>>, index: u32 },
    Job(OutcomeStepView),
}

impl View for OutcomeAsk {
    type V = OutcomeAskView;

    open spec fn view(&self) -> OutcomeAskView {
        match *self {
            OutcomeAsk::Task { argv, index } => OutcomeAskView::Task {
                argv: model::texts(argv@),
                index,
            },
            OutcomeAsk::Job(step) => OutcomeAskView::Job(step@),
        }
    }
}

/// What a listing says of the job.
pub enum Sighting {
    /// The job is listed with this status.
    Seen(StatusView),
    /// The job is not listed.
    Gone,
    /// Ask `squeue` as well.
    AskSqueue,
    /// The command could not be run.
    NotRun,
    /// The command exited with an error.
    Exited(query::QueryFault),
}

/// What the map says of the job.
pub open spec fn lookup(m: Map<u64, StatusView>, jobid: u64, otherwise: Sighting) -> Sighting {
    if m.dom().contains(jobid) {
        Sighting::Seen(m[jobid])
    } else {
        otherwise
    }
}

impl SbatchJobSnapshot {
    /// The key of the array task.
    pub open spec fn key(self) -> Seq<char> {
        query::task_key_text(self.jobid, self.array_task_id->0)
    }

    /// What the listing of a stage says of the job. A `qgroup` that fails is as one that
    /// does not list it: many clusters have none.
    pub open spec fn sighting(self, stage: RefreshStage, out: Option<CaptureOutput>) -> Sighting {
        match stage {
            RefreshStage::Task => match out {
                None => Sighting::NotRun,
                Some(out) => match query::task_state_answer(self.key(), out) {
                    Ok(Some(s)) => Sighting::Seen(s),
                    Ok(None) => Sighting::Gone,
                    Err(e) => Sighting::Exited(e),
                },
            },
            RefreshStage::Qgroup => match out {
                None => Sighting::AskSqueue,
                Some(out) => match query::qgroup_answer(seq![self.jobid], out) {
                    Ok(m) => lookup(m, self.jobid, Sighting::AskSqueue),
                    Err(_) => Sighting::AskSqueue,
                },
            },
            RefreshStage::Squeue => match out {
                None => Sighting::NotRun,
                Some(out) => match query::squeue_answer(out) {
                    Ok(m) => lookup(m, self.jobid, Sighting::Gone),
                    Err(e) => Sighting::Exited(e),
                },
            },
        }
    }

    /// The first step of a refresh: an array task is asked for by its key, as `qgroup`
    /// lists arrays as a whole.
    pub open spec fn first_refresh(self) -> RefreshStepView {
        match self.array_task_id {
            Some(_) => RefreshStepView::Capture {
                stage: RefreshStage::Task,
                argv: query::squeue_command(self.key()),
            },
            None => RefreshStepView::Capture {
                stage: RefreshStage::Qgroup,
                argv: seq!["qgroup"@, "-l"@],
            },
        }
    }

    /// The step after a sighting.
    pub open spec fn next_refresh(self, seen: Sighting) -> RefreshStepView {
        match seen {
            Sighting::Seen(_) => RefreshStepView::Save,
            Sighting::Gone => RefreshStepView::Save,
            Sighting::AskSqueue => RefreshStepView::Capture {
                stage: RefreshStage::Squeue,
                argv: query::squeue_command(query::csv(seq![self.jobid])),
            },
            Sighting::NotRun => RefreshStepView::NotRun,
            Sighting::Exited(e) => RefreshStepView::Exited(e),
        }
    }

    /// `new` is the lifecycle after a sighting at `now`.
    pub open spec fn observes(
        self,
        seen: Sighting,
        now: Timestamp,
        new: SbatchLifecycle,
    ) -> bool {
        let was = self.lifecycle;
        match seen {
            Sighting::Seen(s) => {
                &&& new.last_observed_state is Some
                &&& new.last_observed_state->0@ == s
                &&& new.last_observed_at == Some(now)
                &&& new.left_active_listing == was.left_active_listing
                &&& new.finished == was.finished
            },
            Sighting::Gone => new == (SbatchLifecycle {
                left_active_listing: true,
                last_observed_at: Some(now),
                ..was
            }),
            _ => new == was,
        }
    }

    /// Starts a refresh.
    pub fn begin_refresh(&self) -> (r: RefreshStep)
        ensures
            r@ == self.first_refresh(),
    {
        match self.array_task_id {
            Some(index) => RefreshStep::Capture {
                stage: RefreshStage::Task,
                argv: query::task_state_argv(self.jobid, index),
            },
            None => {
                let argv: Vec<String> = vec!["qgroup".to_owned(), "-l".to_owned()];
                assert(model::texts(argv@) == seq!["qgroup"@, "-l"@]);
                RefreshStep::Capture { stage: RefreshStage::Qgroup, argv }
            },
        }
    }

    /// Goes on with what the command of a stage left behind; nothing, where it could not
    /// be run.
    pub fn advance_refresh(
        &mut self,
        stage: RefreshStage,
        out: Option<&CaptureOutput>,
        now: Timestamp,
    ) -> (r: RefreshStep)
        requires
            stage == RefreshStage::Task ==> old(self).array_task_id is Some,
        ensures
            r@ == old(self).next_refresh(old(self).sighting(stage, opt_output(out))),
            old(self).observes(
                old(self).sighting(stage, opt_output(out)),
                now,
                final(self).lifecycle,
            ),
            *final(self) == (SbatchJobSnapshot { lifecycle: final(self).lifecycle, ..*old(self) }),
    {
        match stage {
            RefreshStage::Task => {
                let out = match out {
                    Some(out) => out,
                    None => {
                        return RefreshStep::Failed(QueryFailure::NotRun);
                    },
                };
                let index: u32 = match self.array_task_id {
                    Some(index) => index,
                    None => {
                        return RefreshStep::Failed(QueryFailure::NotRun);
                    },
                };
                match query::read_task_state(self.jobid, index, out) {
                    Ok(Some(status)) => {
                        self.see(status, now);
                        RefreshStep::Save
                    },
                    Ok(None) => {
                        self.miss(now);
                        RefreshStep::Save
                    },
                    Err(e) => RefreshStep::Failed(QueryFailure::Exited(e)),
                }
            },
            RefreshStage::Qgroup => {
                let id: u64 = self.jobid;
                let ids: [u64; 1] = [id];
                assert(ids@ == seq![id]);
                let found: Option<JobStatus> = match out {
                    Some(out) => match query::read_qgroup(&ids, out) {
                        Ok(m) => take_status(&m, id),
                        Err(_) => None,
                    },
                    None => None,
                };
                match found {
                    Some(status) => {
                        self.see(status, now);
                        RefreshStep::Save
                    },
                    None => {
                        let argv = query::squeue_argv(query::csv_join(&ids));
                        RefreshStep::Capture { stage: RefreshStage::Squeue, argv }
                    },
                }
            },
            RefreshStage::Squeue => {
                let out = match out {
                    Some(out) => out,
                    None => {
                        return RefreshStep::Failed(QueryFailure::NotRun);
                    },
                };
                match query::read_squeue(out) {
                    Ok(m) => match take_status(&m, self.jobid) {
                        Some(status) => {
                            self.see(status, now);
                            RefreshStep::Save
                        },
                        None => {
                            self.miss(now);
                            RefreshStep::Save
                        },
                    },
                    Err(e) => RefreshStep::Failed(QueryFailure::Exited(e)),
                }
            },
        }
    }

    /// Records that the job is listed.
    fn see(&mut self, status: JobStatus, now: Timestamp)
        ensures
            *final(self) == (SbatchJobSnapshot {
                lifecycle: SbatchLifecycle {
                    last_observed_state: Some(status),
                    last_observed_at: Some(now),
                    ..old(self).lifecycle
                },
                ..*old(self)
            }),
    {
        self.lifecycle.last_observed_state = Some(status);
        self.lifecycle.last_observed_at = Some(now);
    }

    /// Records that the job is not listed.
    fn miss(&mut self, now: Timestamp)
        ensures
            *final(self) == (SbatchJobSnapshot {
                lifecycle: SbatchLifecycle {
                    left_active_listing: true,
                    last_observed_at: Some(now),
                    ..old(self).lifecycle
                },
                ..*old(self)
            }),
    {
        self.lifecycle.left_active_listing = true;
        self.lifecycle.last_observed_at = Some(now);
    }

    /// Whether `sacct` should be asked how the job ended: it is not recorded yet, and the
    /// job was observed to have ended or has left the listings.
    pub fn needs_sacct(&self) -> (r: bool)
        ensures
            r == self.lifecycle.wants_sacct(),
    {
        !self.lifecycle.is_finished() && self.lifecycle.is_settled()
    }

    /// The question how the job ended: an array task is asked for by its key, so that the
    /// answer is that of the task, and another job by its id.
    pub open spec fn outcome_ask(self) -> OutcomeAskView {
        match self.array_task_id {
            Some(index) => OutcomeAskView::Task {
                argv: query::sacct_command(query::task_key_text(self.jobid, index), true),
                index,
            },
            None => OutcomeAskView::Job(BatchView::first_outcome_step(seq![self.jobid])),
        }
    }

    /// Asks how the job ended.
    pub fn ask_outcome(&self) -> (r: OutcomeAsk)
        ensures
            r@ == self.outcome_ask(),
    {
        match self.array_task_id {
            Some(index) => OutcomeAsk::Task {
                argv: query::task_outcome_argv(self.jobid, index),
                index,
            },
            None => {
                let ids: [u64; 1] = [self.jobid];
                assert(ids@ == seq![self.jobid]);
                OutcomeAsk::Job(OutcomeQuery::start(&ids))
            },
        }
    }

    /// `new` is the lifecycle after `sacct` reported `outcome`.
    ///
    /// - An unknown state without exit code is no report: accounting may lag behind, and
    ///   a later call will ask again.
    /// - A known state of a job that has not ended means that the job only seemed to have
    ///   left: it is taken back to the listings.
    /// - Everything else is how the job ended.
    pub open spec fn resolves(
        self,
        outcome: JobOutcome,
        now: Timestamp,
        new: SbatchLifecycle,
    ) -> bool {
        let was = self.lifecycle;
        let state = outcome.status.state;
        if state == JobState::Unknown && outcome.exit_code is None {
            new == was
        } else if state != JobState::Unknown && !state.terminal() {
            new == (SbatchLifecycle {
                left_active_listing: false,
                last_observed_state: Some(outcome.status),
                last_observed_at: Some(now),
                ..was
            })
        } else {
            new == (SbatchLifecycle {
                finished: Some(
                    FinishedInfo {
                        final_state: state,
                        final_reason: outcome.status.reason,
                        exit_code: outcome.exit_code,
                        finished_at: now,
                    },
                ),
                ..was
            })
        }
    }

    /// Takes in what `sacct` reported of the job, and says whether the snapshot has
    /// changed and is to be saved.
    pub fn apply_outcome(&mut self, outcome: JobOutcome, now: Timestamp) -> (r: bool)
        ensures
            old(self).resolves(outcome, now, final(self).lifecycle),
            *final(self) == (SbatchJobSnapshot { lifecycle: final(self).lifecycle, ..*old(self) }),
            r == !(outcome.status.state == JobState::Unknown && outcome.exit_code is None),
    {
        let state = outcome.status.state;
        let unknown = state == JobState::Unknown;
        if unknown && outcome.exit_code.is_none() {
            return false;
        }
        if !unknown && !state.is_terminal() {
            self.lifecycle.left_active_listing = false;
            self.lifecycle.last_observed_state = Some(outcome.status);
            self.lifecycle.last_observed_at = Some(now);
            return true;
        }
        self.lifecycle.finished = Some(
            FinishedInfo {
                final_state: state,
                final_reason: outcome.status.reason,
                exit_code: outcome.exit_code,
                finished_at: now,
            },
        );
        true
    }
}

/// What the command left behind, where it was run.
pub open spec fn opt_output(out: Option<&CaptureOutput>) -> Option<CaptureOutput> {
    match out {
        Some(o) => Some(*o),
        None => None,
    }
}

/// The status of a job in a map.
fn take_status(m: &HashMap<u64, JobStatus>, jobid: u64) -> (r: Option<JobStatus>)
    ensures
        match r {
            Some(s) => listing::status_views(m@).dom().contains(jobid) && listing::status_views(
                m@,
            )[jobid] == s@,
            None => !listing::status_views(m@).dom().contains(jobid),
        },
{
    broadcast use vstd::std_specs::hash::group_hash_axioms;

    match m.get(&jobid) {
        Some(s) => Some(s.clone()),
        None => None,
    }
}

/// The outcome of a job in a map; an unknown state without exit code, where it is not
/// there.
pub fn outcome_of(m: &HashMap<u64, JobOutcome>, jobid: u64) -> (r: JobOutcome)
    ensures
        r@ == (if listing::outcome_views(m@).dom().contains(jobid) {
            listing::outcome_views(m@)[jobid]
        } else {
            OutcomeView { status: StatusView::plain(JobState::Unknown), exit_code: None }
        }),
{
    broadcast use vstd::std_specs::hash::group_hash_axioms;

    match m.get(&jobid) {
        Some(o) => o.clone(),
        None => JobOutcome { status: JobStatus::default(), exit_code: None },
    }
}

/// The outcome of an array task; an unknown state without exit code, where there is none.
pub fn outcome_or_unknown(o: Option<JobOutcome>) -> (r: JobOutcome)
    ensures
        r@ == (match o {
            Some(o) => o@,
            None => OutcomeView { status: StatusView::plain(JobState::Unknown), exit_code: None },
        }),
{
    match o {
        Some(o) => o,
        None => JobOutcome { status: JobStatus::default(), exit_code: None },
    }
}

/// How many refreshes in a row may fail before a wait gives up.
pub const MAX_CONSECUTIVE_REFRESH_FAILURES: u32 = 5;

/// What a wait does after a refresh.
#[derive(Debug, Clone, Copy, PartialEq, Eq, Structural)]
pub enum WaitStep {
    /// The job has settled.
    Done,
    /// Too many refreshes in a row have failed.
    GiveUp,
    /// Sleep and refresh again; so many refreshes in a row have failed.
    Again { failures: u32 },
}

/// What a wait does after a refresh, which left a lifecycle behind or failed.
pub open spec fn wait_step(failures: u32, refreshed: Option<SbatchLifecycle>) -> WaitStep {
    match refreshed {
        Some(l) => if l.observed_terminal() || l.left_active_listing {
            WaitStep::Done
        } else {
            WaitStep::Again { failures: 0 }
        },
        None => if failures + 1 >= MAX_CONSECUTIVE_REFRESH_FAILURES {
            WaitStep::GiveUp
        } else {
            WaitStep::Again { failures: (failures + 1) as u32 }
        },
    }
}

/// What the snapshot holds of its lifecycle, where there is one.
pub open spec fn opt_lifecycle(s: Option<&SbatchJobSnapshot>) -> Option<SbatchLifecycle> {
    match s {
        Some(s) => Some(s.lifecycle),
        None => None,
    }
}

/// What a wait does after a refresh. `failures` is how many in a row had failed before.
pub fn wait_next(failures: u32, refreshed: Option<&SbatchJobSnapshot>) -> (r: WaitStep)
    ensures
        r == wait_step(failures, opt_lifecycle(refreshed)),
{
    match refreshed {
        Some(snap) => if snap.lifecycle.is_settled() {
            WaitStep::Done
        } else {
            WaitStep::Again { failures: 0 }
        },
        None => if failures >= MAX_CONSECUTIVE_REFRESH_FAILURES - 1 {
            WaitStep::GiveUp
        } else {
            WaitStep::Again { failures: failures + 1 }
        },
    }
}

/// What a wait has come to after a row of refreshes.
pub open spec fn wait_after(refreshes: Seq<Option<SbatchLifecycle>>) -> WaitStep
    decreases refreshes.len(),
{
    if refreshes.len() == 0 {
        WaitStep::Again { failures: 0 }
    } else {
        match wait_after(refreshes.drop_last()) {
            WaitStep::Again { failures } => wait_step(failures, refreshes.last()),
            done => done,
        }
    }
}

/// How many refreshes at the end of the row failed.
pub open spec fn failures_at_end(refreshes: Seq<Option<SbatchLifecycle>>) -> nat
    decreases refreshes.len(),
{
    if refreshes.len() == 0 || refreshes.last() is Some {
        0
    } else {
        1 + failures_at_end(refreshes.drop_last())
    }
}

/// As long as a wait goes on, it counts the failures since the last refresh that
/// succeeded, and they are too few to give up.
pub proof fn law_wait_counts_consecutive_failures(refreshes: Seq<Option<SbatchLifecycle>>)
    ensures
        wait_after(refreshes) matches WaitStep::Again { failures } ==> failures == failures_at_end(
            refreshes,
        ) && failures < MAX_CONSECUTIVE_REFRESH_FAILURES,
    decreases refreshes.len(),
{
    if refreshes.len() > 0 {
        law_wait_counts_consecutive_failures(refreshes.drop_last());
    }
}

/// A wait that goes on gives up at a refresh exactly where that refresh is the last of
/// the most that may fail in a row.
pub proof fn law_wait_gives_up_after_failures(
    refreshes: Seq<Option<SbatchLifecycle>>,
    next: Option<SbatchLifecycle>,
)
    requires
        wait_after(refreshes) is Again,
    ensures
        wait_after(refreshes.push(next)) == WaitStep::GiveUp <==> failures_at_end(
            refreshes.push(next),
        ) >= MAX_CONSECUTIVE_REFRESH_FAILURES,
{
    law_wait_counts_consecutive_failures(refreshes);
    assert(refreshes.push(next).drop_last() == refreshes);
}

/// A refresh never runs `sacct`.
pub proof fn law_refresh_never_runs_sacct(
    snap: SbatchJobSnapshot,
    stage: RefreshStage,
    out: Option<CaptureOutput>,
)
    ensures
        snap.first_refresh() matches RefreshStepView::Capture { argv, .. } ==> argv[0] != "sacct"@,
        snap.next_refresh(
            snap.sighting(stage, out),
        ) matches RefreshStepView::Capture { argv, .. } ==> argv[0] != "sacct"@,
{
    reveal_strlit("sacct");
    reveal_strlit("squeue");
    reveal_strlit("qgroup");
    assert("sacct"@.len() == 5);
    assert("squeue"@.len() == 6);
    assert("qgroup"@.len() == 6);
}

/// A refresh ends after at most two commands.
pub proof fn law_refresh_runs_two_commands(
    snap: SbatchJobSnapshot,
    stage: RefreshStage,
    out: Option<CaptureOutput>,
)
    ensures
        snap.next_refresh(
            snap.sighting(stage, out),
        ) matches RefreshStepView::Capture { stage: next, .. } ==> stage == RefreshStage::Qgroup
            && next == RefreshStage::Squeue,
{
}

/// `sacct` is asked for an array task by the key of the task, and for another job by its
/// id, and for nothing else.
pub proof fn law_sacct_is_asked_for_the_job(snap: SbatchJobSnapshot, out: CaptureOutput)
    ensures
        match snap.array_task_id {
            Some(index) => snap.outcome_ask() == (OutcomeAskView::Task {
                argv: query::sacct_command(snap.key(), true),
                index,
            }),
            None => {
                &&& snap.outcome_ask() matches OutcomeAskView::Job(
                    OutcomeStepView::Capture { argv, query },
                )
                &&& argv == query::squeue_command(model::decimal(snap.jobid as nat))
                &&& query.next_outcome_step(out) matches OutcomeStepView::Capture { argv, .. }
                    ==> argv == query::sacct_command(model::decimal(snap.jobid as nat), true)
            },
        },
{
    let id = snap.jobid;
    let ids = seq![id];
    reveal_with_fuel(query::deduped, 2);
    assert(ids.drop_last() == Seq::<u64>::empty());
    assert(query::deduped(ids) == ids);
    let texts = ids.map_values(|n: u64| model::decimal(n as nat));
    assert(texts == seq![model::decimal(id as nat)]);
    assert(query::csv(ids) == model::decimal(id as nat));
    if let Ok(active) = query::squeue_answer(out) {
        reveal_with_fuel(query::absent, 2);
        let missing = query::absent(ids, active);
        if missing.len() > 0 {
            assert(missing == ids);
        }
    }
}

/// Once it is recorded how a job ended, no refresh changes that, and `sacct` is not asked
/// again.
pub proof fn law_end_stays_recorded(
    snap: SbatchJobSnapshot,
    stage: RefreshStage,
    out: Option<CaptureOutput>,
    now: Timestamp,
    new: SbatchLifecycle,
)
    requires
        snap.lifecycle.finished is Some,
        snap.observes(snap.sighting(stage, out), now, new),
    ensures
        new.finished == snap.lifecycle.finished,
        !new.wants_sacct(),
{
}

/// How a job ended is never taken from a known state of a job that has not ended, nor
/// from no report.
pub proof fn law_only_ends_are_recorded(
    snap: SbatchJobSnapshot,
    outcome: JobOutcome,
    now: Timestamp,
    new: SbatchLifecycle,
)
    requires
        snap.lifecycle.finished is None,
        snap.resolves(outcome, now, new),
        new.finished is Some,
    ensures
        new.finished->0.final_state == outcome.status.state,
        new.finished->0.exit_code == outcome.exit_code,
        outcome.status.state.terminal() || (outcome.status.state == JobState::Unknown
            && outcome.exit_code is Some),
{
}

/// The listing of a stage holds the status as that of the job: in its last row of the
/// job, or in the first row of the array task.
pub open spec fn listed(
    snap: SbatchJobSnapshot,
    stage: RefreshStage,
    stdout: Seq<char>,
    s: StatusView,
) -> bool {
    let lines = model::lines(stdout);
    match stage {
        RefreshStage::Task => snap.array_task_id is Some && exists|n: int|
            {
                let key = model::decimal(snap.jobid as nat) + seq!['_'] + model::decimal(
                    snap.array_task_id->0 as nat,
                );
                &&& 0 <= n < lines.len()
                &&& listing::squeue_task_row(#[trigger] lines[n], key) == Some(s)
                &&& forall|k: int|
                    0 <= k < n ==> listing::squeue_task_row(#[trigger] lines[k], key) is None
            },
        RefreshStage::Qgroup => listing::last_row(
            lines,
            |l: Seq<char>| listing::qgroup_row(l),
            snap.jobid,
            s,
        ),
        RefreshStage::Squeue => listing::last_row(
            lines,
            |l: Seq<char>| listing::squeue_row(l),
            snap.jobid,
            s,
        ),
    }
}

/// The listing of a stage holds no row of the job.
pub open spec fn unlisted(snap: SbatchJobSnapshot, stage: RefreshStage, stdout: Seq<char>) -> bool {
    let lines = model::lines(stdout);
    match stage {
        RefreshStage::Task => snap.array_task_id is Some && forall|k: int|
            0 <= k < lines.len() ==> listing::squeue_task_row(
                #[trigger] lines[k],
                model::decimal(snap.jobid as nat) + seq!['_'] + model::decimal(
                    snap.array_task_id->0 as nat,
                ),
            ) is None,
        RefreshStage::Qgroup => listing::no_row(
            lines,
            |l: Seq<char>| listing::qgroup_row(l),
            snap.jobid,
        ),
        RefreshStage::Squeue => listing::no_row(
            lines,
            |l: Seq<char>| listing::squeue_row(l),
            snap.jobid,
        ),
    }
}

/// Whatever was observed before: where the listing holds the job, a refresh records the
/// status that it holds, with the time, and nothing else.
pub proof fn law_refresh_records_what_is_listed(
    snap: &mut SbatchJobSnapshot,
    stage: RefreshStage,
    out: &CaptureOutput,
    now: Timestamp,
    r: RefreshStep,
    s: StatusView,
)
    requires
        call_ensures(SbatchJobSnapshot::advance_refresh, (snap, stage, Some(out), now), r),
        out.exit_code == 0,
        listed(*snap, stage, out.stdout@, s),
    ensures
        r == RefreshStep::Save,
        final(snap).lifecycle.last_observed_state is Some,
        final(snap).lifecycle.last_observed_state->0@ == s,
        final(snap).lifecycle.last_observed_at == Some(now),
        final(snap).lifecycle.left_active_listing == old(snap).lifecycle.left_active_listing,
        final(snap).lifecycle.finished == old(snap).lifecycle.finished,
        *final(snap) == (SbatchJobSnapshot { lifecycle: final(snap).lifecycle, ..*old(snap) }),
{
    let lines = model::lines(out.stdout@);
    let id = snap.jobid;
    match stage {
        RefreshStage::Task => {
            let key = snap.key();
            let row = |l: Seq<char>| listing::squeue_task_row(l, key);
            let n = choose|n: int|
                {
                    &&& 0 <= n < lines.len()
                    &&& listing::squeue_task_row(#[trigger] lines[n], key) == Some(s)
                    &&& forall|k: int|
                        0 <= k < n ==> listing::squeue_task_row(#[trigger] lines[k], key) is None
                };
            assert forall|k: int| 0 <= k < n implies row(#[trigger] lines[k]) is None by {}
            listing::lemma_first_row(lines, row, n);
        },
        RefreshStage::Qgroup => {
            listing::law_table_holds_the_last_rows(
                lines,
                |l: Seq<char>| listing::qgroup_row(l),
                id,
            );
            assert(seq![id][0] == id);
            assert(seq![id].to_set().contains(id));
        },
        RefreshStage::Squeue => {
            listing::law_table_holds_the_last_rows(
                lines,
                |l: Seq<char>| listing::squeue_row(l),
                id,
            );
        },
    }
}

/// Where the listing does not hold the job: after `qgroup` nothing is recorded and
/// `squeue` is asked for the job; after `squeue` it is recorded that the job has left, with
/// the time, and what was observed before stays.
pub proof fn law_refresh_records_that_the_job_left(
    snap: &mut SbatchJobSnapshot,
    stage: RefreshStage,
    out: &CaptureOutput,
    now: Timestamp,
    r: RefreshStep,
)
    requires
        call_ensures(SbatchJobSnapshot::advance_refresh, (snap, stage, Some(out), now), r),
        out.exit_code == 0,
        unlisted(*snap, stage, out.stdout@),
    ensures
        *final(snap) == (SbatchJobSnapshot { lifecycle: final(snap).lifecycle, ..*old(snap) }),
        stage != RefreshStage::Qgroup ==> {
            &&& r == RefreshStep::Save
            &&& final(snap).lifecycle.left_active_listing
            &&& final(snap).lifecycle.last_observed_at == Some(now)
            &&& final(snap).lifecycle.last_observed_state
                == old(snap).lifecycle.last_observed_state
            &&& final(snap).lifecycle.finished == old(snap).lifecycle.finished
        },
        stage == RefreshStage::Qgroup ==> {
            &&& *final(snap) == *old(snap)
            &&& asks_squeue(r, model::decimal(old(snap).jobid as nat))
        },
{
    let lines = model::lines(out.stdout@);
    let id = snap.jobid;
    lemma_csv_of_one(id);
    match stage {
        RefreshStage::Task => {
            let key = snap.key();
            let row = |l: Seq<char>| listing::squeue_task_row(l, key);
            assert forall|k: int| 0 <= k < lines.len() implies row(#[trigger] lines[k]) is None by {}
            listing::lemma_first_row(lines, row, lines.len() as int);
        },
        RefreshStage::Qgroup => {
            listing::law_table_holds_the_last_rows(
                lines,
                |l: Seq<char>| listing::qgroup_row(l),
                id,
            );
        },
        RefreshStage::Squeue => {
            listing::law_table_holds_the_last_rows(
                lines,
                |l: Seq<char>| listing::squeue_row(l),
                id,
            );
        },
    }
}

/// The step asks `squeue` for what the key names, one line for each array task.
pub open spec fn asks_squeue(r: RefreshStep, key: Seq<char>) -> bool {
    r matches RefreshStep::Capture { stage, argv } && (stage == RefreshStage::Squeue || stage
        == RefreshStage::Task) && model::texts(argv@) == seq![
        "squeue"@,
        "-h"@,
        "-r"@,
        "-j"@,
        key,
        "-o"@,
        "%i %T %r"@,
    ]
}

/// The list of one id is the id.
proof fn lemma_csv_of_one(id: u64)
    ensures
        query::csv(seq![id]) == model::decimal(id as nat),
{
    let texts = seq![id].map_values(|n: u64| model::decimal(n as nat));
    assert(texts == seq![model::decimal(id as nat)]);
}

/// Where `squeue` knows none of the jobs it was asked for, the job has left; where it
/// fails for another reason, or could not be run, the snapshot is as it was and the
/// refresh fails. A failure of `qgroup` is no failure of the refresh: `squeue` is asked.
pub proof fn law_refresh_survives_failures(
    snap: &mut SbatchJobSnapshot,
    stage: RefreshStage,
    out: Option<&CaptureOutput>,
    now: Timestamp,
    r: RefreshStep,
)
    requires
        call_ensures(SbatchJobSnapshot::advance_refresh, (snap, stage, out, now), r),
        stage == RefreshStage::Task ==> snap.array_task_id is Some,
        out matches Some(o) ==> o.exit_code != 0,
    ensures
        *final(snap) == (SbatchJobSnapshot { lifecycle: final(snap).lifecycle, ..*old(snap) }),
        ({
            let gone = out is Some && model::contains(
                out->0.stderr@,
                "Invalid job id specified"@,
            );
            match stage {
                RefreshStage::Qgroup => *final(snap) == *old(snap) && asks_squeue(
                    r,
                    model::decimal(old(snap).jobid as nat),
                ),
                _ => if gone {
                    &&& r == RefreshStep::Save
                    &&& final(snap).lifecycle == (SbatchLifecycle {
                        left_active_listing: true,
                        last_observed_at: Some(now),
                        ..old(snap).lifecycle
                    })
                } else {
                    &&& *final(snap) == *old(snap)
                    &&& r matches RefreshStep::Failed(f) && match f {
                        QueryFailure::NotRun => out is None,
                        QueryFailure::Exited(e) => out is Some && e.tool@ == "squeue"@
                            && e.exit_code == out->0.exit_code && e.detail@ == model::trim(
                            out->0.stderr@,
                        ),
                    }
                },
            }
        }),
{
    let id = snap.jobid;
    lemma_csv_of_one(id);
    assert(!Map::<u64, StatusView>::empty().dom().contains(id));
}

/// A refresh of an array task starts with `squeue` for its key, and that of another job
/// with `qgroup`.
pub proof fn law_refresh_starts(snap: SbatchJobSnapshot, r: RefreshStep)
    requires
        call_ensures(SbatchJobSnapshot::begin_refresh, (&snap,), r),
    ensures
        match snap.array_task_id {
            Some(index) => asks_squeue(
                r,
                model::decimal(snap.jobid as nat) + seq!['_'] + model::decimal(index as nat),
            ) && r->stage == RefreshStage::Task,
            None => r matches RefreshStep::Capture { stage, argv } && stage == RefreshStage::Qgroup
                && model::texts(argv@) == seq!["qgroup"@, "-l"@],
        },
{
}

/// Two refreshes in a row: the second one decides what was last observed, whatever the
/// first one saw.
pub proof fn law_last_refresh_decides(
    a: &mut SbatchJobSnapshot,
    b: &mut SbatchJobSnapshot,
    stage: RefreshStage,
    out: &CaptureOutput,
    now: Timestamp,
    ra: RefreshStep,
    rb: RefreshStep,
    s: StatusView,
)
    requires
        call_ensures(SbatchJobSnapshot::advance_refresh, (a, stage, Some(out), now), ra),
        call_ensures(SbatchJobSnapshot::advance_refresh, (b, stage, Some(out), now), rb),
        a.jobid == b.jobid,
        a.array_task_id == b.array_task_id,
        out.exit_code == 0,
        listed(*a, stage, out.stdout@, s),
    ensures
        final(a).lifecycle.last_observed_state->0@ == final(b).lifecycle.last_observed_state->0@,
        final(a).lifecycle.last_observed_at == final(b).lifecycle.last_observed_at,
{
    law_refresh_records_what_is_listed(a, stage, out, now, ra, s);
    law_refresh_records_what_is_listed(b, stage, out, now, rb, s);
}

/// The states of a job that has ended.
pub open spec fn has_ended(s: JobState) -> bool {
    ||| s == JobState::Completed
    ||| s == JobState::BootFail
    ||| s == JobState::Cancelled
    ||| s == JobState::Deadline
    ||| s == JobState::Failed
    ||| s == JobState::NodeFail
    ||| s == JobState::OutOfMemory
    ||| s == JobState::Preempted
    ||| s == JobState::Revoked
    ||| s == JobState::SpecialExit
    ||| s == JobState::Timeout
}

/// There is nothing left to poll for: an ended state was the last one observed, or the
/// job has left the listings.
pub open spec fn nothing_to_poll(l: SbatchLifecycle) -> bool {
    ||| l.left_active_listing
    ||| l.last_observed_state matches Some(s) && has_ended(s.state)
}

/// `sacct` is asked exactly where there is nothing left to poll for and it is not recorded
/// yet how the job ended.
pub proof fn law_sacct_is_asked_once_the_job_settled(snap: SbatchJobSnapshot, r: bool)
    requires
        call_ensures(SbatchJobSnapshot::needs_sacct, (&snap,), r),
    ensures
        r <==> snap.lifecycle.finished is None && nothing_to_poll(snap.lifecycle),
{
}

/// Where `sacct` reports an ended state, the end is recorded: with the state, the reason,
/// the exit code and the time; and nothing else changes.
pub proof fn law_reported_end_is_recorded(
    snap: &mut SbatchJobSnapshot,
    outcome: JobOutcome,
    now: Timestamp,
    r: bool,
)
    requires
        call_ensures(SbatchJobSnapshot::apply_outcome, (snap, outcome, now), r),
        has_ended(outcome.status.state) || (outcome.status.state == JobState::Unknown
            && outcome.exit_code is Some),
    ensures
        r,
        final(snap).lifecycle.finished == Some(
            FinishedInfo {
                final_state: outcome.status.state,
                final_reason: outcome.status.reason,
                exit_code: outcome.exit_code,
                finished_at: now,
            },
        ),
        final(snap).lifecycle.last_observed_state == old(snap).lifecycle.last_observed_state,
        final(snap).lifecycle.last_observed_at == old(snap).lifecycle.last_observed_at,
        final(snap).lifecycle.left_active_listing == old(snap).lifecycle.left_active_listing,
        *final(snap) == (SbatchJobSnapshot { lifecycle: final(snap).lifecycle, ..*old(snap) }),
{
}

/// Where `sacct` reports a known state of a job that has not ended, no end is recorded: the
/// job is taken back to the listings, with that state as the last one observed.
pub proof fn law_live_job_is_taken_back(
    snap: &mut SbatchJobSnapshot,
    outcome: JobOutcome,
    now: Timestamp,
    r: bool,
)
    requires
        call_ensures(SbatchJobSnapshot::apply_outcome, (snap, outcome, now), r),
        outcome.status.state != JobState::Unknown,
        !has_ended(outcome.status.state),
    ensures
        r,
        !final(snap).lifecycle.left_active_listing,
        final(snap).lifecycle.last_observed_state == Some(outcome.status),
        final(snap).lifecycle.last_observed_at == Some(now),
        final(snap).lifecycle.finished == old(snap).lifecycle.finished,
        *final(snap) == (SbatchJobSnapshot { lifecycle: final(snap).lifecycle, ..*old(snap) }),
        !nothing_to_poll(final(snap).lifecycle),
{
}

/// Where `sacct` reports nothing usable, nothing changes and nothing is to be saved, so
/// that it is asked again the next time.
pub proof fn law_no_report_changes_nothing(
    snap: &mut SbatchJobSnapshot,
    outcome: JobOutcome,
    now: Timestamp,
    r: bool,
)
    requires
        call_ensures(SbatchJobSnapshot::apply_outcome, (snap, outcome, now), r),
        outcome.status.state == JobState::Unknown,
        outcome.exit_code is None,
    ensures
        !r,
        *final(snap) == *old(snap),
{
}

/// What `sacct` says of the job is what is taken in: the entry of the job where there is
/// one, else an unknown state without exit code.
pub proof fn law_outcome_of_the_job(
    m: HashMap<u64, JobOutcome>,
    jobid: u64,
    r: JobOutcome,
    o: Option<JobOutcome>,
    q: JobOutcome,
)
    requires
        call_ensures(outcome_of, (&m, jobid), r),
        call_ensures(outcome_or_unknown, (o,), q),
    ensures
        m@.dom().contains(jobid) ==> r@ == m@[jobid]@,
        !m@.dom().contains(jobid) ==> r.status.state == JobState::Unknown && r.exit_code is None,
        o is Some ==> q@ == o->0@,
        o is None ==> q.status.state == JobState::Unknown && q.exit_code is None,
{
    if m@.dom().contains(jobid) {
        assert(listing::outcome_views(m@).dom().contains(jobid));
    } else {
        assert(!listing::outcome_views(m@).dom().contains(jobid));
        assert(r@.status.state == JobState::Unknown);
        assert(r@.exit_code is None);
    }
}

/// A job counts as running exactly while it is in the listings with one of these states.
pub proof fn law_running_jobs(snap: SbatchJobSnapshot, r: bool)
    requires
        call_ensures(SbatchJobSnapshot::is_running, (&snap,), r),
    ensures
        r <==> !snap.lifecycle.left_active_listing && snap.lifecycle.last_observed_state is Some && {
            let s = snap.lifecycle.last_observed_state->0.state;
            ||| s == JobState::Running
            ||| s == JobState::Completing
            ||| s == JobState::Resizing
            ||| s == JobState::Signaling
            ||| s == JobState::StageOut
        },
{
}

/// A job counts as finished exactly where its end is recorded, and then has the exit code
/// that was recorded.
pub proof fn law_finished_jobs(snap: SbatchJobSnapshot, finished: bool, code: Option<i32>)
    requires
        call_ensures(SbatchJobSnapshot::is_finished, (&snap,), finished),
        call_ensures(SbatchJobSnapshot::exit_code, (&snap,), code),
    ensures
        finished <==> snap.lifecycle.finished is Some,
        !finished ==> code is None,
        finished ==> code == snap.lifecycle.finished->0.exit_code,
{
}

/// The same of a lifecycle alone.
pub proof fn law_lifecycle_agrees(
    snap: SbatchJobSnapshot,
    running: bool,
    finished: bool,
    settled: bool,
    code: Option<i32>,
    snap_running: bool,
)
    requires
        call_ensures(SbatchLifecycle::is_running, (&snap.lifecycle,), running),
        call_ensures(SbatchLifecycle::is_finished, (&snap.lifecycle,), finished),
        call_ensures(SbatchLifecycle::is_settled, (&snap.lifecycle,), settled),
        call_ensures(SbatchLifecycle::exit_code, (&snap.lifecycle,), code),
        call_ensures(SbatchJobSnapshot::is_running, (&snap,), snap_running),
    ensures
        running == snap_running,
        finished <==> snap.lifecycle.finished is Some,
        settled <==> nothing_to_poll(snap.lifecycle),
        code is Some ==> finished && code == snap.lifecycle.finished->0.exit_code,
        finished ==> code == snap.lifecycle.finished->0.exit_code,
{
}

/// A wait ends with a refresh after which there is nothing left to poll for, and goes on
/// after one that leaves something to poll for, with no failures counted. It goes on
/// after a failed refresh, with one failure more, until the fifth in a row.
pub proof fn law_wait_ends_with_the_job(
    failures: u32,
    refreshed: Option<&SbatchJobSnapshot>,
    r: WaitStep,
)
    requires
        call_ensures(wait_next, (failures, refreshed), r),
    ensures
        refreshed matches Some(snap) ==> {
            &&& nothing_to_poll(snap.lifecycle) ==> r == WaitStep::Done
            &&& !nothing_to_poll(snap.lifecycle) ==> r == (WaitStep::Again { failures: 0 })
        },
        refreshed is None && failures >= 4 ==> r == WaitStep::GiveUp,
        refreshed is None && failures < 4 ==> r == (WaitStep::Again {
            failures: (failures + 1) as u32,
        }),
{
}

/// The path of the log of stdout is what its template stands for, that of stderr what the
/// other one does, and one without template has no path.
pub proof fn law_logs_have_their_own_templates(
    snap: SbatchJobSnapshot,
    stream: LogStream,
    user: &str,
    host: &str,
    name: Option<&str>,
    path: Result<String, LogReadError>,
    output: Option<String>,
    error: Option<String>,
    template: &str,
    filled: String,
)
    requires
        call_ensures(SbatchJobSnapshot::log_path, (&snap, stream, user, host), path),
        call_ensures(SbatchJobSnapshot::output_path, (&snap, user, host), output),
        call_ensures(SbatchJobSnapshot::error_path, (&snap, user, host), error),
        call_ensures(
            resolve_log_path,
            (template, snap.jobid, snap.array_task_id, name, user, host),
            filled,
        ),
        name is Some <==> snap.job_name is Some,
        name is Some ==> name->0@ == snap.job_name->0@,
    ensures
        output is Some <==> snap.log.output_template is Some,
        error is Some <==> snap.log.error_template is Some,
        snap.log.output_template matches Some(t) ==> t@ == template@ ==> output->0@ == filled@,
        snap.log.error_template matches Some(t) ==> t@ == template@ ==> error->0@ == filled@,
        match stream {
            LogStream::Stdout => match path {
                Ok(p) => output is Some && p@ == output->0@,
                Err(e) => output is None && e == LogReadError::PathNotResolved,
            },
            LogStream::Stderr => match path {
                Ok(p) => error is Some && p@ == error->0@,
                Err(e) => error is None && e == LogReadError::PathNotResolved,
            },
        },
{
}

/// How the end of a job is asked for: an array task by `sacct` with its key, and another job
/// by a query for its id alone.
pub proof fn law_ends_are_asked_for(
    snap: SbatchJobSnapshot,
    r: OutcomeAsk,
    ids: &[u64],
    step: OutcomeStep,
)
    requires
        call_ensures(SbatchJobSnapshot::ask_outcome, (&snap,), r),
        ids@ == seq![snap.jobid],
        call_ensures(OutcomeQuery::start, (ids,), step),
    ensures
        match snap.array_task_id {
            Some(i) => r matches OutcomeAsk::Task { argv, index } && index == i && model::texts(
                argv@,
            ) == seq![
                "sacct"@,
                "-P"@,
                "-n"@,
                "-j"@,
                model::decimal(snap.jobid as nat) + seq!['_'] + model::decimal(i as nat),
                "-o"@,
                "JobID,State,Reason,ExitCode"@,
            ],
            None => r matches OutcomeAsk::Job(s) && s@ == step@,
        },
{
}

/// Copies hold what was copied.
pub proof fn law_copies(
    snap: SbatchJobSnapshot,
    r: SbatchJobSnapshot,
    life: SbatchLifecycle,
    lr: SbatchLifecycle,
    end: FinishedInfo,
    er: FinishedInfo,
    fresh: SbatchLifecycle,
)
    requires
        call_ensures(<SbatchJobSnapshot as Clone>::clone, (&snap,), r),
        call_ensures(<SbatchLifecycle as Clone>::clone, (&life,), lr),
        call_ensures(<FinishedInfo as Clone>::clone, (&end,), er),
        call_ensures(<SbatchLifecycle as Default>::default, (), fresh),
    ensures
        r.uuid == snap.uuid,
        r.jobid == snap.jobid,
        r.array_task_id == snap.array_task_id,
        model::texts(r.argv@) == model::texts(snap.argv@),
        r.sent_env@ == snap.sent_env@,
        r.script_path@ == snap.script_path@,
        cmd::opt_string(r.chdir) == cmd::opt_string(snap.chdir),
        cmd::opt_string(r.partition) == cmd::opt_string(snap.partition),
        cmd::opt_string(r.job_name) == cmd::opt_string(snap.job_name),
        r.submitted_at == snap.submitted_at,
        cmd::opt_string(r.log.output_template) == cmd::opt_string(snap.log.output_template),
        cmd::opt_string(r.log.error_template) == cmd::opt_string(snap.log.error_template),
        r.lifecycle == snap.lifecycle,
        lr == life,
        er == end,
        fresh.last_observed_state is None,
        fresh.last_observed_at is None,
        !fresh.left_active_listing,
        fresh.finished is None,
{
    let (a, b) = (r@, snap@);
    assert(a == b);
    assert(a.uuid == b.uuid && a.log == b.log && a.lifecycle == b.lifecycle);
}

/// A log without a template, and one that cannot be read, say so.
pub proof fn law_log_messages(e: LogReadError, r: String)
    requires
        call_ensures(LogReadError::to_string, (&e,), r),
    ensures
        r@ == match e {
            LogReadError::PathNotResolved =>
                "log path not resolved on snapshot (template missing)"@,
            LogReadError::Io(m) => "io error reading log: "@ + m@,
        },
{
}

/// A refresh can go on from every snapshot and with every output, but for the stage of array
/// tasks, which takes one.
pub proof fn law_refresh_takes_every_output(
    snap: &mut SbatchJobSnapshot,
    stage: RefreshStage,
    out: Option<&CaptureOutput>,
    now: Timestamp,
)
    requires
        stage == RefreshStage::Task ==> snap.array_task_id is Some,
    ensures
        call_requires(SbatchJobSnapshot::advance_refresh, (snap, stage, out, now)),
{
}

} // verus!
