//! One `sbatch` invocation.
use crate::entities::array_spec::SlurmArraySpec;
use crate::entities::config::{JobPartition, MailAddress};
use crate::entities::dependency::SlurmDependency;
use crate::entities::mail;
use crate::entities::mail::MailTypeInput;
use crate::entities::resource_spec::{ResourceSpec, ResourceView};
use crate::entities::signal::SlurmSignalSpec;
use crate::entities::time_limit;
use crate::entities::time_limit::JobTimeLimit;
use crate::error::{SchemaFault, SchemaParseError};
use crate::path;
use crate::path::{absolutize, PathFault};
use crate::sbatch::env;
use crate::sbatch::env::EnvMap;
use crate::sbatch::error::{SbatchSpawnError, SpawnFault};
use crate::text;
use crate::text::lemmas;
use crate::text::model;
use vstd::prelude::*;

verus! {

/// What to submit and with which options. Options on the command line override the
/// `#SBATCH` directives in the script; what is left out here is left to them.
#[derive(Debug, Clone)]
pub struct SbatchCmd {
    pub sbatch_bin: String,
    pub job_name: Option<String>,
    pub partition: Option<JobPartition>,
    pub time_limit: Option<JobTimeLimit>,
    pub rsc: Option<ResourceSpec>,
    pub output: Option<String>,
    pub error: Option<String>,
    pub chdir: Option<String>,
    pub env: EnvMap,
    /// `--array`: the task indices of an array job.
    pub array_spec: Option<SlurmArraySpec>,
    /// `-d`: the jobs to wait for.
    pub dependency: Option<SlurmDependency>,
    pub mail_user: Option<MailAddress>,
    pub mail_types: Option<MailTypeInput>,
    /// `--signal`: what to send before the time limit.
    pub signal: Option<SlurmSignalSpec>,
    /// `--no-requeue`: do not requeue the job when a node fails.
    pub no_requeue: bool,
    pub comment: Option<String>,
    pub script: String,
    pub args: Vec<String>,
}

/// The text of an optional string.
pub open spec fn opt_string(s: Option<String>) -> Option<Seq<char>> {
    match s {
        Some(s) => Some(s@),
        None => None,
    }
}

/// An option and its value, where there is a value.
pub open spec fn flag(name: Seq<char>, value: Option<Seq<char>>) -> Seq<Seq<char>> {
    match value {
        Some(v) => seq![name, v],
        None => Seq::empty(),
    }
}

/// An option and its value in one word, where there is a value.
pub open spec fn joined_flag(prefix: Seq<char>, value: Option<Seq<char>>) -> Seq<Seq<char>> {
    match value {
        Some(v) => seq![prefix + v],
        None => Seq::empty(),
    }
}

/// The value of a variable, or its name, would corrupt `--export`.
pub open spec fn corrupts(s: Seq<char>) -> bool {
    s.contains(',') || s.contains('=')
}

/// `ALL,K1=V1,K2=V2,...` in the order of the names. The first variable with a comma or
/// an equals sign is a fault; its name is judged before its value.
pub open spec fn exported(entries: Seq<env::Entry>) -> Result<Seq<char>, SpawnFault>
    decreases entries.len(),
{
    if entries.len() == 0 {
        Ok("ALL"@)
    } else {
        let (key, value) = entries.last();
        match exported(entries.drop_last()) {
            Err(e) => Err(e),
            Ok(s) => if corrupts(key) {
                Err(SpawnFault::InvalidExportKey { key })
            } else if corrupts(value) {
                Err(SpawnFault::InvalidExportValue { key, value })
            } else {
                Ok(s + seq![','] + key + seq!['='] + value)
            },
        }
    }
}

/// The payload of `--export`; none without variables.
pub open spec fn export_payload(entries: Seq<env::Entry>) -> Result<
    Option<Seq<char>>,
    SpawnFault,
> {
    if entries.len() == 0 {
        Ok(None)
    } else {
        match exported(entries) {
            Ok(s) => Ok(Some(s)),
            Err(e) => Err(e),
        }
    }
}

/// A variable with a fault decides over all that follow it.
proof fn lemma_exported_err(entries: Seq<env::Entry>, n: int)
    requires
        0 <= n <= entries.len(),
        exported(entries.take(n)) is Err,
    ensures
        exported(entries) == exported(entries.take(n)),
    decreases entries.len() - n,
{
    if n < entries.len() {
        assert(entries.take(n + 1).drop_last() == entries.take(n));
        lemma_exported_err(entries, n + 1);
    } else {
        assert(entries.take(n) == entries);
    }
}

/// The payload of `--export`.
pub fn render_export(env: &EnvMap) -> (r: Result<String, SbatchSpawnError>)
    ensures
        match r {
            Ok(s) => exported(env@) == Ok::<Seq<char>, SpawnFault>(s@),
            Err(e) => exported(env@) == Err::<Seq<char>, SpawnFault>(e@),
        },
{
    let mut out = "ALL".to_owned();
    let mut i: usize = 0;
    while i < env.len()
        invariant
            i <= env@.len(),
            exported(env@.take(i as int)) == Ok::<Seq<char>, SpawnFault>(out@),
        decreases env@.len() - i,
    {
        let (key, value) = env.entry(i);
        let k = text::chars_of(key);
        let v = text::chars_of(value);
        proof {
            assert(env@.take(i + 1).drop_last() == env@.take(i as int));
            assert(env@.take(i + 1).last() == (key@, value@));
        }
        if text::has(k.as_slice(), ',') || text::has(k.as_slice(), '=') {
            proof {
                lemma_exported_err(env@, i + 1);
            }
            return Err(SbatchSpawnError::InvalidExportKey { key: key.to_owned() });
        }
        if text::has(v.as_slice(), ',') || text::has(v.as_slice(), '=') {
            proof {
                lemma_exported_err(env@, i + 1);
            }
            return Err(
                SbatchSpawnError::InvalidExportValue {
                    key: key.to_owned(),
                    value: value.to_owned(),
                },
            );
        }
        let ghost before = out@;
        out.push(',');
        out.append(key);
        out.push('=');
        out.append(value);
        assert(out@ == before + seq![','] + key@ + seq!['='] + value@);
        i = i + 1;
    }
    assert(env@.take(i as int) == env@);
    Ok(out)
}

/// Appends an option and its value.
fn push_flag(argv: &mut Vec<String>, name: &str, value: Option<String>)
    ensures
        model::texts(final(argv)@) == model::texts(old(argv)@) + flag(name@, opt_string(value)),
{
    match value {
        Some(v) => {
            argv.push(name.to_owned());
            argv.push(v);
        },
        None => {},
    }
    assert(model::texts(argv@) == model::texts(old(argv)@) + flag(name@, opt_string(value)));
}

/// Appends an option and its value in one word.
fn push_joined(argv: &mut Vec<String>, prefix: &str, value: Option<String>)
    ensures
        model::texts(final(argv)@) == model::texts(old(argv)@) + joined_flag(
            prefix@,
            opt_string(value),
        ),
{
    match value {
        Some(v) => {
            let mut word = prefix.to_owned();
            word.append(v.as_str());
            argv.push(word);
        },
        None => {},
    }
    assert(model::texts(argv@) == model::texts(old(argv)@) + joined_flag(
        prefix@,
        opt_string(value),
    ));
}

/// A copy of an optional string.
pub fn copy_opt(s: &Option<String>) -> (r: Option<String>)
    ensures
        opt_string(r) == opt_string(*s),
{
    match s {
        Some(s) => Some(s.clone()),
        None => None,
    }
}

impl SbatchCmd {
    /// The text of the time limit.
    pub open spec fn time_text(self) -> Option<Seq<char>> {
        match self.time_limit {
            Some(t) => Some(time_limit::limit_text(t@)),
            None => None,
        }
    }

    /// The text of the resources, where anything is requested.
    pub open spec fn rsc_text(self) -> Option<Seq<char>> {
        match self.rsc {
            Some(r) => if r@.text().len() > 0 {
                Some(r@.text())
            } else {
                None
            },
            None => None,
        }
    }

    /// The text of the array spec.
    pub open spec fn array_text(self) -> Option<Seq<char>> {
        match self.array_spec {
            Some(a) => Some(a@.text()),
            None => None,
        }
    }

    /// The text of the dependencies.
    pub open spec fn dependency_text(self) -> Option<Seq<char>> {
        match self.dependency {
            Some(d) => Some(d@.text()),
            None => None,
        }
    }

    /// The text of the mail events.
    pub open spec fn mail_types_text(self) -> Option<Seq<char>> {
        match self.mail_types {
            Some(m) => Some(mail::mail_types_text(m@)),
            None => None,
        }
    }

    /// The text of the signal.
    pub open spec fn signal_text(self) -> Option<Seq<char>> {
        match self.signal {
            Some(s) => Some(s@.text()),
            None => None,
        }
    }

    /// The command line, given the absolute paths and the payload of `--export`.
    pub open spec fn command(
        self,
        chdir: Option<Seq<char>>,
        export: Option<Seq<char>>,
        script: Seq<char>,
    ) -> Seq<Seq<char>> {
        seq![self.sbatch_bin@] + flag("-J"@, opt_string(self.job_name)) + flag(
            "-p"@,
            opt_string(self.partition),
        ) + flag("-t"@, self.time_text()) + flag("--rsc"@, self.rsc_text()) + flag(
            "-o"@,
            opt_string(self.output),
        ) + flag("-e"@, opt_string(self.error)) + flag("--chdir"@, chdir) + joined_flag(
            "--export="@,
            export,
        ) + joined_flag("--array="@, self.array_text()) + flag("-d"@, self.dependency_text())
            + flag("--mail-user"@, opt_string(self.mail_user)) + flag(
            "--mail-type"@,
            self.mail_types_text(),
        ) + joined_flag("--signal="@, self.signal_text()) + (if self.no_requeue {
            seq!["--no-requeue"@]
        } else {
            Seq::empty()
        }) + flag("--comment"@, opt_string(self.comment)) + seq![script] + model::texts(
            self.args@,
        )
    }

    /// A submission of `script` with no options.
    pub fn new(script: &str) -> (r: SbatchCmd)
        ensures
            r.sbatch_bin@ == "sbatch"@,
            r.job_name is None,
            r.partition is None,
            r.time_limit is None,
            r.rsc is None,
            r.output is None,
            r.error is None,
            r.chdir is None,
            r.env@.len() == 0,
            r.array_spec is None,
            r.dependency is None,
            r.mail_user is None,
            r.mail_types is None,
            r.signal is None,
            !r.no_requeue,
            r.comment is None,
            r.script@ == script@,
            r.args@.len() == 0,
    {
        SbatchCmd {
            sbatch_bin: "sbatch".to_owned(),
            job_name: None,
            partition: None,
            time_limit: None,
            rsc: None,
            output: None,
            error: None,
            chdir: None,
            env: EnvMap::new(),
            array_spec: None,
            dependency: None,
            mail_user: None,
            mail_types: None,
            signal: None,
            no_requeue: false,
            comment: None,
            script: script.to_owned(),
            args: Vec::new(),
        }
    }

    /// Why the texts of a time limit and of resources are rejected, where they are; the
    /// time limit is read first.
    pub open spec fn texts_fault(time: Option<&str>, rsc: Option<&str>) -> Option<SchemaFault> {
        if time is Some && time_limit::parsed_limit(time->0@) is Err {
            Some(time_limit::parsed_limit(time->0@)->Err_0)
        } else if rsc is Some && ResourceView::parsed(rsc->0@) is Err {
            Some(ResourceView::parsed(rsc->0@)->Err_0)
        } else {
            None
        }
    }

    /// The submission with the time limit and the resources that the texts spell; what
    /// is not given stays as it is.
    pub fn with_texts(self, time: Option<&str>, rsc: Option<&str>) -> (r: Result<
        SbatchCmd,
        SchemaParseError,
    >)
        ensures
            match r {
                Ok(c) => {
                    &&& Self::texts_fault(time, rsc) is None
                    &&& c == (SbatchCmd { time_limit: c.time_limit, rsc: c.rsc, ..self })
                    &&& match time {
                        Some(t) => c.time_limit is Some && time_limit::parsed_limit(t@) == Ok::<
                            u32,
                            SchemaFault,
                        >(c.time_limit->0@),
                        None => c.time_limit == self.time_limit,
                    }
                    &&& match rsc {
                        Some(t) => c.rsc is Some && ResourceView::parsed(t@) == Ok::<
                            ResourceView,
                            SchemaFault,
                        >(c.rsc->0@),
                        None => c.rsc == self.rsc,
                    }
                },
                Err(e) => Self::texts_fault(time, rsc) == Some(e@),
            },
    {
        let mut cmd = self;
        if let Some(t) = time {
            match JobTimeLimit::from_str(t) {
                Ok(x) => {
                    cmd.time_limit = Some(x);
                },
                Err(e) => {
                    return Err(e);
                },
            }
        }
        if let Some(t) = rsc {
            match ResourceSpec::from_str(t) {
                Ok(x) => {
                    cmd.rsc = Some(x);
                },
                Err(e) => {
                    return Err(e);
                },
            }
        }
        Ok(cmd)
    }

    /// The command line, given the absolute paths and the payload of `--export`.
    pub fn argv_for(&self, chdir: Option<String>, export: Option<String>, script: String) -> (r:
        Vec<String>)
        ensures
            model::texts(r@) == self.command(opt_string(chdir), opt_string(export), script@),
    {
        let mut argv: Vec<String> = Vec::new();
        argv.push(self.sbatch_bin.clone());
        assert(model::texts(argv@) == seq![self.sbatch_bin@]);
        push_flag(&mut argv, "-J", copy_opt(&self.job_name));
        push_flag(&mut argv, "-p", copy_opt(&self.partition));
        push_flag(
            &mut argv,
            "-t",
            match &self.time_limit {
                Some(t) => Some(t.to_string()),
                None => None,
            },
        );
        let rsc = match &self.rsc {
            Some(r) => {
                let s = r.to_string();
                if s.as_str().is_empty() {
                    None
                } else {
                    Some(s)
                }
            },
            None => None,
        };
        push_flag(&mut argv, "--rsc", rsc);
        push_flag(&mut argv, "-o", copy_opt(&self.output));
        push_flag(&mut argv, "-e", copy_opt(&self.error));
        push_flag(&mut argv, "--chdir", chdir);
        push_joined(&mut argv, "--export=", export);
        push_joined(
            &mut argv,
            "--array=",
            match &self.array_spec {
                Some(a) => Some(a.to_string()),
                None => None,
            },
        );
        push_flag(
            &mut argv,
            "-d",
            match &self.dependency {
                Some(d) => Some(d.to_string()),
                None => None,
            },
        );
        push_flag(&mut argv, "--mail-user", copy_opt(&self.mail_user));
        push_flag(
            &mut argv,
            "--mail-type",
            match &self.mail_types {
                Some(m) => Some(m.to_string()),
                None => None,
            },
        );
        push_joined(
            &mut argv,
            "--signal=",
            match &self.signal {
                Some(s) => Some(s.to_string()),
                None => None,
            },
        );
        let ghost so_far = model::texts(argv@);
        if self.no_requeue {
            argv.push("--no-requeue".to_owned());
            assert(model::texts(argv@) == so_far + seq!["--no-requeue"@]);
        } else {
            assert(so_far + Seq::<Seq<char>>::empty() == so_far);
        }
        push_flag(&mut argv, "--comment", copy_opt(&self.comment));
        let ghost so_far = model::texts(argv@);
        argv.push(script);
        assert(model::texts(argv@) == so_far + seq![script@]);
        let ghost so_far = model::texts(argv@);
        let mut i: usize = 0;
        assert(so_far + model::texts(self.args@).take(0) == so_far);
        while i < self.args.len()
            invariant
                i <= self.args.len(),
                model::texts(argv@) == so_far + model::texts(self.args@).take(i as int),
            decreases self.args.len() - i,
        {
            let ghost before = argv@;
            argv.push(self.args[i].clone());
            i = i + 1;
            assert(model::texts(argv@) == model::texts(before).push(self.args@[i - 1]@));
            assert(model::texts(self.args@).take(i as int) == model::texts(self.args@).take(
                i - 1,
            ).push(self.args@[i - 1]@));
        }
        assert(model::texts(self.args@).take(i as int) == model::texts(self.args@));
        argv
    }

    /// The fault is that the path has, for that reason, no absolute form.
    pub open spec fn unresolved(path: Seq<char>, f: PathFault, fault: SpawnFault) -> bool {
        &&& path::no_absolute_form(path, f)
        &&& fault == SpawnFault::Other(path::path_message(path, f))
    }

    /// There is no directory to change to, or it has an absolute form.
    pub open spec fn chdir_resolves(self) -> bool {
        self.chdir is Some ==> exists|text: Seq<char>| #[trigger]
            path::absolute_form(self.chdir->0@, text)
    }

    /// The command line. The directory to change to and the script are made absolute, so
    /// what stands for them depends on the current directory of the process. The first of
    /// these is an error: a directory without an absolute form, a variable that would
    /// corrupt `--export`, a script without an absolute form.
    pub fn build_argv(&self) -> (r: Result<Vec<String>, SbatchSpawnError>)
        ensures
            match r {
                Ok(argv) => {
                    &&& self.script@.len() > 0
                    &&& self.chdir is Some ==> self.chdir->0@.len() > 0
                    &&& export_payload(self.env@) is Ok
                    &&& exists|chdir: Option<Seq<char>>, script: Seq<char>|
                        {
                            &&& chdir is Some <==> self.chdir is Some
                            &&& chdir is Some ==> chdir->0.len() > 0 && path::absolute_form(
                                self.chdir->0@,
                                chdir->0,
                            )
                            &&& script.len() > 0
                            &&& path::absolute_form(self.script@, script)
                            &&& model::texts(argv@) == #[trigger] self.command_at(chdir, script)
                        }
                },
                Err(e) => {
                    ||| self.chdir is Some && exists|f: PathFault| #[trigger]
                        SbatchCmd::unresolved(self.chdir->0@, f, e@)
                    ||| self.chdir_resolves() && export_payload(self.env@) == Err::<
                        Option<Seq<char>>,
                        SpawnFault,
                    >(e@)
                    ||| self.chdir_resolves() && export_payload(self.env@) is Ok && exists|
                        f: PathFault,
                    | #[trigger]
                        SbatchCmd::unresolved(self.script@, f, e@)
                },
            },
            self.chdir is None && export_payload(self.env@) is Err ==> r is Err && Err::<
                Option<Seq<char>>,
                SpawnFault,
            >(r->Err_0@) == export_payload(self.env@),
    {
        let chdir = match &self.chdir {
            Some(c) => match absolutize(c.as_str()) {
                Ok(s) => Some(s),
                Err(e) => {
                    let err = SbatchSpawnError::Other(e.to_string());
                    assert(SbatchCmd::unresolved(c@, e.fault, err@));
                    return Err(err);
                },
            },
            None => None,
        };
        let export = if self.env.is_empty() {
            None
        } else {
            match render_export(&self.env) {
                Ok(s) => Some(s),
                Err(e) => {
                    return Err(e);
                },
            }
        };
        let script = match absolutize(self.script.as_str()) {
            Ok(s) => s,
            Err(e) => {
                let err = SbatchSpawnError::Other(e.to_string());
                assert(SbatchCmd::unresolved(self.script@, e.fault, err@));
                return Err(err);
            },
        };
        let ghost c = opt_string(chdir);
        let ghost s = script@;
        let argv = self.argv_for(chdir, export, script);
        assert(model::texts(argv@) == self.command_at(c, s));
        Ok(argv)
    }

    /// The command line for the given absolute paths, where `--export` can be written.
    pub open spec fn command_at(self, chdir: Option<Seq<char>>, script: Seq<char>) -> Seq<
        Seq<char>,
    > {
        self.command(chdir, export_payload(self.env@)->Ok_0, script)
    }
}

/// The payload of `--export` depends on the variables alone, not on the order in which
/// they were set.
pub proof fn law_export_is_deterministic(a: Seq<env::Entry>, b: Seq<env::Entry>)
    requires
        env::sorted(a),
        env::sorted(b),
        env::values(a) == env::values(b),
    ensures
        export_payload(a) == export_payload(b),
{
    env::law_env_order_is_canonical(a, b);
}

/// `--export` is written exactly where no name and no value holds a comma or an equals
/// sign.
pub proof fn law_export_succeeds(entries: Seq<env::Entry>)
    ensures
        exported(entries) is Ok <==> forall|i: int|
            0 <= i < entries.len() ==> !corrupts((#[trigger] entries[i]).0) && !corrupts(
                entries[i].1,
            ),
    decreases entries.len(),
{
    if entries.len() > 0 {
        let rest = entries.drop_last();
        law_export_succeeds(rest);
        if exported(entries) is Ok {
            assert forall|i: int| 0 <= i < entries.len() implies !corrupts(
                (#[trigger] entries[i]).0,
            ) && !corrupts(entries[i].1) by {
                if i < rest.len() {
                    assert(rest[i] == entries[i]);
                }
            }
        } else if exported(rest) is Err {
            let i = choose|i: int|
                0 <= i < rest.len() && (corrupts((#[trigger] rest[i]).0) || corrupts(rest[i].1));
            assert(entries[i] == rest[i]);
        } else {
            assert(entries[entries.len() - 1] == entries.last());
        }
    }
}

/// The variables can be read back from the payload of `--export`: between its commas
/// stand `ALL` and, in order, each name with an equals sign and the value.
pub proof fn law_export_reads_back(entries: Seq<env::Entry>)
    requires
        exported(entries) is Ok,
    ensures
        ({
            let parts = model::split(exported(entries)->Ok_0, ',');
            &&& parts.len() == entries.len() + 1
            &&& parts[0] == "ALL"@
            &&& forall|i: int|
                0 <= i < entries.len() ==> model::split_once(#[trigger] parts[i + 1], '=') == Some(
                    entries[i],
                )
        }),
    decreases entries.len(),
{
    if entries.len() == 0 {
        reveal_strlit("ALL");
        assert(!"ALL"@.contains(','));
        lemmas::lemma_split_none("ALL"@, ',');
    } else {
        let before = entries.drop_last();
        let (key, value) = entries.last();
        law_export_reads_back(before);
        let head = exported(before)->Ok_0;
        let part = key + seq!['='] + value;
        assert(!part.contains(',')) by {
            if part.contains(',') {
                let i = choose|i: int| 0 <= i < part.len() && part[i] == ',';
                if i < key.len() {
                    assert(key[i] == ',');
                } else if i > key.len() {
                    assert(value[i - key.len() - 1] == ',');
                }
            }
        }
        lemmas::lemma_split_push(head, ',', part);
        assert(head + seq![','] + key + seq!['='] + value == head + seq![','] + part);
        lemmas::lemma_split_some(key, '=', value);
        let parts = model::split(exported(entries)->Ok_0, ',');
        let earlier = model::split(head, ',');
        assert forall|i: int| 0 <= i < entries.len() implies model::split_once(
            #[trigger] parts[i + 1],
            '=',
        ) == Some(entries[i]) by {
            if i < before.len() {
                assert(parts[i + 1] == earlier[i + 1]);
                assert(entries[i] == before[i]);
            }
        }
    }
}

/// Among the words behind the command and before `end`, the option and its value stand
/// next to each other.
#[verifier::opaque]
pub open spec fn has_option(a: Seq<Seq<char>>, end: int, name: Seq<char>, value: Seq<char>) -> bool {
    exists|i: int| 1 <= i && i + 1 < end && #[trigger] a[i] == name && a[i + 1] == value
}

/// Among the words behind the command and before `end` stands this one.
#[verifier::opaque]
pub open spec fn has_word(a: Seq<Seq<char>>, end: int, word: Seq<char>) -> bool {
    exists|i: int| 1 <= i < end && #[trigger] a[i] == word
}

/// How many words an option takes.
#[verifier::opaque]
pub open spec fn words_of(set: bool, words: int) -> int {
    if set {
        words
    } else {
        0
    }
}

/// The list starts with these words.
#[verifier::opaque]
spec fn is_prefix(p: Seq<Seq<char>>, a: Seq<Seq<char>>) -> bool {
    p.len() <= a.len() && forall|i: int| 0 <= i < p.len() ==> #[trigger] a[i] == p[i]
}

/// An option at the end of a prefix is in the list, and what stands before it is a prefix.
proof fn lemma_option(
    a: Seq<Seq<char>>,
    end: int,
    p: Seq<Seq<char>>,
    name: Seq<char>,
    value: Option<Seq<char>>,
)
    requires
        p.len() >= 1,
        is_prefix(p + flag(name, value), a),
        (p + flag(name, value)).len() <= end,
    ensures
        is_prefix(p, a),
        p.len() <= end,
        (p + flag(name, value)).len() == p.len() + words_of(value is Some, 2),
        value matches Some(v) ==> has_option(a, end, name, v),
{
    reveal(words_of);
    reveal(is_prefix);
    reveal(has_option);
    let q = p + flag(name, value);
    assert forall|i: int| 0 <= i < p.len() implies #[trigger] a[i] == p[i] by {
        assert(q[i] == p[i]);
    }
    if value is Some {
        let i = p.len() as int;
        assert(a[i] == q[i]);
        assert(a[i + 1] == q[i + 1]);
    }
}

/// The same of an option in one word.
proof fn lemma_word(
    a: Seq<Seq<char>>,
    end: int,
    p: Seq<Seq<char>>,
    prefix: Seq<char>,
    value: Option<Seq<char>>,
)
    requires
        p.len() >= 1,
        is_prefix(p + joined_flag(prefix, value), a),
        (p + joined_flag(prefix, value)).len() <= end,
    ensures
        is_prefix(p, a),
        p.len() <= end,
        (p + joined_flag(prefix, value)).len() == p.len() + words_of(value is Some, 1),
        value matches Some(v) ==> has_word(a, end, prefix + v),
{
    reveal(words_of);
    reveal(is_prefix);
    reveal(has_word);
    let q = p + joined_flag(prefix, value);
    assert forall|i: int| 0 <= i < p.len() implies #[trigger] a[i] == p[i] by {
        assert(q[i] == p[i]);
    }
    if value is Some {
        let i = p.len() as int;
        assert(a[i] == q[i]);
    }
}

/// The same of an option without value.
proof fn lemma_switch(
    a: Seq<Seq<char>>,
    end: int,
    p: Seq<Seq<char>>,
    word: Seq<char>,
    on: bool,
)
    requires
        p.len() >= 1,
        is_prefix(
            p + (if on {
                seq![word]
            } else {
                Seq::empty()
            }),
            a,
        ),
        (p + (if on {
            seq![word]
        } else {
            Seq::empty()
        })).len() <= end,
    ensures
        is_prefix(p, a),
        p.len() <= end,
        (p + (if on {
            seq![word]
        } else {
            Seq::empty()
        })).len() == p.len() + words_of(on, 1),
        on ==> has_word(a, end, word),
{
    reveal(words_of);
    reveal(is_prefix);
    reveal(has_word);
    let q = p + (if on {
        seq![word]
    } else {
        Seq::empty()
    });
    assert forall|i: int| 0 <= i < p.len() implies #[trigger] a[i] == p[i] by {
        assert(q[i] == p[i]);
    }
    if on {
        let i = p.len() as int;
        assert(a[i] == q[i]);
    }
}

/// The words of a list that ends with the script and the arguments.
proof fn lemma_script(a: Seq<Seq<char>>, p: Seq<Seq<char>>, script: Seq<char>, args: Seq<Seq<char>>)
    requires
        a == p + seq![script] + args,
    ensures
        is_prefix(p, a),
        a.len() == p.len() + 1 + args.len(),
        a[p.len() as int] == script,
        forall|i: int| 0 <= i < args.len() ==> #[trigger] args[i] == a[p.len() + 1 + i],
{
    reveal(is_prefix);
}

/// The first word of a prefix is that of the list.
proof fn lemma_first_word_of(a: Seq<Seq<char>>, word: Seq<char>)
    requires
        is_prefix(seq![word], a),
    ensures
        a.len() >= 1,
        a[0] == word,
{
    reveal(is_prefix);
    assert(seq![word][0] == word);
}

/// The first options of a command line.
#[verifier::spinoff_prover]
proof fn lemma_first_options(
    a: Seq<Seq<char>>,
    end: int,
    p: Seq<Seq<char>>,
    q: Seq<Seq<char>>,
    job_name: Option<Seq<char>>,
    partition: Option<Seq<char>>,
    time: Option<Seq<char>>,
    rsc: Option<Seq<char>>,
    output: Option<Seq<char>>,
)
    requires
        p.len() >= 1,
        q == p + flag("-J"@, job_name) + flag("-p"@, partition) + flag("-t"@, time) + flag("--rsc"@, rsc) + flag("-o"@, output),
        is_prefix(q, a),
        q.len() <= end,
    ensures
        is_prefix(p, a),
        p.len() <= end,
        q.len() == p.len() + words_of(job_name is Some, 2) + words_of(partition is Some, 2) + words_of(time is Some, 2) + words_of(rsc is Some, 2) + words_of(output is Some, 2),
        job_name matches Some(v) ==> has_option(a, end, "-J"@, v),
        partition matches Some(v) ==> has_option(a, end, "-p"@, v),
        time matches Some(v) ==> has_option(a, end, "-t"@, v),
        rsc matches Some(v) ==> has_option(a, end, "--rsc"@, v),
        output matches Some(v) ==> has_option(a, end, "-o"@, v),
{
    let c1 = p + flag("-J"@, job_name);
    let c2 = c1 + flag("-p"@, partition);
    let c3 = c2 + flag("-t"@, time);
    let c4 = c3 + flag("--rsc"@, rsc);
    let c5 = c4 + flag("-o"@, output);
    lemma_option(a, end, c4, "-o"@, output);
    lemma_option(a, end, c3, "--rsc"@, rsc);
    lemma_option(a, end, c2, "-t"@, time);
    lemma_option(a, end, c1, "-p"@, partition);
    lemma_option(a, end, p, "-J"@, job_name);
}

/// The middle options of a command line.
#[verifier::spinoff_prover]
proof fn lemma_middle_options(
    a: Seq<Seq<char>>,
    end: int,
    p: Seq<Seq<char>>,
    q: Seq<Seq<char>>,
    error: Option<Seq<char>>,
    chdir: Option<Seq<char>>,
    export: Option<Seq<char>>,
    array: Option<Seq<char>>,
    dependency: Option<Seq<char>>,
)
    requires
        p.len() >= 1,
        q == p + flag("-e"@, error) + flag("--chdir"@, chdir) + joined_flag("--export="@, export) + joined_flag("--array="@, array) + flag("-d"@, dependency),
        is_prefix(q, a),
        q.len() <= end,
    ensures
        is_prefix(p, a),
        p.len() <= end,
        q.len() == p.len() + words_of(error is Some, 2) + words_of(chdir is Some, 2) + words_of(export is Some, 1) + words_of(array is Some, 1) + words_of(dependency is Some, 2),
        error matches Some(v) ==> has_option(a, end, "-e"@, v),
        chdir matches Some(v) ==> has_option(a, end, "--chdir"@, v),
        export matches Some(v) ==> has_word(a, end, "--export="@ + v),
        array matches Some(v) ==> has_word(a, end, "--array="@ + v),
        dependency matches Some(v) ==> has_option(a, end, "-d"@, v),
{
    let c1 = p + flag("-e"@, error);
    let c2 = c1 + flag("--chdir"@, chdir);
    let c3 = c2 + joined_flag("--export="@, export);
    let c4 = c3 + joined_flag("--array="@, array);
    let c5 = c4 + flag("-d"@, dependency);
    lemma_option(a, end, c4, "-d"@, dependency);
    lemma_word(a, end, c3, "--array="@, array);
    lemma_word(a, end, c2, "--export="@, export);
    lemma_option(a, end, c1, "--chdir"@, chdir);
    lemma_option(a, end, p, "-e"@, error);
}

/// The last options of a command line.
#[verifier::spinoff_prover]
proof fn lemma_last_options(
    a: Seq<Seq<char>>,
    end: int,
    p: Seq<Seq<char>>,
    q: Seq<Seq<char>>,
    mail_user: Option<Seq<char>>,
    mail_types: Option<Seq<char>>,
    signal: Option<Seq<char>>,
    no_requeue: bool,
    comment: Option<Seq<char>>,
)
    requires
        p.len() >= 1,
        q == p + flag("--mail-user"@, mail_user) + flag("--mail-type"@, mail_types) + joined_flag("--signal="@, signal) + (if no_requeue {
            seq!["--no-requeue"@]
        } else {
            Seq::empty()
        }) + flag("--comment"@, comment),
        is_prefix(q, a),
        q.len() <= end,
    ensures
        is_prefix(p, a),
        p.len() <= end,
        q.len() == p.len() + words_of(mail_user is Some, 2) + words_of(mail_types is Some, 2) + words_of(signal is Some, 1) + words_of(no_requeue, 1) + words_of(comment is Some, 2),
        mail_user matches Some(v) ==> has_option(a, end, "--mail-user"@, v),
        mail_types matches Some(v) ==> has_option(a, end, "--mail-type"@, v),
        signal matches Some(v) ==> has_word(a, end, "--signal="@ + v),
        no_requeue ==> has_word(a, end, "--no-requeue"@),
        comment matches Some(v) ==> has_option(a, end, "--comment"@, v),
{
    let c1 = p + flag("--mail-user"@, mail_user);
    let c2 = c1 + flag("--mail-type"@, mail_types);
    let c3 = c2 + joined_flag("--signal="@, signal);
    let c4 = c3 + (if no_requeue {
            seq!["--no-requeue"@]
        } else {
            Seq::empty()
        });
    let c5 = c4 + flag("--comment"@, comment);
    lemma_option(a, end, c4, "--comment"@, comment);
    lemma_switch(a, end, c3, "--no-requeue"@, no_requeue);
    lemma_word(a, end, c2, "--signal="@, signal);
    lemma_option(a, end, c1, "--mail-type"@, mail_types);
    lemma_option(a, end, p, "--mail-user"@, mail_user);
}

/// The words that a command line starts with.
#[verifier::opaque]
spec fn lower_words(
    bin: Seq<char>,
    job_name: Option<Seq<char>>,
    partition: Option<Seq<char>>,
    time: Option<Seq<char>>,
    rsc: Option<Seq<char>>,
    output: Option<Seq<char>>,
    error: Option<Seq<char>>,
    chdir: Option<Seq<char>>,
    export: Option<Seq<char>>,
    array: Option<Seq<char>>,
    dependency: Option<Seq<char>>,
) -> Seq<Seq<char>> {
    seq![bin] + flag("-J"@, job_name) + flag("-p"@, partition) + flag("-t"@, time) + flag("--rsc"@, rsc) + flag("-o"@, output) + flag("-e"@, error) + flag("--chdir"@, chdir) + joined_flag("--export="@, export) + joined_flag("--array="@, array) + flag("-d"@, dependency)
}

/// The words that a command line goes on with.
#[verifier::opaque]
spec fn upper_words(
    p: Seq<Seq<char>>,
    mail_user: Option<Seq<char>>,
    mail_types: Option<Seq<char>>,
    signal: Option<Seq<char>>,
    no_requeue: bool,
    comment: Option<Seq<char>>,
    script: Seq<char>,
    args: Seq<Seq<char>>,
) -> Seq<Seq<char>> {
    p + flag("--mail-user"@, mail_user) + flag("--mail-type"@, mail_types) + joined_flag("--signal="@, signal) + (if no_requeue {
        seq!["--no-requeue"@]
    } else {
        Seq::empty()
    }) + flag("--comment"@, comment) + seq![script] + args
}

/// Where the words of the end stand.
#[verifier::spinoff_prover]
proof fn lemma_upper_words(
    a: Seq<Seq<char>>,
    end: int,
    p: Seq<Seq<char>>,
    mail_user: Option<Seq<char>>,
    mail_types: Option<Seq<char>>,
    signal: Option<Seq<char>>,
    no_requeue: bool,
    comment: Option<Seq<char>>,
    script: Seq<char>,
    args: Seq<Seq<char>>,
)
    requires
        p.len() >= 1,
        a == upper_words(p, mail_user, mail_types, signal, no_requeue, comment, script, args),
        end == a.len() - 1 - args.len(),
    ensures
        is_prefix(p, a),
        p.len() <= end < a.len(),
        a[end] == script,
        forall|i: int| 0 <= i < args.len() ==> #[trigger] args[i] == a[end + 1 + i],
        end == p.len() + words_of(mail_user is Some, 2) + words_of(mail_types is Some, 2) + words_of(signal is Some, 1) + words_of(no_requeue, 1) + words_of(comment is Some, 2),
        mail_user matches Some(v) ==> has_option(a, end, "--mail-user"@, v),
        mail_types matches Some(v) ==> has_option(a, end, "--mail-type"@, v),
        signal matches Some(v) ==> has_word(a, end, "--signal="@ + v),
        no_requeue ==> has_word(a, end, "--no-requeue"@),
        comment matches Some(v) ==> has_option(a, end, "--comment"@, v),
{
    reveal(upper_words);
    let q = p + flag("--mail-user"@, mail_user) + flag("--mail-type"@, mail_types) + joined_flag("--signal="@, signal) + (if no_requeue {
        seq!["--no-requeue"@]
    } else {
        Seq::empty()
    }) + flag("--comment"@, comment);
    lemma_script(a, q, script, args);
    lemma_last_options(a, end, p, q, mail_user, mail_types, signal, no_requeue, comment);
}

/// Where the words of the start stand.
#[verifier::spinoff_prover]
proof fn lemma_lower_words(
    a: Seq<Seq<char>>,
    end: int,
    bin: Seq<char>,
    job_name: Option<Seq<char>>,
    partition: Option<Seq<char>>,
    time: Option<Seq<char>>,
    rsc: Option<Seq<char>>,
    output: Option<Seq<char>>,
    error: Option<Seq<char>>,
    chdir: Option<Seq<char>>,
    export: Option<Seq<char>>,
    array: Option<Seq<char>>,
    dependency: Option<Seq<char>>,
)
    requires
        is_prefix(lower_words(bin, job_name, partition, time, rsc, output, error, chdir, export, array, dependency), a),
        lower_words(bin, job_name, partition, time, rsc, output, error, chdir, export, array, dependency).len() <= end,
    ensures
        a.len() >= 1,
        a[0] == bin,
        lower_words(bin, job_name, partition, time, rsc, output, error, chdir, export, array, dependency).len() == 1 + words_of(job_name is Some, 2) + words_of(partition is Some, 2) + words_of(time is Some, 2) + words_of(rsc is Some, 2) + words_of(output is Some, 2) + words_of(error is Some, 2) + words_of(chdir is Some, 2) + words_of(export is Some, 1) + words_of(array is Some, 1) + words_of(dependency is Some, 2),
        job_name matches Some(v) ==> has_option(a, end, "-J"@, v),
        partition matches Some(v) ==> has_option(a, end, "-p"@, v),
        time matches Some(v) ==> has_option(a, end, "-t"@, v),
        rsc matches Some(v) ==> has_option(a, end, "--rsc"@, v),
        output matches Some(v) ==> has_option(a, end, "-o"@, v),
        error matches Some(v) ==> has_option(a, end, "-e"@, v),
        chdir matches Some(v) ==> has_option(a, end, "--chdir"@, v),
        export matches Some(v) ==> has_word(a, end, "--export="@ + v),
        array matches Some(v) ==> has_word(a, end, "--array="@ + v),
        dependency matches Some(v) ==> has_option(a, end, "-d"@, v),
{
    reveal(lower_words);
    let c0 = seq![bin];
    let p = c0 + flag("-J"@, job_name) + flag("-p"@, partition) + flag("-t"@, time) + flag("--rsc"@, rsc) + flag("-o"@, output);
    let q = p + flag("-e"@, error) + flag("--chdir"@, chdir) + joined_flag("--export="@, export) + joined_flag("--array="@, array) + flag("-d"@, dependency);
    lemma_middle_options(a, end, p, q, error, chdir, export, array, dependency);
    lemma_first_options(a, end, c0, p, job_name, partition, time, rsc, output);
    lemma_first_word_of(a, bin);
}

/// There is at least the command.
proof fn lemma_lower_len(
    bin: Seq<char>,
    job_name: Option<Seq<char>>,
    partition: Option<Seq<char>>,
    time: Option<Seq<char>>,
    rsc: Option<Seq<char>>,
    output: Option<Seq<char>>,
    error: Option<Seq<char>>,
    chdir: Option<Seq<char>>,
    export: Option<Seq<char>>,
    array: Option<Seq<char>>,
    dependency: Option<Seq<char>>,
)
    ensures
        lower_words(bin, job_name, partition, time, rsc, output, error, chdir, export, array, dependency).len() >= 1,
{
    reveal(lower_words);
}

/// The command line in two parts.
#[verifier::spinoff_prover]
proof fn lemma_command_parts(
    cmd: SbatchCmd,
    chdir: Option<Seq<char>>,
    export: Option<Seq<char>>,
    script: Seq<char>,
)
    ensures
        cmd.command(chdir, export, script) == upper_words(
            lower_words(cmd.sbatch_bin@, opt_string(cmd.job_name), opt_string(cmd.partition), cmd.time_text(), cmd.rsc_text(), opt_string(cmd.output), opt_string(cmd.error), chdir, export, cmd.array_text(), cmd.dependency_text()),
            opt_string(cmd.mail_user), cmd.mail_types_text(), cmd.signal_text(), cmd.no_requeue, opt_string(cmd.comment),
            script,
            model::texts(cmd.args@),
        ),
{
    reveal(lower_words);
    reveal(upper_words);
}

/// Where the words of a command line stand.
#[verifier::spinoff_prover]
proof fn lemma_shape(
    a: Seq<Seq<char>>,
    end: int,
    bin: Seq<char>,
    job_name: Option<Seq<char>>,
    partition: Option<Seq<char>>,
    time: Option<Seq<char>>,
    rsc: Option<Seq<char>>,
    output: Option<Seq<char>>,
    error: Option<Seq<char>>,
    chdir: Option<Seq<char>>,
    export: Option<Seq<char>>,
    array: Option<Seq<char>>,
    dependency: Option<Seq<char>>,
    mail_user: Option<Seq<char>>,
    mail_types: Option<Seq<char>>,
    signal: Option<Seq<char>>,
    no_requeue: bool,
    comment: Option<Seq<char>>,
    script: Seq<char>,
    args: Seq<Seq<char>>,
)
    requires
        a == upper_words(
            lower_words(bin, job_name, partition, time, rsc, output, error, chdir, export, array, dependency),
            mail_user, mail_types, signal, no_requeue, comment,
            script,
            args,
        ),
        end == a.len() - 1 - args.len(),
    ensures
        1 <= end < a.len(),
        a[0] == bin,
        a[end] == script,
        forall|i: int| 0 <= i < args.len() ==> #[trigger] args[i] == a[end + 1 + i],
        end == 1 + words_of(job_name is Some, 2) + words_of(partition is Some, 2) + words_of(time is Some, 2) + words_of(rsc is Some, 2) + words_of(output is Some, 2) + words_of(error is Some, 2) + words_of(chdir is Some, 2) + words_of(export is Some, 1) + words_of(array is Some, 1) + words_of(dependency is Some, 2) + words_of(mail_user is Some, 2) + words_of(mail_types is Some, 2) + words_of(signal is Some, 1) + words_of(no_requeue, 1) + words_of(comment is Some, 2),
        job_name matches Some(v) ==> has_option(a, end, "-J"@, v),
        partition matches Some(v) ==> has_option(a, end, "-p"@, v),
        time matches Some(v) ==> has_option(a, end, "-t"@, v),
        rsc matches Some(v) ==> has_option(a, end, "--rsc"@, v),
        output matches Some(v) ==> has_option(a, end, "-o"@, v),
        error matches Some(v) ==> has_option(a, end, "-e"@, v),
        chdir matches Some(v) ==> has_option(a, end, "--chdir"@, v),
        export matches Some(v) ==> has_word(a, end, "--export="@ + v),
        array matches Some(v) ==> has_word(a, end, "--array="@ + v),
        dependency matches Some(v) ==> has_option(a, end, "-d"@, v),
        mail_user matches Some(v) ==> has_option(a, end, "--mail-user"@, v),
        mail_types matches Some(v) ==> has_option(a, end, "--mail-type"@, v),
        signal matches Some(v) ==> has_word(a, end, "--signal="@ + v),
        no_requeue ==> has_word(a, end, "--no-requeue"@),
        comment matches Some(v) ==> has_option(a, end, "--comment"@, v),
{
    let p = lower_words(bin, job_name, partition, time, rsc, output, error, chdir, export, array, dependency);
    lemma_lower_len(bin, job_name, partition, time, rsc, output, error, chdir, export, array, dependency);
    lemma_upper_words(a, end, p, mail_user, mail_types, signal, no_requeue, comment, script, args);
    lemma_lower_words(a, end, bin, job_name, partition, time, rsc, output, error, chdir, export, array, dependency);
}

/// The words are those of a command line: the command, then the options, then the script
/// and last the arguments of the script. Every option that is set stands before the script,
/// with its value behind it or in the same word, and what is not set takes no word.
pub open spec fn is_command_line(
    cmd: SbatchCmd,
    chdir: Option<Seq<char>>,
    export: Option<Seq<char>>,
    script: Seq<char>,
    a: Seq<Seq<char>>,
) -> bool {
    let end = a.len() - 1 - cmd.args@.len();
    &&& 1 <= end < a.len()
    &&& a[0] == cmd.sbatch_bin@
    &&& a[end] == script
    &&& forall|i: int|
        0 <= i < cmd.args@.len() ==> a[end + 1 + i] == (#[trigger] cmd.args@[i])@
    &&& cmd.job_name matches Some(v) ==> has_option(a, end, "-J"@, v@)
    &&& cmd.partition matches Some(v) ==> has_option(a, end, "-p"@, v@)
    &&& cmd.time_limit matches Some(v) ==> has_option(a, end, "-t"@, time_limit::limit_text(v@))
    &&& cmd.rsc matches Some(v) ==> v@.text().len() > 0 ==> has_option(a, end, "--rsc"@, v@.text())
    &&& cmd.output matches Some(v) ==> has_option(a, end, "-o"@, v@)
    &&& cmd.error matches Some(v) ==> has_option(a, end, "-e"@, v@)
    &&& chdir matches Some(v) ==> has_option(a, end, "--chdir"@, v)
    &&& export matches Some(v) ==> has_word(a, end, "--export="@ + v)
    &&& cmd.array_spec matches Some(v) ==> has_word(a, end, "--array="@ + v@.text())
    &&& cmd.dependency matches Some(v) ==> has_option(a, end, "-d"@, v@.text())
    &&& cmd.mail_user matches Some(v) ==> has_option(a, end, "--mail-user"@, v@)
    &&& cmd.mail_types matches Some(v) ==> has_option(a, end, "--mail-type"@, mail::mail_types_text(v@))
    &&& cmd.signal matches Some(v) ==> has_word(a, end, "--signal="@ + v@.text())
    &&& cmd.no_requeue ==> has_word(a, end, "--no-requeue"@)
    &&& cmd.comment matches Some(v) ==> has_option(a, end, "--comment"@, v@)
    &&& end == 1 + words_of(cmd.job_name is Some, 2)
        + words_of(cmd.partition is Some, 2)
        + words_of(cmd.time_limit is Some, 2)
        + words_of(cmd.rsc is Some && cmd.rsc->0@.text().len() > 0, 2)
        + words_of(cmd.output is Some, 2)
        + words_of(cmd.error is Some, 2)
        + words_of(chdir is Some, 2)
        + words_of(export is Some, 1)
        + words_of(cmd.array_spec is Some, 1)
        + words_of(cmd.dependency is Some, 2)
        + words_of(cmd.mail_user is Some, 2)
        + words_of(cmd.mail_types is Some, 2)
        + words_of(cmd.signal is Some, 1)
        + words_of(cmd.no_requeue, 1)
        + words_of(cmd.comment is Some, 2)
}

/// The words of the command line are where they should be.
#[verifier::spinoff_prover]
proof fn lemma_command_line(
    cmd: SbatchCmd,
    chdir: Option<Seq<char>>,
    export: Option<Seq<char>>,
    script: Seq<char>,
    a: Seq<Seq<char>>,
)
    requires
        a == cmd.command(chdir, export, script),
    ensures
        is_command_line(cmd, chdir, export, script, a),
{
    let end = a.len() - 1 - cmd.args@.len();
    lemma_command_parts(cmd, chdir, export, script);
    lemma_shape(
        a,
        end,
        cmd.sbatch_bin@,
        opt_string(cmd.job_name),
        opt_string(cmd.partition),
        cmd.time_text(),
        cmd.rsc_text(),
        opt_string(cmd.output),
        opt_string(cmd.error),
        chdir,
        export,
        cmd.array_text(),
        cmd.dependency_text(),
        opt_string(cmd.mail_user),
        cmd.mail_types_text(),
        cmd.signal_text(),
        cmd.no_requeue,
        opt_string(cmd.comment),
        script,
        model::texts(cmd.args@),
    );
    assert forall|i: int| 0 <= i < cmd.args@.len() implies a[end + 1 + i] == (
    #[trigger] cmd.args@[i])@ by {
        assert(model::texts(cmd.args@)[i] == a[end + 1 + i]);
    }
}

/// The command line is the command, then the options, then the script and last the
/// arguments of the script. Every option that is set stands before the script, with its
/// value behind it or in the same word, and what is not set takes no word.
pub proof fn law_options_stand_before_the_script(
    cmd: SbatchCmd,
    chdir: Option<String>,
    export: Option<String>,
    script: String,
    r: Vec<String>,
)
    requires
        call_ensures(SbatchCmd::argv_for, (&cmd, chdir, export, script), r),
    ensures
        is_command_line(
            cmd,
            opt_string(chdir),
            opt_string(export),
            script@,
            model::texts(r@),
        ),
{
    lemma_command_line(
        cmd,
        opt_string(chdir),
        opt_string(export),
        script@,
        model::texts(r@),
    );
}

/// The command line of a submission names the absolute form of the script and, where one is
/// set, that of the directory; where there are variables, it exports them.
pub proof fn law_submission_command_line(cmd: SbatchCmd, r: Vec<String>)
    requires
        call_ensures(SbatchCmd::build_argv, (&cmd,), Ok::<Vec<String>, SbatchSpawnError>(r)),
    ensures
        exists|chdir: Option<Seq<char>>, export: Option<Seq<char>>, script: Seq<char>|
            {
                &&& path::absolute_form(cmd.script@, script)
                &&& chdir is Some <==> cmd.chdir is Some
                &&& chdir is Some ==> path::absolute_form(cmd.chdir->0@, chdir->0)
                &&& export is Some <==> cmd.env@.len() > 0
                &&& export is Some ==> exports(cmd.env@, export->0)
                &&& #[trigger] is_command_line(cmd, chdir, export, script, model::texts(r@))
            },
{
    let a = model::texts(r@);
    let (chdir, script) = choose|chdir: Option<Seq<char>>, script: Seq<char>|
        {
            &&& chdir is Some <==> cmd.chdir is Some
            &&& chdir is Some ==> chdir->0.len() > 0 && path::absolute_form(
                cmd.chdir->0@,
                chdir->0,
            )
            &&& script.len() > 0
            &&& path::absolute_form(cmd.script@, script)
            &&& a == #[trigger] cmd.command_at(chdir, script)
        };
    let export = export_payload(cmd.env@)->Ok_0;
    if cmd.env@.len() > 0 {
        law_export_reads_back(cmd.env@);
        let text = export->0;
        let parts = model::split(text, ',');
        assert forall|i: int| 0 <= i < cmd.env@.len() implies #[trigger] parts[i + 1]
            == cmd.env@[i].0 + seq!['='] + cmd.env@[i].1 by {
            let part = parts[i + 1];
            assert(model::split_once(part, '=') == Some(cmd.env@[i]));
            lemmas::lemma_first(part, '=');
            let n = model::first(part, '=') as int;
            assert(part == part.take(n) + seq!['='] + part.skip(n + 1));
        }
        assert(exports(cmd.env@, text));
    }
    lemma_command_line(cmd, chdir, export, script, a);
}

/// Between the commas of the text stand `ALL` and, in order, each name with an equals sign
/// and the value.
pub open spec fn exports(entries: Seq<env::Entry>, text: Seq<char>) -> bool {
    let parts = model::split(text, ',');
    &&& parts.len() == entries.len() + 1
    &&& parts[0] == "ALL"@
    &&& forall|i: int|
        0 <= i < entries.len() ==> #[trigger] parts[i + 1] == entries[i].0 + seq!['=']
            + entries[i].1
}

/// The first variable that would corrupt `--export` is reported: by its name where that is
/// what corrupts it, else by its name and value.
pub proof fn law_first_corrupting_variable_is_reported(
    env: EnvMap,
    r: Result<String, SbatchSpawnError>,
    n: int,
)
    requires
        call_ensures(render_export, (&env,), r),
        0 <= n <= env@.len(),
        forall|i: int|
            0 <= i < n ==> !(#[trigger] env@[i]).0.contains(',') && !env@[i].0.contains('=')
                && !env@[i].1.contains(',') && !env@[i].1.contains('='),
    ensures
        n == env@.len() ==> (r matches Ok(text) && {
            &&& model::split(text@, ',').len() == env@.len() + 1
            &&& model::split(text@, ',')[0] == "ALL"@
            &&& forall|i: int|
                0 <= i < env@.len() ==> model::split_once(
                    #[trigger] model::split(text@, ',')[i + 1],
                    '=',
                ) == Some(env@[i])
        }),
        n < env@.len() && (env@[n].0.contains(',') || env@[n].0.contains('=')) ==> (
        r matches Err(SbatchSpawnError::InvalidExportKey { key }) && key@ == env@[n].0),
        n < env@.len() && !env@[n].0.contains(',') && !env@[n].0.contains('=') && (
        env@[n].1.contains(',') || env@[n].1.contains('=')) ==> (
        r matches Err(SbatchSpawnError::InvalidExportValue { key, value }) && key@ == env@[n].0
            && value@ == env@[n].1),
{
    let entries = env@;
    let head = entries.take(n);
    law_export_succeeds(head);
    assert forall|i: int| 0 <= i < head.len() implies !corrupts((#[trigger] head[i]).0)
        && !corrupts(head[i].1) by {
        assert(head[i] == entries[i]);
    }
    if n == entries.len() {
        assert(head == entries);
        law_export_reads_back(entries);
    } else {
        let more = entries.take(n + 1);
        assert(more.drop_last() == head);
        assert(more.last() == entries[n]);
        if exported(more) is Err {
            lemma_exported_err(entries, n + 1);
        }
    }
}

/// A submission without further ado is `sbatch` with the script.
pub proof fn law_plain_submission(script: &str, cmd: SbatchCmd, path: String, r: Vec<String>)
    requires
        call_ensures(SbatchCmd::new, (script,), cmd),
        call_ensures(SbatchCmd::argv_for, (&cmd, None::<String>, None::<String>, path), r),
    ensures
        cmd.script@ == script@,
        cmd.env@.len() == 0,
        cmd.chdir is None,
        model::texts(r@) == seq!["sbatch"@, path@],
{
    law_options_stand_before_the_script(cmd, None, None, path, r);
    reveal(words_of);
    let a = model::texts(r@);
    assert(a.len() == 2);
    assert(a =~= seq!["sbatch"@, path@]);
}

/// The texts of a time limit and of resources set these two options, as they are read on
/// their own, and leave all others as they are; the first text that cannot be read is
/// reported.
pub proof fn law_texts_set_their_options(
    cmd: SbatchCmd,
    time: Option<&str>,
    rsc: Option<&str>,
    r: Result<SbatchCmd, SchemaParseError>,
    t: Result<JobTimeLimit, SchemaParseError>,
    q: Result<ResourceSpec, SchemaParseError>,
)
    requires
        call_ensures(SbatchCmd::with_texts, (cmd, time, rsc), r),
        time matches Some(x) ==> call_ensures(JobTimeLimit::from_str, (x,), t),
        rsc matches Some(x) ==> call_ensures(ResourceSpec::from_str, (x,), q),
    ensures
        match r {
            Ok(c) => {
                &&& time is Some ==> t is Ok && c.time_limit is Some && c.time_limit->0@
                    == t->Ok_0@
                &&& time is None ==> c.time_limit == cmd.time_limit
                &&& rsc is Some ==> q is Ok && c.rsc is Some && c.rsc->0@ == q->Ok_0@
                &&& rsc is None ==> c.rsc == cmd.rsc
                &&& c == (SbatchCmd { time_limit: c.time_limit, rsc: c.rsc, ..cmd })
            },
            Err(e) => if time is Some && t is Err {
                e@ == t->Err_0@
            } else {
                rsc is Some && q is Err && e@ == q->Err_0@
            },
        },
{
}

/// The name or the value of the variable has a comma or an equals sign.
pub open spec fn is_bad_variable(v: env::Entry) -> bool {
    v.0.contains(',') || v.0.contains('=') || v.1.contains(',') || v.1.contains('=')
}

/// A submission without directory whose first bad variable is the one at `n` is refused for
/// that variable; with no bad variable it is refused for the script alone, and then with the
/// reason why that has no absolute form. With a bad variable no submission goes out.
pub proof fn law_refused_submissions(
    cmd: SbatchCmd,
    r: Result<Vec<String>, SbatchSpawnError>,
    n: int,
)
    requires
        call_ensures(SbatchCmd::build_argv, (&cmd,), r),
        0 <= n <= cmd.env@.len(),
        forall|i: int| 0 <= i < n ==> !is_bad_variable(#[trigger] cmd.env@[i]),
        n < cmd.env@.len() ==> is_bad_variable(cmd.env@[n]),
    ensures
        n < cmd.env@.len() ==> r is Err,
        n < cmd.env@.len() && cmd.chdir is None ==> {
            let (key, value) = cmd.env@[n];
            if key.contains(',') || key.contains('=') {
                r matches Err(SbatchSpawnError::InvalidExportKey { key: k }) && k@ == key
            } else {
                r matches Err(SbatchSpawnError::InvalidExportValue { key: k, value: v }) && k@
                    == key && v@ == value
            }
        },
        n == cmd.env@.len() && cmd.chdir is None ==> (r matches Err(e) ==> exists|f: PathFault|
            {
                &&& #[trigger] path::no_absolute_form(cmd.script@, f)
                &&& e matches SbatchSpawnError::Other(m) && m@ == path::path_message(
                    cmd.script@,
                    f,
                )
            }),
        n == cmd.env@.len() && cmd.chdir is Some ==> (r matches Err(e) ==> exists|
            at: Seq<char>,
            f: PathFault,
        |
            {
                &&& at == cmd.script@ || at == cmd.chdir->0@
                &&& #[trigger] path::no_absolute_form(at, f)
                &&& e matches SbatchSpawnError::Other(m) && m@ == path::path_message(at, f)
            }),
{
    let entries = cmd.env@;
    let head = entries.take(n);
    law_export_succeeds(head);
    assert forall|i: int| 0 <= i < head.len() implies !corrupts((#[trigger] head[i]).0)
        && !corrupts(head[i].1) by {
        assert(head[i] == entries[i]);
        assert(!is_bad_variable(entries[i]));
    }
    if n == entries.len() {
        assert(head == entries);
        if let Err(e) = r {
            if exists|f: PathFault| #[trigger] SbatchCmd::unresolved(cmd.script@, f, e@) {
                let f = choose|f: PathFault| #[trigger]
                    SbatchCmd::unresolved(cmd.script@, f, e@);
                assert(path::no_absolute_form(cmd.script@, f));
            } else {
                let f = choose|f: PathFault| #[trigger]
                    SbatchCmd::unresolved(cmd.chdir->0@, f, e@);
                assert(path::no_absolute_form(cmd.chdir->0@, f));
            }
        }
    } else {
        let more = entries.take(n + 1);
        assert(more.drop_last() == head);
        assert(more.last() == entries[n]);
        lemma_exported_err(entries, n + 1);
    }
}

} // verus!
