//! Dispatching a rendered batch script with `srun`.
use crate::path;
use crate::path::{absolutize, PathError};
use crate::text::model;
use vstd::prelude::*;

verus! {

/// The launcher that runs the batch script.
#[derive(Debug, Clone, PartialEq, Eq, Hash)]
pub struct SlurmCmd {
    pub srun_cmd: String,
}

impl Default for SlurmCmd {
    fn default() -> (r: SlurmCmd)
        ensures
            r.srun_cmd@ == "srun"@,
    {
        SlurmCmd { srun_cmd: "srun".to_owned() }
    }
}

impl SlurmCmd {
    /// An explicit launcher.
    pub fn new(srun_cmd: &str) -> (r: SlurmCmd)
        ensures
            r.srun_cmd@ == srun_cmd@,
    {
        SlurmCmd { srun_cmd: srun_cmd.to_owned() }
    }

    /// The command line that dispatches the script at the given absolute path.
    pub fn argv_for(&self, script: String) -> (r: Vec<String>)
        ensures
            model::texts(r@) == seq![self.srun_cmd@, script@],
    {
        let argv: Vec<String> = vec![self.srun_cmd.clone(), script];
        assert(model::texts(argv@) == seq![self.srun_cmd@, script@]);
        argv
    }

    /// The command line that dispatches `batch_file`, which is first made absolute: the
    /// launcher and one path. It fails only where the path has no absolute form.
    pub fn build_argv(&self, batch_file: &str) -> (r: Result<Vec<String>, PathError>)
        ensures
            match r {
                Ok(argv) => batch_file@.len() > 0 && exists|script: Seq<char>|
                    {
                        &&& script.len() > 0
                        &&& path::absolute_form(batch_file@, script)
                        &&& model::texts(argv@) == #[trigger] dispatch_command(
                            self.srun_cmd@,
                            script,
                        )
                    },
                Err(e) => {
                    &&& e.path@ == batch_file@
                    &&& path::no_absolute_form(batch_file@, e.fault)
                    &&& batch_file@.len() == 0 ==> e.fault is Unresolved
                },
            },
    {
        match absolutize(batch_file) {
            Ok(script) => {
                let argv = self.argv_for(script);
                assert(model::texts(argv@) == dispatch_command(self.srun_cmd@, script@));
                Ok(argv)
            },
            Err(e) => Err(e),
        }
    }
}

/// The launcher and the script.
pub open spec fn dispatch_command(srun: Seq<char>, script: Seq<char>) -> Seq<Seq<char>> {
    seq![srun, script]
}

/// Dispatches batch scripts.
#[derive(Debug, Clone)]
pub struct SlurmManager {
    pub slurm_cmd: SlurmCmd,
}

impl Default for SlurmManager {
    fn default() -> (r: SlurmManager)
        ensures
            r.slurm_cmd.srun_cmd@ == "srun"@,
    {
        SlurmManager { slurm_cmd: SlurmCmd::default() }
    }
}

impl SlurmManager {
    /// A manager with the given launcher, or with `srun`.
    pub fn new(slurm_cmd: Option<SlurmCmd>) -> (r: SlurmManager)
        ensures
            r.slurm_cmd.srun_cmd@ == match slurm_cmd {
                Some(c) => c.srun_cmd@,
                None => "srun"@,
            },
    {
        match slurm_cmd {
            Some(slurm_cmd) => SlurmManager { slurm_cmd },
            None => SlurmManager::default(),
        }
    }

    /// The command line that dispatches `batch_file`, which is first made absolute.
    pub fn build_argv(&self, batch_file: &str) -> (r: Result<Vec<String>, PathError>)
        ensures
            match r {
                Ok(argv) => batch_file@.len() > 0 && exists|script: Seq<char>|
                    {
                        &&& script.len() > 0
                        &&& path::absolute_form(batch_file@, script)
                        &&& model::texts(argv@) == #[trigger] dispatch_command(
                            self.slurm_cmd.srun_cmd@,
                            script,
                        )
                    },
                Err(e) => {
                    &&& e.path@ == batch_file@
                    &&& path::no_absolute_form(batch_file@, e.fault)
                    &&& batch_file@.len() == 0 ==> e.fault is Unresolved
                },
            },
    {
        self.slurm_cmd.build_argv(batch_file)
    }
}

/// A script is dispatched as the launcher with its absolute form, and nothing else.
pub proof fn law_scripts_are_dispatched(
    cmd: SlurmCmd,
    script: String,
    words: Vec<String>,
    manager: SlurmManager,
    batch_file: &str,
    r: Result<Vec<String>, PathError>,
    given: Option<SlurmCmd>,
    made: SlurmManager,
    usual: SlurmCmd,
)
    requires
        call_ensures(SlurmCmd::argv_for, (&cmd, script), words),
        call_ensures(SlurmManager::build_argv, (&manager, batch_file), r),
        call_ensures(SlurmManager::new, (given,), made),
        call_ensures(<SlurmCmd as Default>::default, (), usual),
    ensures
        model::texts(words@) == seq![cmd.srun_cmd@, script@],
        usual.srun_cmd@ == "srun"@,
        given matches Some(c) ==> made.slurm_cmd.srun_cmd@ == c.srun_cmd@,
        given is None ==> made.slurm_cmd.srun_cmd@ == "srun"@,
        match r {
            Ok(argv) => argv@.len() == 2 && argv@[0]@ == manager.slurm_cmd.srun_cmd@
                && path::absolute_form(batch_file@, argv@[1]@),
            Err(e) => e.path@ == batch_file@ && path::no_absolute_form(batch_file@, e.fault),
        },
{
    if let Ok(argv) = r {
        let t = model::texts(argv@);
        let abs = choose|abs: Seq<char>|
            {
                &&& abs.len() > 0
                &&& path::absolute_form(batch_file@, abs)
                &&& t == #[trigger] dispatch_command(manager.slurm_cmd.srun_cmd@, abs)
            };
        assert(t.len() == 2);
        assert(t[0] == argv@[0]@ && t[1] == argv@[1]@);
    }
}

} // verus!
