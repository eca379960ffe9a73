//! What a finished subprocess leaves behind.
use crate::text;
use crate::text::model;
use vstd::prelude::*;

verus! {

/// Exit code, stdout and stderr of a subprocess.
#[derive(Debug, PartialEq, Eq)]
pub struct CaptureOutput {
    pub exit_code: i32,
    pub stdout: String,
    pub stderr: String,
}

impl Clone for CaptureOutput {
    fn clone(&self) -> (r: CaptureOutput)
        ensures
            r == *self,
    {
        CaptureOutput {
            exit_code: self.exit_code,
            stdout: self.stdout.clone(),
            stderr: self.stderr.clone(),
        }
    }
}

impl Default for CaptureOutput {
    fn default() -> (r: CaptureOutput)
        ensures
            r.exit_code == 0,
            r.stdout@.len() == 0,
            r.stderr@.len() == 0,
    {
        CaptureOutput { exit_code: 0, stdout: String::new(), stderr: String::new() }
    }
}

impl CaptureOutput {
    /// What there is to show for a failure: stderr, or stdout where stderr is blank.
    pub open spec fn shown(self) -> Seq<char> {
        if model::trim(self.stderr@).len() > 0 {
            model::trim(self.stderr@)
        } else {
            model::trim(self.stdout@)
        }
    }

    /// Whether the subprocess exited with zero.
    pub fn success(&self) -> (r: bool)
        ensures
            r == (self.exit_code == 0),
    {
        self.exit_code == 0
    }

    /// What there is to show for a failure: stderr, or stdout where stderr is blank,
    /// without the white space around it.
    pub fn diagnostic(&self) -> (r: String)
        ensures
            r@ == self.shown(),
    {
        let err = text::chars_of(self.stderr.as_str());
        let shown = text::trim(err.as_slice());
        if shown.len() > 0 {
            return text::string_of(shown);
        }
        let out = text::chars_of(self.stdout.as_str());
        text::string_of(text::trim(out.as_slice()))
    }
}

/// A command succeeds exactly where it exits with zero; what there is to show for it is
/// stderr without the white space around it, and stdout where stderr is blank.
pub proof fn law_diagnostics(out: CaptureOutput, ok: bool, r: String)
    requires
        call_ensures(CaptureOutput::success, (&out,), ok),
        call_ensures(CaptureOutput::diagnostic, (&out,), r),
    ensures
        ok <==> out.exit_code == 0,
        model::trim(out.stderr@).len() > 0 ==> r@ == model::trim(out.stderr@),
        model::trim(out.stderr@).len() == 0 ==> r@ == model::trim(out.stdout@),
{
}

} // verus!
