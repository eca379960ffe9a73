//! Paths as text.
use vstd::prelude::*;

verus! {

/// Why a path has no absolute form.
#[derive(Debug, Clone, PartialEq, Eq)]
pub enum PathFault {
    /// It is malformed, or the current directory cannot be had.
    Unresolved,
    /// Its absolute form is not Unicode; the text shows that form, with escapes.
    NotUtf8(String),
}

/// A path that has no absolute form.
#[derive(Debug, Clone, PartialEq, Eq)]
pub struct PathError {
    pub path: String,
    pub fault: PathFault,
}

/// The message for a path that has no absolute form.
pub open spec fn path_message(path: Seq<char>, fault: PathFault) -> Seq<char> {
    match fault {
        PathFault::Unresolved => "failed to absolutize "@ + path,
        PathFault::NotUtf8(shown) => "non-UTF8 batch path: "@ + shown@,
    }
}

impl PathError {
    /// The message for the error.
    pub open spec fn message(self) -> Seq<char> {
        path_message(self.path@, self.fault)
    }

    /// The message for the error.
    pub fn to_string(&self) -> (r: String)
        ensures
            r@ == self.message(),
    {
        match &self.fault {
            PathFault::Unresolved => {
                let mut out = "failed to absolutize ".to_owned();
                out.append(self.path.as_str());
                out
            },
            PathFault::NotUtf8(shown) => {
                let mut out = "non-UTF8 batch path: ".to_owned();
                out.append(shown.as_str());
                out
            },
        }
    }
}

/// `std::path::absolute`: makes a path absolute without resolving symbolic links. There
/// is no absolute form of the empty path, and none is empty. Which text comes back rests
/// on the platform and, for a relative path, on the current directory of the process;
/// nothing is claimed of it here. A form that is not Unicode is handed back as its
/// `Debug` shows it, of which nothing is claimed either.
#[verifier::external_body]
fn std_absolute(path: &str) -> (r: Result<String, PathFault>)
    ensures
        r is Ok ==> path@.len() > 0 && r->Ok_0@.len() > 0,
        r is Err && path@.len() == 0 ==> r->Err_0 is Unresolved,
{
    match std::path::absolute(path) {
        Ok(p) => p.into_os_string().into_string().map_err(
            |os| PathFault::NotUtf8(format!("{os:?}")),
        ),
        Err(_) => Err(PathFault::Unresolved),
    }
}

/// The text is what `std::path::absolute` makes of the path, on this platform and in the
/// current directory of the process.
pub closed spec fn absolute_form(path: Seq<char>, text: Seq<char>) -> bool {
    exists|p: &str, s: String|
        p@ == path && s@ == text && #[trigger] call_ensures(
            std_absolute,
            (p,),
            Ok::<String, PathFault>(s),
        )
}

/// `std::path::absolute` makes no text of the path, for that reason.
pub closed spec fn no_absolute_form(path: Seq<char>, fault: PathFault) -> bool {
    exists|p: &str|
        p@ == path && #[trigger] call_ensures(
            std_absolute,
            (p,),
            Err::<String, PathFault>(fault),
        )
}

/// Makes a path absolute. Which text comes back depends on the platform and the current
/// directory of the process; a path that is not made absolute is reported with its text.
pub fn absolutize(path: &str) -> (r: Result<String, PathError>)
    ensures
        match r {
            Ok(s) => path@.len() > 0 && s@.len() > 0 && absolute_form(path@, s@),
            Err(e) => {
                &&& e.path@ == path@
                &&& no_absolute_form(path@, e.fault)
                &&& path@.len() == 0 ==> e.fault is Unresolved
            },
        },
{
    match std_absolute(path) {
        Ok(s) => Ok(s),
        Err(fault) => Err(PathError { path: path.to_owned(), fault }),
    }
}

/// What has an absolute form is no empty path, and the form is not empty.
pub proof fn law_absolute_forms_are_not_empty(path: Seq<char>, text: Seq<char>)
    requires
        absolute_form(path, text),
    ensures
        path.len() > 0,
        text.len() > 0,
{
}

/// The empty path has no absolute form because it is malformed.
pub proof fn law_empty_path_is_unresolved(fault: PathFault)
    requires
        no_absolute_form(Seq::empty(), fault),
    ensures
        fault is Unresolved,
{
}

/// The message names the path as it was given, or its absolute form where that is what is
/// wrong.
pub proof fn law_path_messages(e: PathError, r: String)
    requires
        call_ensures(PathError::to_string, (&e,), r),
    ensures
        r@ == match e.fault {
            PathFault::Unresolved => "failed to absolutize "@ + e.path@,
            PathFault::NotUtf8(shown) => "non-UTF8 batch path: "@ + shown@,
        },
{
}

/// A path is made absolute as the platform does it, or it is reported with the reason why it
/// is not; the empty path is always reported.
pub proof fn law_paths_are_made_absolute(path: &str, r: Result<String, PathError>)
    requires
        call_ensures(absolutize, (path,), r),
    ensures
        match r {
            Ok(s) => absolute_form(path@, s@) && path@.len() > 0 && s@.len() > 0,
            Err(e) => e.path@ == path@ && no_absolute_form(path@, e.fault),
        },
        path@.len() == 0 ==> r is Err && r->Err_0.fault is Unresolved,
{
}

} // verus!
