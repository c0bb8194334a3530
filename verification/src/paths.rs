//! Resolve paths relative to the executable directory (portable install).

use crate::text::{joined, owned};
use vstd::prelude::*;

verus! {

/// Why a path could not be resolved.
#[derive(Debug)]
pub enum PathError {
    /// The path of the executable is unknown; the text says why.
    CurrentExe(String),
    NoParent,
}

impl Clone for PathError {
    fn clone(&self) -> (r: Self)
        ensures
            r == *self,
    {
        match self {
            PathError::CurrentExe(m) => PathError::CurrentExe(m.clone()),
            PathError::NoParent => PathError::NoParent,
        }
    }
}

impl PathError {
    /// The message shown for the error.
    pub open spec fn text(self) -> Seq<char> {
        match self {
            PathError::CurrentExe(m) => "failed to resolve current executable path: "@ + m@,
            PathError::NoParent => "executable has no parent directory"@,
        }
    }

    /// The message shown for the error.
    pub fn message(&self) -> (r: String)
        ensures
            r@ == self.text(),
    {
        match self {
            PathError::CurrentExe(m) => joined(
                "failed to resolve current executable path: ",
                m.as_str(),
            ),
            PathError::NoParent => owned("executable has no parent directory"),
        }
    }
}

/// `joined` is one that a host can make of `name` under `dir`. Hosts differ in what separates the
/// parts of a path and in what makes a name stand for itself.
pub uninterp spec fn may_join(dir: Seq<char>, name: Seq<char>, joined: Seq<char>) -> bool;

/// `absolute` is what a host can say of whether `path` is absolute. Hosts differ.
pub uninterp spec fn may_be_absolute(path: Seq<char>, absolute: bool) -> bool;

/// The name of one file or directory, on any host: without separators, drive or relative step.
pub open spec fn is_plain(name: Seq<char>) -> bool {
    &&& name.len() > 0
    &&& name != seq!['.']
    &&& name != seq!['.', '.']
    &&& forall|i: int| 0 <= i < name.len() ==> #[trigger] name[i] != '/' && name[i] != '\\' && name[i]
        != ':'
}

/// The path has a verbatim prefix, `\\?\`, and is put together anew when it is extended.
pub open spec fn is_verbatim(path: Seq<char>) -> bool {
    path.len() >= 4 && path[0] == '\\' && path[1] == '\\' && path[2] == '?' && path[3] == '\\'
}

/// `joined` is `dir` followed by `name`, with or without a separator between them.
pub open spec fn follows(dir: Seq<char>, name: Seq<char>, joined: Seq<char>) -> bool {
    joined == dir + name || joined == dir + seq!['/'] + name || joined == dir + seq!['\\'] + name
}

/// `joined` is `name` under `dir`, as the host puts it; a plain name follows the directory.
pub open spec fn under(dir: Seq<char>, name: Seq<char>, joined: Seq<char>) -> bool {
    may_join(dir, name, joined) && (is_plain(name) && !is_verbatim(dir) ==> follows(
        dir,
        name,
        joined,
    ))
}

/// Calls `std::path::Path::join` and hands out the text of the path. The result is what this host
/// makes of the two; that a plain name follows the directory holds on every host, and nothing more
/// is said, since what is rooted, and what a drive or a verbatim prefix means, depends on it.
#[verifier::external_body]
pub(crate) fn join_path(dir: &str, name: &str) -> (r: String)
    ensures
        may_join(dir@, name@, r@),
        is_plain(name@) && !is_verbatim(dir@) ==> follows(dir@, name@, r@),
{
    std::path::Path::new(dir).join(name).to_string_lossy().into_owned()
}

/// Calls `std::path::Path::is_absolute`. The result is what this host says of the path; nothing
/// more is said of it.
#[verifier::external_body]
fn is_absolute(path: &str) -> (r: bool)
    ensures
        may_be_absolute(path@, r),
{
    std::path::Path::new(path).is_absolute()
}

/// Directory that contains the running executable.
///
/// In debug builds `root_override`, where it is set, is used instead. `exe_parent` is the parent
/// of the executable's path, or why that path is unknown.
pub fn exe_dir(
    debug_build: bool,
    root_override: Option<String>,
    exe_parent: Result<Option<String>, String>,
) -> (r: Result<String, PathError>)
    ensures
        debug_build && root_override is Some ==> r == Ok::<String, PathError>(root_override->0),
        !(debug_build && root_override is Some) ==> match exe_parent {
            Ok(Some(dir)) => r == Ok::<String, PathError>(dir),
            Ok(None) => r == Err::<String, PathError>(PathError::NoParent),
            Err(why) => r == Err::<String, PathError>(PathError::CurrentExe(why)),
        },
{
    if debug_build {
        match root_override {
            Some(root) => {
                return Ok(root);
            },
            None => {},
        }
    }
    match exe_parent {
        Ok(Some(dir)) => Ok(dir),
        Ok(None) => Err(PathError::NoParent),
        Err(why) => Err(PathError::CurrentExe(why)),
    }
}

/// `r` is `name` under the executable directory, or the error of that directory.
pub open spec fn sidecar(
    exe_dir: Result<String, PathError>,
    name: Seq<char>,
    r: Result<String, PathError>,
) -> bool {
    match exe_dir {
        Ok(dir) => r matches Ok(p) && under(dir@, name, p@),
        Err(e) => r == Err::<String, PathError>(e),
    }
}

/// Path to `config.toml` next to the executable.
pub fn config_path(exe_dir: Result<String, PathError>) -> (r: Result<String, PathError>)
    ensures
        sidecar(exe_dir, "config.toml"@, r),
{
    match exe_dir {
        Ok(dir) => Ok(join_path(dir.as_str(), "config.toml")),
        Err(e) => Err(e),
    }
}

/// `r` is what a path stands for: itself if it is absolute, else what lies under the executable
/// directory.
pub open spec fn resolved(
    path: Seq<char>,
    absolute: bool,
    exe_dir: Result<String, PathError>,
    r: Result<String, PathError>,
) -> bool {
    if absolute {
        r matches Ok(p) && p@ == path
    } else {
        sidecar(exe_dir, path, r)
    }
}

/// Resolve a path that may be relative to the executable directory.
///
/// The result is that of [`resolve_path`] for what the host says of the path.
pub fn resolve_under_exe(path: &str, exe_dir: Result<String, PathError>) -> (r: Result<
    String,
    PathError,
>)
    ensures
        exists|absolute: bool| #[trigger]
            may_be_absolute(path@, absolute) && resolved(path@, absolute, exe_dir, r),
{
    let absolute: bool = is_absolute(path);
    resolve_path(path, absolute, exe_dir)
}

/// Resolve a path that is absolute, or else relative to the executable directory.
pub fn resolve_path(path: &str, absolute: bool, exe_dir: Result<String, PathError>) -> (r: Result<
    String,
    PathError,
>)
    ensures
        resolved(path@, absolute, exe_dir, r),
{
    if absolute {
        return Ok(owned(path));
    }
    match exe_dir {
        Ok(dir) => Ok(join_path(dir.as_str(), path)),
        Err(e) => Err(e),
    }
}

/// An absolute path stands for itself; a relative one for what lies under the directory of the
/// executable, and where that is unknown so is the path.
pub proof fn law_relative_path_lies_beside_the_executable(
    path: Seq<char>,
    dir: String,
    e: PathError,
    exe_dir: Result<String, PathError>,
    r: Result<String, PathError>,
)
    ensures
        resolved(path, true, exe_dir, r) <==> r is Ok && r->Ok_0@ == path,
        resolved(path, false, Ok(dir), r) ==> r is Ok && may_join(dir@, path, r->Ok_0@),
        resolved(path, false, Ok(dir), r) && is_plain(path) && !is_verbatim(dir@) ==> ({
            ||| r->Ok_0@ == dir@ + path
            ||| r->Ok_0@ == dir@ + seq!['/'] + path
            ||| r->Ok_0@ == dir@ + seq!['\\'] + path
        }),
        resolved(path, false, Err(e), r) <==> r == Err::<String, PathError>(e),
{
}

} // verus!
