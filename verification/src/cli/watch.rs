use vstd::prelude::*;

use crate::text::str_eq;

verus! {

/// A path of a single plain component: not empty, no separator of any platform, and neither
/// `.` nor `..`.
pub open spec fn single_component(path: Seq<char>) -> bool {
    &&& path.len() > 0
    &&& forall|i: int| 0 <= i < path.len() ==> path[i] != '/' && path[i] != '\\' && path[i] != ':'
    &&& path != "."@
    &&& path != ".."@
}

/// The final component of `path`, as `std::path::Path::file_name` finds it: none where the
/// path ends in `..` or has no component.
pub uninterp spec fn path_file_name(path: Seq<char>) -> Option<Seq<char>>;

/// Wraps `std::path::Path::file_name`, read back as text (the final component of a path given
/// as text is text). The contract names the result, and claims what the documentation shows by
/// example: the final component of a path of one plain component is that component.
#[verifier::external_body]
fn final_component(path: &str) -> (name: Option<String>)
    ensures
        crate::cli::options::option_view(name) == path_file_name(path@),
        single_component(path@) ==> crate::cli::options::option_view(name) == Some(path@),
{
    std::path::Path::new(path).file_name().and_then(|name| name.to_str()).map(|name| name.to_owned())
}

/// The directory names that watching, formatting and testing never descend into.
pub open spec fn spec_is_ignored_name(name: Seq<char>) -> bool {
    name == ".git"@ || name == "capsula"@ || name == "fixtures"@ || name == "snapshots"@ || name == "target"@
}

/// Whether a directory with this final name holds nothing to watch: version control data,
/// build output, fixtures or snapshots.
pub fn is_ignored_name(name: &str) -> (ignored: bool)
    ensures
        ignored == spec_is_ignored_name(name@),
{
    str_eq(name, ".git") || str_eq(name, "capsula") || str_eq(name, "fixtures") || str_eq(name, "snapshots")
        || str_eq(name, "target")
}

/// Whether the directory at `path` is left out when the sources of a project are collected,
/// judged by its final component.
pub fn is_ignored_directory(path: &str) -> (ignored: bool)
    ensures
        ignored == match path_file_name(path@) {
            Some(name) => spec_is_ignored_name(name),
            None => false,
        },
        single_component(path@) ==> ignored == spec_is_ignored_name(path@),
{
    match final_component(path) {
        Some(name) => is_ignored_name(name.as_str()),
        None => false,
    }
}


/// The status a watch session ends with once it is interrupted.
pub const WATCH_INTERRUPTED_STATUS: i32 = 130;

/// What a watch session does after a pause.
#[derive(Clone, Copy, Debug, PartialEq, Eq, Structural)]
pub enum WatchStep {
    /// Stop, reporting the interruption, with `WATCH_INTERRUPTED_STATUS`.
    Stop,
    /// Nothing changed: pause again.
    Wait,
    /// A watched file changed: clear the screen, announce the change and run another round.
    Rerun,
}

/// Decides the next step of a watch session from whether it was interrupted and whether the
/// snapshot of the watched files changed since the last round.
pub fn watch_step(interrupted: bool, changed: bool) -> (step: WatchStep)
    ensures
        step == if interrupted {
            WatchStep::Stop
        } else if changed {
            WatchStep::Rerun
        } else {
            WatchStep::Wait
        },
{
    if interrupted {
        WatchStep::Stop
    } else if changed {
        WatchStep::Rerun
    } else {
        WatchStep::Wait
    }
}

/// Whether a round that ended with `status` is reported as passing.
pub fn round_passed(status: i32) -> (passed: bool)
    ensures
        passed == (status == 0),
{
    status == 0
}

} // verus!
