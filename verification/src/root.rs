//! Finding the project root: the nearest directory, going up, that holds `project.toml`.

use vstd::prelude::*;

verus! {

/// The file that marks a project root and holds its configuration.
pub const MANIFEST_FILE: &'static str = "project.toml";

/// What the search does after looking at one directory.
pub enum RootStep {
    /// This directory is the root.
    Found,
    /// Look at the parent directory next.
    Ascend,
    /// No directory up to the file system root holds the manifest.
    NotFound,
}

/// The next step of the search, given whether the directory just looked at holds the
/// manifest and whether it has a parent.
pub fn root_search_step(has_manifest: bool, has_parent: bool) -> (step: RootStep)
    ensures
        has_manifest ==> step is Found,
        !has_manifest && has_parent ==> step is Ascend,
        !has_manifest && !has_parent ==> step is NotFound,
{
    if has_manifest {
        RootStep::Found
    } else if has_parent {
        RootStep::Ascend
    } else {
        RootStep::NotFound
    }
}

} // verus!
