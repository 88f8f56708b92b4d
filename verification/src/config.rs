//! The settings that the library is built with.

use vstd::prelude::*;

verus! {

/// Whether the directories of stale sessions are removed from the signal store
/// when the store is opened.
pub const CLEANUP_STALE_SESSIONS_ON_STARTUP: bool = true;

/// The name of the base directory: `.clutch-dev` for a debug build, `.clutch`
/// for a release build.
pub open spec fn base_dir(debug_build: bool) -> Seq<char> {
    if debug_build {
        ".clutch-dev"@
    } else {
        ".clutch"@
    }
}

/// The name of the base directory: `.clutch-dev` for a debug build, `.clutch`
/// for a release build.
pub fn base_dir_name(debug_build: bool) -> (name: &'static str)
    ensures
        name@ == base_dir(debug_build),
{
    if debug_build {
        ".clutch-dev"
    } else {
        ".clutch"
    }
}

} // verus!
