//! Names of the directories the worker keeps its files in.

use vstd::prelude::*;

verus! {

/// Directory, relative to the working directory, that holds the downloaded
/// archive and the extracted feed.
pub fn temp_dir() -> (dir: &'static str)
    ensures
        dir@ == "temp_assets"@,
{
    "temp_assets"
}

/// Directory, relative to the working directory, that holds the shared
/// prefecture table.
pub fn common_path() -> (dir: &'static str)
    ensures
        dir@ == "../common"@,
{
    "../common"
}

} // verus!
