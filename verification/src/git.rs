//! Status snapshot for a git-style working copy, as handed over by the
//! file-level status collector.

use vstd::prelude::*;

verus! {

/// Facts about a git-style working copy. Counts are numbers of files in the
/// given state; `ahead`/`behind` count commits against the upstream.
#[derive(Debug)]
pub struct GitInfo {
    /// Current branch name, if a branch is checked out.
    pub branch: Option<String>,
    /// Abbreviated commit hash of HEAD.
    pub head_short: String,
    pub staged: usize,
    pub modified: usize,
    pub untracked: usize,
    pub deleted: usize,
    pub conflicted: usize,
    pub ahead: usize,
    pub behind: usize,
}

} // verus!
