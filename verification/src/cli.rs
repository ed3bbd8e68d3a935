//! The parsed command selection that the surrounding binary hands to the
//! core: which of the mutually exclusive actions, if any, was requested.

use vstd::prelude::*;

verus! {

/// The requested run mode. With none of the action fields set, the run only
/// classifies and reports.
#[derive(Debug, Clone, Copy)]
pub struct Cli {
    /// Report the current status of the dotfiles.
    pub check: bool,
    /// Upload local files that are missing on the remote side.
    pub upload: bool,
    /// Download remote files that are missing on the local side.
    pub download: bool,
    /// Overwrite one side of each out-of-date pair from the other.
    pub update: Option<UpdateMode>,
}

/// Which side an update overwrites.
#[derive(Debug, Clone, Copy, PartialEq, Eq, Structural)]
pub enum UpdateMode {
    /// Update local files from remote files.
    Local,
    /// Update remote files from local files.
    Remote,
}

} // verus!
