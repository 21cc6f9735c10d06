//! The storage sink collaborators. A backend receives one finished replay;
//! the directory backend appends each linearized entry's fragment text as
//! one line of a per-match file. The file writing itself lives with the
//! caller; the library contributes the backend's identity and the exact
//! line sequence through `MatchReplay::iter`.

use vstd::prelude::*;

verus! {

/// A storage backend that writes one newline-delimited replay file per
/// match into a directory.
#[derive(Debug, Clone, PartialEq)]
pub struct DirectoryStorageBackend {
    pub path: String,
}

impl DirectoryStorageBackend {
    /// A backend rooted at the given directory path.
    pub fn new(path: String) -> (r: Self)
        ensures
            r.path == path,
    {
        DirectoryStorageBackend { path }
    }
}

} // verus!
