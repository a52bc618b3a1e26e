//! A temporary working directory, known by its path.

use vstd::prelude::*;

verus! {

/// A temporary directory. Making and removing it on disk is the caller's part.
pub struct TempDir {
    path: Vec<u8>,
}

impl TempDir {
    /// The bytes of the directory's path.
    pub closed spec fn path_bytes(&self) -> Seq<u8> {
        self.path@
    }

    /// The directory at `path`.
    pub fn at(path: Vec<u8>) -> (dir: Self)
        ensures
            dir.path_bytes() == path@,
    {
        TempDir { path }
    }

    /// The directory's path.
    pub fn path(&self) -> (p: &[u8])
        ensures
            p@ == self.path_bytes(),
    {
        self.path.as_slice()
    }
}

} // verus!
