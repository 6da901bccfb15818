//! The configuration of the local upload store: the directory uploads
//! are kept under. Reading and writing the files is the boundary's work;
//! the library only carries the configuration and the fetch codes.

use vstd::prelude::*;

verus! {

/// Where the local upload store keeps its files.
pub struct LocalStore {
    pub path: String,
}

impl LocalStore {
    pub fn new(path: &str) -> (r: Self)
        ensures
            r.path@ == path@,
    {
        LocalStore { path: path.to_owned() }
    }
}

} // verus!
