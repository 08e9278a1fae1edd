//! Where the files of a package are looked for.

use vstd::prelude::*;

verus! {

/// The directory of a package on disk. Reading it is left to the caller.
#[derive(Debug, Clone, Copy)]
pub struct Filesystem<'a> {
    /// The directory that holds the package's manifest.
    pub path: &'a str,
}

impl<'a> Filesystem<'a> {
    /// The directory at `path`.
    pub fn new(path: &'a str) -> (r: Self)
        ensures
            r.path@ == path@,
    {
        Filesystem { path }
    }
}

} // verus!
