//! The logical source locations the host reads from, as plain path text.
//! Resolving them against a real file system — creating them, enumerating
//! them — is the caller's concern.

use vstd::prelude::*;

verus! {

/// The host's directory layout: a root holding the user's scripts, the
/// bundled examples, and the stored assets.
pub struct Dirs {
    pub root: String,
    pub scripts: String,
    pub examples: String,
    pub assets: String,
}

impl Dirs {
    /// The layout under `root`: `root/scripts`, `root/examples` and
    /// `root/assets`.
    pub fn new(root: &str) -> (r: Dirs)
        ensures
            r.root@ == root@,
            r.scripts@ == root@ + "/scripts"@,
            r.examples@ == root@ + "/examples"@,
            r.assets@ == root@ + "/assets"@,
    {
        Dirs {
            root: root.to_owned(),
            scripts: root.to_owned().concat("/scripts"),
            examples: root.to_owned().concat("/examples"),
            assets: root.to_owned().concat("/assets"),
        }
    }
}

} // verus!
