//! One script record: a compiled unit together with its identity on disk
//! and its private execution scope.

use vstd::prelude::*;

use crate::rhai_api::{scope_clear, scope_is_empty};
use crate::text::{file_name, file_name_of};

verus! {

/// What every loaded script answers for: its identity on disk, its
/// provenance, and a way to drop its private bindings.
pub trait GameScript {
    /// The script's path on disk.
    fn path(&self) -> &str;

    /// The file name of the script.
    fn name(&self) -> String;

    /// Whether the script came from the bundled examples.
    fn is_example(&self) -> bool;

    /// Drop every binding of the script's scope.
    fn reset(&mut self);
}

/// A script the host has loaded and keeps runnable.
///
/// The path is the record's identity across load passes; the modification
/// timestamp drives change detection and moves only when recompilation
/// succeeds; the compiled unit is replaced wholesale on recompilation; the
/// scope holds the script's private bindings and is never shared with
/// another record; the provenance flag never changes after creation.
pub struct ScriptRecord {
    pub path: String,
    pub modified: u64,
    pub unit: rhai::AST,
    pub scope: rhai::Scope<'static>,
    pub is_example: bool,
}

impl ScriptRecord {
    /// The file name of the script: its path past the last `/`.
    pub fn name(&self) -> (r: String)
        ensures
            r@ == file_name_of(self.path@),
    {
        file_name(self.path.as_str())
    }

    /// The script's path on disk.
    pub fn path(&self) -> (r: &str)
        ensures
            r@ == self.path@,
    {
        self.path.as_str()
    }

    /// Whether the script came from the bundled examples rather than from
    /// the user's own directory.
    pub fn is_example(&self) -> (r: bool)
        ensures
            r == self.is_example,
    {
        self.is_example
    }

    /// Drop every binding of the script's scope; the identity, the unit and
    /// the provenance flag stay as they are.
    pub fn reset(&mut self)
        ensures
            scope_is_empty(final(self).scope),
            final(self).path@ == old(self).path@,
            final(self).modified == old(self).modified,
            final(self).unit == old(self).unit,
            final(self).is_example == old(self).is_example,
    {
        scope_clear(&mut self.scope);
    }
}

impl GameScript for ScriptRecord {
    fn path(&self) -> &str {
        ScriptRecord::path(self)
    }

    fn name(&self) -> String {
        ScriptRecord::name(self)
    }

    fn is_example(&self) -> bool {
        ScriptRecord::is_example(self)
    }

    fn reset(&mut self) {
        ScriptRecord::reset(self)
    }
}

} // verus!
