//! The error ledger: the per-pass collection of (path, failure) diagnostics.
//!
//! The ledger is a passive accumulator. It is append-only during a load
//! pass; ownership and clearing are the caller's responsibility.

use vstd::prelude::*;

verus! {

/// One diagnostic: the source path that failed and the failure's message.
pub struct LedgerEntry {
    pub path: String,
    pub message: String,
}

/// An ordered sequence of diagnostics gathered during one load pass.
pub struct ErrorLedger {
    pub entries: Vec<LedgerEntry>,
}

impl ErrorLedger {
    /// An empty ledger.
    pub fn new() -> (r: ErrorLedger)
        ensures
            r.entries@.len() == 0,
    {
        ErrorLedger { entries: Vec::new() }
    }

    /// Append one diagnostic; earlier entries are never disturbed.
    pub fn push(&mut self, path: String, message: String)
        ensures
            final(self).entries@ == old(self).entries@.push(
                LedgerEntry { path, message },
            ),
    {
        self.entries.push(LedgerEntry { path, message });
    }

    /// Drop every entry, ready for the next pass.
    pub fn clear(&mut self)
        ensures
            final(self).entries@.len() == 0,
    {
        self.entries.clear();
    }

    /// How many diagnostics the pass has produced so far.
    pub fn len(&self) -> (r: usize)
        ensures
            r == self.entries@.len(),
    {
        self.entries.len()
    }

    /// Whether the pass has produced no diagnostics.
    pub fn is_empty(&self) -> (r: bool)
        ensures
            r == (self.entries@.len() == 0),
    {
        self.entries.len() == 0
    }
}

} // verus!
