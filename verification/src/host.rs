//! The script host: the single authority for script discovery results,
//! compilation, hot reload, and controlled invocation.
//!
//! The host consumes an ordered list of already-enumerated source
//! directories — reading the file system is the caller's concern — and keeps
//! one record per script path. A load pass merges the snapshot into the
//! live record set: an unchanged file is left alone, a changed file is
//! recompiled in place, a new file is compiled, populated, initialized and
//! appended, and every failure lands in the pass's error ledger instead of
//! aborting the pass. A record whose backing file disappears is kept: the
//! host prunes nothing, so a stale record stays callable until a later pass
//! replaces it.

use vstd::prelude::*;

use crate::console::ConsoleSink;
use crate::ledger::ErrorLedger;
use crate::record::ScriptRecord;
use crate::rhai_api::{call_unit_fn, compile_source, compiles, engine_new, optimize_unit, run_unit};
use crate::surface::{build_scope, fresh_scope_for};
use crate::text::{has_dot_ext, has_extension};

verus! {

/// One directory entry handed to a load pass.
pub enum SourceEntry {
    /// An entry that could not be enumerated; only the failure's message is
    /// known, so it is logged and skipped.
    Unlisted { message: String },
    /// A file: its path, its modification timestamp, and its contents — or
    /// the failure that reading the contents produced.
    File { path: String, modified: u64, contents: Result<String, String> },
}

/// One source directory of a load pass, already enumerated by the caller.
pub struct SourceDir {
    /// The directory's own path, for reporting.
    pub label: String,
    /// Whether records born from this directory are bundled examples.
    pub is_example: bool,
    /// The directory's entries, or the failure enumerating it produced.
    pub listing: Result<Vec<SourceEntry>, String>,
}

/// What processing one file entry of a load pass did.
#[derive(Clone, Copy, Debug, PartialEq, Eq, Structural)]
pub enum EntryOutcome {
    /// The entry does not carry the script extension; nothing changed.
    SkippedExtension,
    /// An existing record's timestamp matches the entry; nothing changed.
    Unchanged,
    /// An existing record was recompiled: new unit, new timestamp, rebuilt
    /// scope.
    Updated,
    /// An existing record's source changed but could not be read or
    /// compiled; the record was left untouched and the failure recorded.
    UpdateFailed,
    /// A new record was compiled, initialized and appended.
    Added,
    /// A new file could not be read, compiled or initialized; no record was
    /// created and the failure was recorded.
    AddFailed,
}

/// Why an invocation failed.
#[derive(Debug)]
pub enum InvocationError {
    /// The script index does not name a live record.
    OutOfRange,
    /// The named entry point is absent or raised at runtime.
    Failed(String),
}

/// The script host. It owns the ordered record collection and the engine
/// the units run on.
pub struct ScriptHost {
    pub engine: rhai::Engine,
    pub records: Vec<ScriptRecord>,
}

/// The extension a file must carry to count as a script.
pub open spec fn script_ext() -> Seq<char> {
    "rhai"@
}

/// The extension a file must carry to count as a script.
pub fn extension() -> (r: &'static str)
    ensures
        r@ == script_ext(),
{
    "rhai"
}

/// Paths are unique within a record collection.
pub open spec fn unique_paths(records: Seq<ScriptRecord>) -> bool {
    forall|i: int, j: int|
        0 <= i < j < records.len() ==> (#[trigger] records[i]).path@ != (
        #[trigger] records[j]).path@
}

/// Whether some record owns `path`.
pub open spec fn has_path(records: Seq<ScriptRecord>, path: Seq<char>) -> bool {
    exists|i: int| 0 <= i < records.len() && (#[trigger] records[i]).path@ == path
}

/// The index of the record owning `path`.
pub open spec fn index_of_path(records: Seq<ScriptRecord>, path: Seq<char>) -> int {
    choose|i: int| 0 <= i < records.len() && (#[trigger] records[i]).path@ == path
}

pub proof fn lemma_index_of_path(records: Seq<ScriptRecord>, path: Seq<char>, i: int)
    requires
        unique_paths(records),
        0 <= i < records.len(),
        records[i].path@ == path,
    ensures
        has_path(records, path),
        index_of_path(records, path) == i,
{
    assert(has_path(records, path));
    let j = index_of_path(records, path);
    if j != i {
        assert(records[i].path@ != records[j].path@);
    }
}

/// The two records are the same script in the same state, scope aside.
pub open spec fn same_script(a: ScriptRecord, b: ScriptRecord) -> bool {
    &&& a.path@ == b.path@
    &&& a.modified == b.modified
    &&& a.unit == b.unit
    &&& a.is_example == b.is_example
}

/// The old records survive in place: same path and provenance, in order,
/// with nothing removed.
pub open spec fn preserves_prefix(old_r: Seq<ScriptRecord>, new_r: Seq<ScriptRecord>) -> bool {
    &&& new_r.len() >= old_r.len()
    &&& forall|i: int|
        0 <= i < old_r.len() ==> (#[trigger] new_r[i]).path@ == old_r[i].path@ && new_r[i].is_example
            == old_r[i].is_example
}

/// The path a file entry names; an unenumerated entry names nothing.
pub open spec fn entry_path(e: SourceEntry) -> Seq<char> {
    match e {
        SourceEntry::File { path, .. } => path@,
        SourceEntry::Unlisted { .. } => Seq::empty(),
    }
}

/// The modification timestamp a file entry carries.
pub open spec fn entry_modified(e: SourceEntry) -> u64 {
    match e {
        SourceEntry::File { modified, .. } => modified,
        SourceEntry::Unlisted { .. } => 0,
    }
}

/// Whether a load pass works on this entry at all: a file carrying the
/// script extension.
pub open spec fn entry_relevant(e: SourceEntry) -> bool {
    e is File && has_dot_ext(entry_path(e), script_ext())
}

/// The records already carry this entry: its path is live with its
/// timestamp, so a pass leaves it alone.
pub open spec fn entry_settled(records: Seq<ScriptRecord>, e: SourceEntry) -> bool {
    entry_relevant(e) ==> has_path(records, entry_path(e)) && records[index_of_path(
        records,
        entry_path(e),
    )].modified == entry_modified(e)
}

/// Some relevant entry of `es` names `path` with timestamp `m`.
pub open spec fn entries_set(es: Seq<SourceEntry>, path: Seq<char>, m: u64) -> bool {
    exists|k: int|
        0 <= k < es.len() && entry_relevant(#[trigger] es[k]) && entry_path(es[k]) == path
            && entry_modified(es[k]) == m
}

proof fn lemma_entries_set_extend(es: Seq<SourceEntry>, k: int, path: Seq<char>, m: u64)
    requires
        0 <= k < es.len(),
        entries_set(es.take(k), path, m),
    ensures
        entries_set(es.take(k + 1), path, m),
{
    let t = choose|t: int|
        0 <= t < es.take(k).len() && entry_relevant(#[trigger] es.take(k)[t]) && entry_path(
            es.take(k)[t],
        ) == path && entry_modified(es.take(k)[t]) == m;
    assert(es.take(k + 1)[t] == es.take(k)[t]);
    assert(entry_relevant(es.take(k + 1)[t]));
}

proof fn lemma_sources_set_extend(sources: Seq<SourceDir>, d: int, path: Seq<char>, m: u64)
    requires
        0 <= d < sources.len(),
        sources_set(sources.take(d), path, m),
    ensures
        sources_set(sources.take(d + 1), path, m),
{
    let j = choose|j: int|
        0 <= j < sources.take(d).len() && entries_set(
            dir_entries(#[trigger] sources.take(d)[j]),
            path,
            m,
        );
    assert(sources.take(d + 1)[j] == sources.take(d)[j]);
    assert(entries_set(dir_entries(sources.take(d + 1)[j]), path, m));
}

/// No two file entries of `es` name the same path with different
/// timestamps — true of any directory listing a file system produced.
pub open spec fn entries_consistent(es: Seq<SourceEntry>) -> bool {
    forall|k1: int, k2: int|
        0 <= k1 < es.len() && 0 <= k2 < es.len() && (#[trigger] es[k1]) is File && (
        #[trigger] es[k2]) is File && entry_path(es[k1]) == entry_path(es[k2]) ==> entry_modified(
            es[k1],
        ) == entry_modified(es[k2])
}

/// Some file entry of `es` names `path`.
pub open spec fn entries_has_file(es: Seq<SourceEntry>, path: Seq<char>) -> bool {
    exists|k: int| 0 <= k < es.len() && (#[trigger] es[k]) is File && entry_path(es[k]) == path
}

/// The entries of a source directory; a directory that could not be read
/// lists nothing.
pub open spec fn dir_entries(d: SourceDir) -> Seq<SourceEntry> {
    match d.listing {
        Ok(es) => es@,
        Err(_) => Seq::empty(),
    }
}

/// Every entry of the directory is already carried by the records.
pub open spec fn dir_settled(records: Seq<ScriptRecord>, d: SourceDir) -> bool {
    forall|k: int|
        0 <= k < dir_entries(d).len() ==> entry_settled(records, #[trigger] dir_entries(d)[k])
}

/// Every entry of every source directory is already carried by the records:
/// a pass over such a snapshot changes nothing.
pub open spec fn sources_settled(records: Seq<ScriptRecord>, sources: Seq<SourceDir>) -> bool {
    forall|j: int| 0 <= j < sources.len() ==> dir_settled(records, #[trigger] sources[j])
}

/// Every source directory of the snapshot could be enumerated.
pub open spec fn sources_listed(sources: Seq<SourceDir>) -> bool {
    forall|j: int| 0 <= j < sources.len() ==> (#[trigger] sources[j]).listing is Ok
}

/// Some relevant entry of some directory names `path` with timestamp `m`.
pub open spec fn sources_set(sources: Seq<SourceDir>, path: Seq<char>, m: u64) -> bool {
    exists|j: int|
        0 <= j < sources.len() && entries_set(dir_entries(#[trigger] sources[j]), path, m)
}

/// Some file entry of some directory of the snapshot names `path`.
pub open spec fn sources_has_file(sources: Seq<SourceDir>, path: Seq<char>) -> bool {
    exists|j: int|
        0 <= j < sources.len() && entries_has_file(dir_entries(#[trigger] sources[j]), path)
}

/// No two file entries anywhere in the snapshot name the same path with
/// different timestamps — true of any snapshot taken from one file system
/// state.
pub open spec fn snapshot_consistent(sources: Seq<SourceDir>) -> bool {
    forall|j1: int, k1: int, j2: int, k2: int|
        0 <= j1 < sources.len() && 0 <= k1 < dir_entries(sources[j1]).len() && 0 <= j2
            < sources.len() && 0 <= k2 < dir_entries(sources[j2]).len() && (#[trigger] dir_entries(
            sources[j1],
        )[k1]) is File && (#[trigger] dir_entries(sources[j2])[k2]) is File && entry_path(
            dir_entries(sources[j1])[k1],
        ) == entry_path(dir_entries(sources[j2])[k2]) ==> entry_modified(dir_entries(sources[j1])[k1])
            == entry_modified(dir_entries(sources[j2])[k2])
}

/// The contents were read and they compile.
pub open spec fn source_compiles(contents: Result<String, String>) -> bool {
    match contents {
        Ok(src) => compiles(src@),
        Err(_) => false,
    }
}

/// The new ledger is the old one plus exactly one failure for `path`.
pub open spec fn one_failure_for(old_l: ErrorLedger, new_l: ErrorLedger, path: Seq<char>) -> bool {
    &&& new_l.entries@.len() == old_l.entries@.len() + 1
    &&& forall|i: int| 0 <= i < old_l.entries@.len() ==> new_l.entries@[i] == old_l.entries@[i]
    &&& new_l.entries@[old_l.entries@.len() as int].path@ == path
}

/// The new ledger keeps every entry of the old one, in place.
pub open spec fn ledger_extends(old_l: ErrorLedger, new_l: ErrorLedger) -> bool {
    &&& new_l.entries@.len() >= old_l.entries@.len()
    &&& forall|i: int| 0 <= i < old_l.entries@.len() ==> new_l.entries@[i] == old_l.entries@[i]
}

impl ScriptHost {
    /// Paths are unique within the live record set.
    pub open spec fn wf(self) -> bool {
        unique_paths(self.records@)
    }

    /// A host with no scripts yet, on a fresh engine. The caller registers
    /// its callable surface on the engine before the first load pass.
    pub fn new() -> (host: ScriptHost)
        ensures
            host.records@.len() == 0,
            host.wf(),
    {
        ScriptHost { engine: engine_new(), records: Vec::new() }
    }

    /// The engine the host runs units on, for the caller to register its
    /// callable surface on at startup.
    pub fn engine_mut(&mut self) -> (r: &mut rhai::Engine)
        ensures
            *r == old(self).engine,
            final(self).engine == *final(r),
            final(self).records == old(self).records,
    {
        &mut self.engine
    }

    /// Read/write access to the live record collection.
    pub fn scripts(&mut self) -> (r: &mut Vec<ScriptRecord>)
        ensures
            *r == old(self).records,
            final(self).records == *final(r),
            final(self).engine == old(self).engine,
    {
        &mut self.records
    }

    /// How many scripts are live.
    pub fn len(&self) -> (r: usize)
        ensures
            r == self.records@.len(),
    {
        self.records.len()
    }

    /// The index of the live record owning `path`, if any.
    fn find_path(&self, path: &String) -> (r: Option<usize>)
        requires
            self.wf(),
        ensures
            match r {
                Some(i) => i < self.records@.len() && self.records@[i as int].path@ == path@
                    && has_path(self.records@, path@) && index_of_path(self.records@, path@)
                    == i as int,
                None => !has_path(self.records@, path@),
            },
    {
        let n = self.records.len();
        let mut i: usize = 0;
        while i < n
            invariant
                0 <= i <= n,
                n == self.records@.len(),
                self.wf(),
                forall|j: int| 0 <= j < i ==> (#[trigger] self.records@[j]).path@ != path@,
            decreases n - i,
        {
            if self.records[i].path == *path {
                proof {
                    lemma_index_of_path(self.records@, path@, i as int);
                }
                return Some(i);
            }
            i += 1;
        }
        None
    }

    /// Merge one discovered file into the live record set.
    ///
    /// An entry without the script extension is skipped. An entry whose
    /// record already carries its timestamp is left alone. A changed entry
    /// is recompiled: on success the record's unit is replaced wholesale,
    /// its scope rebuilt from nothing, and its timestamp moved; on failure
    /// the record — unit, scope and timestamp — is left exactly as it was,
    /// the old script keeps running, and the ledger gains one entry for the
    /// path. A new entry is compiled without optimization, its scope
    /// populated from the clean literals, the unit re-optimized against
    /// that scope and run once; only then is the record appended, so an
    /// unrunnable script is never callable downstream.
    pub fn process_file<C: ConsoleSink>(
        &mut self,
        path: &String,
        modified: u64,
        contents: &Result<String, String>,
        is_example: bool,
        ledger: &mut ErrorLedger,
        console: &mut C,
    ) -> (outcome: EntryOutcome)
        requires
            old(self).wf(),
        ensures
            final(self).wf(),
            final(self).engine == old(self).engine,
            preserves_prefix(old(self).records@, final(self).records@),
            ledger_extends(*old(ledger), *final(ledger)),
            (outcome == EntryOutcome::SkippedExtension) <==> !has_dot_ext(path@, script_ext()),
            (outcome == EntryOutcome::Unchanged) <==> (has_dot_ext(path@, script_ext())
                && has_path(old(self).records@, path@) && old(self).records@[index_of_path(
                old(self).records@,
                path@,
            )].modified == modified),
            (outcome == EntryOutcome::Updated) <==> (has_dot_ext(path@, script_ext()) && has_path(
                old(self).records@,
                path@,
            ) && old(self).records@[index_of_path(old(self).records@, path@)].modified != modified
                && source_compiles(*contents)),
            (outcome == EntryOutcome::UpdateFailed) <==> (has_dot_ext(path@, script_ext())
                && has_path(old(self).records@, path@) && old(self).records@[index_of_path(
                old(self).records@,
                path@,
            )].modified != modified && !source_compiles(*contents)),
            (outcome == EntryOutcome::Added || outcome == EntryOutcome::AddFailed) <==> (
            has_dot_ext(path@, script_ext()) && !has_path(old(self).records@, path@)),
            outcome == EntryOutcome::Added ==> source_compiles(*contents),
            (outcome == EntryOutcome::SkippedExtension || outcome == EntryOutcome::Unchanged)
                ==> *final(self) == *old(self) && *final(ledger) == *old(ledger),
            (outcome == EntryOutcome::UpdateFailed || outcome == EntryOutcome::AddFailed) ==> *final(self) == *old(self) && one_failure_for(*old(ledger), *final(ledger), path@),
            outcome == EntryOutcome::Updated ==> *final(ledger) == *old(ledger) && final(self).records@.len() == old(self).records@.len() && final(self).records@[index_of_path(
                old(self).records@,
                path@,
            )].modified == modified && fresh_scope_for(
                final(self).records@[index_of_path(old(self).records@, path@)].scope,
                final(self).records@[index_of_path(old(self).records@, path@)].unit,
            ) && forall|i: int|
                0 <= i < old(self).records@.len() && i != index_of_path(old(self).records@, path@)
                    ==> final(self).records@[i] == old(self).records@[i],
            outcome == EntryOutcome::Added ==> *final(ledger) == *old(ledger) && final(self).records@.len() == old(self).records@.len() + 1 && (forall|i: int|
                0 <= i < old(self).records@.len() ==> final(self).records@[i] == old(self).records@[i]) && final(self).records@.last().path@ == path@ && final(self).records@.last().modified == modified && final(self).records@.last().is_example
                == is_example,
    {
        if !has_extension(path.as_str(), extension()) {
            console.log_path("Skipping file without the script extension", path.as_str());
            return EntryOutcome::SkippedExtension;
        }
        match self.find_path(path) {
            Some(idx) => {
                if self.records[idx].modified == modified {
                    return EntryOutcome::Unchanged;
                }
                let src = match contents {
                    Ok(src) => src,
                    Err(message) => {
                        console.err_path("Failed to read script", path.as_str());
                        ledger.push(path.clone(), message.clone());
                        return EntryOutcome::UpdateFailed;
                    },
                };
                let unit = match compile_source(src.as_str(), true) {
                    Ok(unit) => unit,
                    Err(message) => {
                        ledger.push(path.clone(), message);
                        return EntryOutcome::UpdateFailed;
                    },
                };
                let scope = build_scope(&unit);
                let was_example = self.records[idx].is_example;
                self.records[idx] = ScriptRecord {
                    path: path.clone(),
                    modified,
                    unit,
                    scope,
                    is_example: was_example,
                };
                proof {
                    assert forall|i: int, j: int|
                        0 <= i < j < self.records@.len() implies (
                    #[trigger] self.records@[i]).path@ != (#[trigger] self.records@[j]).path@ by {
                        assert(old(self).records@[i].path@ != old(self).records@[j].path@);
                    }
                }
                EntryOutcome::Updated
            },
            None => {
                console.log_path("Adding new script", path.as_str());
                let src = match contents {
                    Ok(src) => src,
                    Err(message) => {
                        console.err_path("Failed to read script", path.as_str());
                        ledger.push(path.clone(), message.clone());
                        return EntryOutcome::AddFailed;
                    },
                };
                let raw_unit = match compile_source(src.as_str(), false) {
                    Ok(unit) => unit,
                    Err(message) => {
                        ledger.push(path.clone(), message);
                        return EntryOutcome::AddFailed;
                    },
                };
                let mut scope = build_scope(&raw_unit);
                let unit = optimize_unit(&scope, raw_unit);
                match run_unit(&self.engine, &mut scope, &unit) {
                    Ok(_) => {},
                    Err(message) => {
                        console.err_path("Failed to init script", path.as_str());
                        ledger.push(path.clone(), message);
                        return EntryOutcome::AddFailed;
                    },
                }
                self.records.push(
                    ScriptRecord { path: path.clone(), modified, unit, scope, is_example },
                );
                proof {
                    assert forall|i: int, j: int|
                        0 <= i < j < self.records@.len() implies (
                    #[trigger] self.records@[i]).path@ != (#[trigger] self.records@[j]).path@ by {
                        if j < old(self).records@.len() {
                            assert(old(self).records@[i].path@ != old(self).records@[j].path@);
                        } else {
                            assert(!has_path(old(self).records@, path@));
                            assert(old(self).records@[i].path@ != path@);
                        }
                    }
                }
                EntryOutcome::Added
            },
        }
    }

    /// Merge one directory's entries into the live record set, in order.
    /// One entry's failure never keeps the rest of the directory from
    /// loading; `clean` reports whether the directory produced no failures.
    fn load_dir<C: ConsoleSink>(
        &mut self,
        entries: Vec<SourceEntry>,
        is_example: bool,
        ledger: &mut ErrorLedger,
        console: &mut C,
    ) -> (clean: bool)
        requires
            old(self).wf(),
        ensures
            final(self).wf(),
            final(self).engine == old(self).engine,
            preserves_prefix(old(self).records@, final(self).records@),
            ledger_extends(*old(ledger), *final(ledger)),
            clean == (final(ledger).entries@.len() == old(ledger).entries@.len()),
            (forall|t: int|
                0 <= t < entries@.len() ==> entry_settled(old(self).records@, #[trigger] entries@[t]))
                ==> *final(self) == *old(self) && *final(ledger) == *old(ledger),
            forall|i: int|
                0 <= i < old(self).records@.len() ==> (#[trigger] final(self).records@[i]).modified
                    == old(self).records@[i].modified || entries_set(
                    entries@,
                    old(self).records@[i].path@,
                    final(self).records@[i].modified,
                ),
            (clean && entries_consistent(entries@)) ==> forall|t: int|
                0 <= t < entries@.len() ==> entry_settled(
                    final(self).records@,
                    #[trigger] entries@[t],
                ),
            forall|t: int|
                old(ledger).entries@.len() <= t < final(ledger).entries@.len()
                    ==> entries_has_file(entries@, (#[trigger] final(ledger).entries@[t]).path@),
    {
        let ghost all = entries@;
        let mut rest = entries;
        let n_total = rest.len();
        let mut k: usize = 0;
        let mut clean = true;
        while rest.len() > 0
            invariant
                self.wf(),
                self.engine == old(self).engine,
                preserves_prefix(old(self).records@, self.records@),
                ledger_extends(*old(ledger), *ledger),
                clean == (ledger.entries@.len() == old(ledger).entries@.len()),
                0 <= k <= n_total,
                n_total == all.len(),
                k + rest@.len() == all.len(),
                rest@ == all.subrange(k as int, all.len() as int),
                (forall|t: int|
                    0 <= t < all.len() ==> entry_settled(old(self).records@, #[trigger] all[t]))
                    ==> *self == *old(self) && *ledger == *old(ledger),
                forall|i: int|
                    0 <= i < old(self).records@.len() ==> (#[trigger] self.records@[i]).modified
                        == old(self).records@[i].modified || entries_set(
                        all.take(k as int),
                        old(self).records@[i].path@,
                        self.records@[i].modified,
                    ),
                (clean && entries_consistent(all)) ==> forall|t: int|
                    0 <= t < k ==> entry_settled(self.records@, #[trigger] all[t]),
                forall|t: int|
                    old(ledger).entries@.len() <= t < ledger.entries@.len() ==> entries_has_file(
                        all,
                        (#[trigger] ledger.entries@[t]).path@,
                    ),
            decreases rest@.len(),
        {
            proof {
                assert(rest@[0] == all[k as int]);
                assert(all.subrange(k as int, all.len() as int).remove(0) =~= all.subrange(
                    k + 1,
                    all.len() as int,
                ));
            }
            let ghost pre = *self;
            let ghost pre_ledger = *ledger;
            let entry = rest.remove(0);
            proof {
                assert(entry == all[k as int]);
            }
            match entry {
                SourceEntry::Unlisted { message } => {
                    console.warn_path("Skipping unreadable directory entry", message.as_str());
                    proof {
                        let ghost e = all[k as int];
                        assert forall|i: int|
                            0 <= i < old(self).records@.len() implies (
                        #[trigger] self.records@[i]).modified == old(self).records@[i].modified
                            || entries_set(
                            all.take(k + 1),
                            old(self).records@[i].path@,
                            self.records@[i].modified,
                        ) by {
                            if self.records@[i].modified != old(self).records@[i].modified {
                                lemma_entries_set_extend(
                                    all,
                                    k as int,
                                    old(self).records@[i].path@,
                                    self.records@[i].modified,
                                );
                            }
                        }
                        if clean && entries_consistent(all) {
                            assert forall|t: int| 0 <= t < k + 1 implies entry_settled(
                                self.records@,
                                #[trigger] all[t],
                            ) by {
                                if t < k {
                                    assert(entry_settled(pre.records@, all[t]));
                                } else {
                                    assert(!entry_relevant(all[t]));
                                }
                            }
                        }
                    }
                },
                SourceEntry::File { path, modified, contents } => {
                    let outcome = self.process_file(
                        &path,
                        modified,
                        &contents,
                        is_example,
                        ledger,
                        console,
                    );
                    if outcome == EntryOutcome::UpdateFailed || outcome == EntryOutcome::AddFailed {
                        clean = false;
                    }
                    proof {
                        let ghost e = all[k as int];
                        assert(entry_path(e) == path@);
                        assert(entry_modified(e) == modified);
                        assert(entries_has_file(all, path@));
                        // A settled snapshot leaves the pass idle.
                        if forall|t: int|
                            0 <= t < all.len() ==> entry_settled(
                                old(self).records@,
                                #[trigger] all[t],
                            ) {
                            assert(entry_settled(old(self).records@, e));
                            assert(pre == *old(self));
                            if has_dot_ext(path@, script_ext()) {
                                assert(entry_relevant(e));
                                assert(outcome == EntryOutcome::Unchanged);
                            } else {
                                assert(outcome == EntryOutcome::SkippedExtension);
                            }
                            assert(*self == *old(self) && *ledger == *old(ledger));
                        }
                        // A timestamp moves only toward one of this directory's entries.
                        assert forall|i: int|
                            0 <= i < old(self).records@.len() implies (
                        #[trigger] self.records@[i]).modified == old(self).records@[i].modified
                            || entries_set(
                            all.take(k + 1),
                            old(self).records@[i].path@,
                            self.records@[i].modified,
                        ) by {
                            if self.records@[i].modified != old(self).records@[i].modified {
                                if self.records@[i] == pre.records@[i] {
                                    lemma_entries_set_extend(
                                        all,
                                        k as int,
                                        old(self).records@[i].path@,
                                        self.records@[i].modified,
                                    );
                                } else {
                                    assert(outcome == EntryOutcome::Updated);
                                    let idx = index_of_path(pre.records@, path@);
                                    assert(i == idx);
                                    assert(pre.records@[idx].path@ == path@);
                                    assert(self.records@[i].modified == modified);
                                    assert(all.take(k + 1)[k as int] == e);
                                    assert(entry_relevant(e));
                                    assert(entries_set(
                                        all.take(k + 1),
                                        old(self).records@[i].path@,
                                        self.records@[i].modified,
                                    ));
                                }
                            }
                        }
                        // A clean, consistent prefix stays settled.
                        if clean && entries_consistent(all) {
                            assert forall|t: int| 0 <= t < k + 1 implies entry_settled(
                                self.records@,
                                #[trigger] all[t],
                            ) by {
                                if entry_relevant(all[t]) {
                                    let pt = entry_path(all[t]);
                                    let mt = entry_modified(all[t]);
                                    if t == k {
                                        if outcome == EntryOutcome::Unchanged {
                                            assert(entry_settled(self.records@, all[t]));
                                        } else if outcome == EntryOutcome::Updated {
                                            let idx = index_of_path(pre.records@, path@);
                                            assert(0 <= idx < pre.records@.len()
                                                && pre.records@[idx].path@ == path@);
                                            assert(self.records@[idx].modified == modified);
                                            assert(self.records@[idx].path@ == path@);
                                            lemma_index_of_path(self.records@, path@, idx);
                                        } else {
                                            assert(outcome == EntryOutcome::Added);
                                            let idx = self.records@.len() - 1;
                                            assert(self.records@[idx].path@ == path@);
                                            lemma_index_of_path(self.records@, path@, idx);
                                        }
                                    } else {
                                        assert(entry_settled(pre.records@, all[t]));
                                        let it = index_of_path(pre.records@, pt);
                                        assert(0 <= it < pre.records@.len() && pre.records@[it].path@
                                            == pt);
                                        assert(pre.records@[it].modified == mt);
                                        assert(self.records@[it].path@ == pt);
                                        lemma_index_of_path(self.records@, pt, it);
                                        if self.records@[it].modified != mt {
                                            assert(outcome == EntryOutcome::Updated);
                                            let idx = index_of_path(pre.records@, path@);
                                            assert(it == idx);
                                            assert(pt == path@);
                                            assert(all[t] is File && e is File && entry_path(
                                                all[t],
                                            ) == entry_path(e));
                                            assert(entry_modified(all[t]) == entry_modified(e));
                                            assert(false);
                                        }
                                    }
                                }
                            }
                        }
                    }
                },
            }
            k += 1;
        }
        clean
    }

    /// One load pass: merge every directory of the snapshot, in the given
    /// order, into the live record set.
    ///
    /// The pass is resilient: an unreadable directory is reported and
    /// skipped, a failing script is recorded in the ledger, and in either
    /// case the rest of the snapshot keeps loading. The pass reports
    /// success exactly when every directory was enumerated and the ledger
    /// gained nothing. A snapshot the records already carry changes
    /// nothing — so two passes over unchanged files are one: the first
    /// settles the snapshot, the second leaves every record, timestamp and
    /// ledger entry exactly as it found them.
    pub fn load<C: ConsoleSink>(
        &mut self,
        sources: Vec<SourceDir>,
        ledger: &mut ErrorLedger,
        console: &mut C,
    ) -> (ok: bool)
        requires
            old(self).wf(),
        ensures
            final(self).wf(),
            final(self).engine == old(self).engine,
            preserves_prefix(old(self).records@, final(self).records@),
            ledger_extends(*old(ledger), *final(ledger)),
            ok == (final(ledger).entries@.len() == old(ledger).entries@.len() && sources_listed(
                sources@,
            )),
            sources_settled(old(self).records@, sources@) ==> *final(self) == *old(self) && *final(ledger) == *old(ledger),
            (ok && snapshot_consistent(sources@)) ==> sources_settled(
                final(self).records@,
                sources@,
            ),
            forall|t: int|
                old(ledger).entries@.len() <= t < final(ledger).entries@.len()
                    ==> sources_has_file(sources@, (#[trigger] final(ledger).entries@[t]).path@),
            forall|i: int|
                0 <= i < old(self).records@.len() ==> (#[trigger] final(self).records@[i]).modified
                    == old(self).records@[i].modified || sources_set(
                    sources@,
                    old(self).records@[i].path@,
                    final(self).records@[i].modified,
                ),
    {
        let ghost all = sources@;
        let mut rest = sources;
        let n_total = rest.len();
        let mut d: usize = 0;
        let mut ok = true;
        while rest.len() > 0
            invariant
                self.wf(),
                self.engine == old(self).engine,
                preserves_prefix(old(self).records@, self.records@),
                ledger_extends(*old(ledger), *ledger),
                0 <= d <= n_total,
                n_total == all.len(),
                d + rest@.len() == all.len(),
                rest@ == all.subrange(d as int, all.len() as int),
                ok == (ledger.entries@.len() == old(ledger).entries@.len() && forall|j: int|
                    0 <= j < d ==> (#[trigger] all[j]).listing is Ok),
                sources_settled(old(self).records@, all) ==> *self == *old(self) && *ledger == *old(ledger),
                forall|i: int|
                    0 <= i < old(self).records@.len() ==> (#[trigger] self.records@[i]).modified
                        == old(self).records@[i].modified || sources_set(
                        all.take(d as int),
                        old(self).records@[i].path@,
                        self.records@[i].modified,
                    ),
                (ok && snapshot_consistent(all)) ==> forall|j: int|
                    0 <= j < d ==> dir_settled(self.records@, #[trigger] all[j]),
                forall|t: int|
                    old(ledger).entries@.len() <= t < ledger.entries@.len() ==> sources_has_file(
                        all,
                        (#[trigger] ledger.entries@[t]).path@,
                    ),
            decreases rest@.len(),
        {
            proof {
                assert(rest@[0] == all[d as int]);
                assert(all.subrange(d as int, all.len() as int).remove(0) =~= all.subrange(
                    d + 1,
                    all.len() as int,
                ));
            }
            let ghost pre = *self;
            let ghost pre_ledger = *ledger;
            let ghost pre_ok = ok;
            let dir = rest.remove(0);
            proof {
                assert(dir == all[d as int]);
            }
            console.log_path("Loading scripts from directory", dir.label.as_str());
            match dir.listing {
                Err(_message) => {
                    console.err_path("Failed to read directory", dir.label.as_str());
                    ok = false;
                    proof {
                        assert(dir_entries(all[d as int]) =~= Seq::<SourceEntry>::empty());
                        assert forall|i: int|
                            0 <= i < old(self).records@.len() implies (
                        #[trigger] self.records@[i]).modified == old(self).records@[i].modified
                            || sources_set(
                            all.take(d + 1),
                            old(self).records@[i].path@,
                            self.records@[i].modified,
                        ) by {
                            if self.records@[i].modified != old(self).records@[i].modified {
                                lemma_sources_set_extend(
                                    all,
                                    d as int,
                                    old(self).records@[i].path@,
                                    self.records@[i].modified,
                                );
                            }
                        }
                    }
                },
                Ok(entries) => {
                    let ghost es = entries@;
                    proof {
                        assert(dir_entries(all[d as int]) == es);
                    }
                    let clean = self.load_dir(entries, dir.is_example, ledger, console);
                    if !clean {
                        ok = false;
                    }
                    proof {
                        assert forall|t: int|
                            old(ledger).entries@.len() <= t < ledger.entries@.len() implies
                            sources_has_file(all, (#[trigger] ledger.entries@[t]).path@) by {
                            if t >= pre_ledger.entries@.len() {
                                assert(entries_has_file(
                                    dir_entries(all[d as int]),
                                    ledger.entries@[t].path@,
                                ));
                            } else {
                                assert(ledger.entries@[t] == pre_ledger.entries@[t]);
                            }
                        }
                        // A settled snapshot leaves the pass idle.
                        if sources_settled(old(self).records@, all) {
                            assert(dir_settled(old(self).records@, all[d as int]));
                            assert(pre == *old(self));
                            assert(forall|t: int|
                                0 <= t < es.len() ==> entry_settled(
                                    old(self).records@,
                                    #[trigger] es[t],
                                ));
                            assert(*self == *old(self) && *ledger == *old(ledger));
                        }
                        // A timestamp moves only toward one of the snapshot's entries.
                        assert forall|i: int|
                            0 <= i < old(self).records@.len() implies (
                        #[trigger] self.records@[i]).modified == old(self).records@[i].modified
                            || sources_set(
                            all.take(d + 1),
                            old(self).records@[i].path@,
                            self.records@[i].modified,
                        ) by {
                            if self.records@[i].modified != old(self).records@[i].modified {
                                if self.records@[i].modified == pre.records@[i].modified {
                                    lemma_sources_set_extend(
                                        all,
                                        d as int,
                                        old(self).records@[i].path@,
                                        self.records@[i].modified,
                                    );
                                } else {
                                    assert(entries_set(
                                        es,
                                        pre.records@[i].path@,
                                        self.records@[i].modified,
                                    ));
                                    assert(all.take(d + 1)[d as int] == all[d as int]);
                                    assert(entries_set(
                                        dir_entries(all.take(d + 1)[d as int]),
                                        old(self).records@[i].path@,
                                        self.records@[i].modified,
                                    ));
                                    assert(sources_set(
                                        all.take(d + 1),
                                        old(self).records@[i].path@,
                                        self.records@[i].modified,
                                    ));
                                }
                            }
                        }
                        // A clean, consistent prefix of directories stays settled.
                        if ok && snapshot_consistent(all) {
                            assert(pre_ok && clean);
                            assert(entries_consistent(es)) by {
                                assert forall|k1: int, k2: int|
                                    0 <= k1 < es.len() && 0 <= k2 < es.len() && (
                                #[trigger] es[k1]) is File && (#[trigger] es[k2]) is File
                                    && entry_path(es[k1]) == entry_path(es[k2]) implies
                                    entry_modified(es[k1]) == entry_modified(es[k2]) by {
                                    assert(dir_entries(all[d as int])[k1] == es[k1]);
                                    assert(dir_entries(all[d as int])[k2] == es[k2]);
                                }
                            }
                            assert forall|j: int| 0 <= j < d + 1 implies dir_settled(
                                self.records@,
                                #[trigger] all[j],
                            ) by {
                                if j == d {
                                    assert forall|t: int|
                                        0 <= t < dir_entries(all[j]).len() implies entry_settled(
                                        self.records@,
                                        #[trigger] dir_entries(all[j])[t],
                                    ) by {
                                        assert(dir_entries(all[j])[t] == es[t]);
                                        assert(entry_settled(self.records@, es[t]));
                                    }
                                } else {
                                    assert(dir_settled(pre.records@, all[j]));
                                    assert forall|t: int|
                                        0 <= t < dir_entries(all[j]).len() implies entry_settled(
                                        self.records@,
                                        #[trigger] dir_entries(all[j])[t],
                                    ) by {
                                        let e = dir_entries(all[j])[t];
                                        assert(entry_settled(pre.records@, e));
                                        if entry_relevant(e) {
                                            let pt = entry_path(e);
                                            let mt = entry_modified(e);
                                            let it = index_of_path(pre.records@, pt);
                                            assert(0 <= it < pre.records@.len()
                                                && pre.records@[it].path@ == pt);
                                            assert(pre.records@[it].modified == mt);
                                            assert(self.records@[it].path@ == pt);
                                            lemma_index_of_path(self.records@, pt, it);
                                            if self.records@[it].modified != mt {
                                                assert(entries_set(
                                                    es,
                                                    pre.records@[it].path@,
                                                    self.records@[it].modified,
                                                ));
                                                let k2 = choose|k2: int|
                                                    0 <= k2 < es.len() && entry_relevant(
                                                        #[trigger] es[k2],
                                                    ) && entry_path(es[k2]) == pt
                                                        && entry_modified(es[k2])
                                                        == self.records@[it].modified;
                                                assert(dir_entries(all[d as int])[k2] == es[k2]);
                                                assert(entry_modified(dir_entries(all[j])[t])
                                                    == entry_modified(
                                                    dir_entries(all[d as int])[k2],
                                                ));
                                                assert(false);
                                            }
                                        }
                                    }
                                }
                            }
                        }
                    }
                },
            }
            d += 1;
        }
        proof {
            assert(all.take(n_total as int) =~= all);
        }
        ok
    }

    /// A convenience re-invocation of `load` over a fresh snapshot of the
    /// same source set used at startup, for live development and manual
    /// refresh.
    pub fn reload<C: ConsoleSink>(
        &mut self,
        sources: Vec<SourceDir>,
        ledger: &mut ErrorLedger,
        console: &mut C,
    ) -> (ok: bool)
        requires
            old(self).wf(),
        ensures
            final(self).wf(),
            final(self).engine == old(self).engine,
            preserves_prefix(old(self).records@, final(self).records@),
            ledger_extends(*old(ledger), *final(ledger)),
            ok == (final(ledger).entries@.len() == old(ledger).entries@.len() && sources_listed(
                sources@,
            )),
            sources_settled(old(self).records@, sources@) ==> *final(self) == *old(self) && *final(ledger) == *old(ledger),
            (ok && snapshot_consistent(sources@)) ==> sources_settled(
                final(self).records@,
                sources@,
            ),
            forall|t: int|
                old(ledger).entries@.len() <= t < final(ledger).entries@.len()
                    ==> sources_has_file(sources@, (#[trigger] final(ledger).entries@[t]).path@),
            forall|i: int|
                0 <= i < old(self).records@.len() ==> (#[trigger] final(self).records@[i]).modified
                    == old(self).records@[i].modified || sources_set(
                    sources@,
                    old(self).records@[i].path@,
                    final(self).records@[i].modified,
                ),
    {
        self.load(sources, ledger, console)
    }

    /// Invoke the zero-argument function `entry_point` inside the selected
    /// script's execution scope. A bad index or a failing script yields an
    /// error value; neither disturbs any other record, and the selected
    /// record keeps its identity, unit and timestamp.
    pub fn call(&mut self, index: usize, entry_point: &str) -> (r: Result<(), InvocationError>)
        ensures
            final(self).records@.len() == old(self).records@.len(),
            final(self).engine == old(self).engine,
            (r matches Err(e) && e is OutOfRange) <==> index >= old(self).records@.len(),
            forall|i: int|
                0 <= i < old(self).records@.len() && i != index ==> final(self).records@[i] == old(self).records@[i],
            index < old(self).records@.len() ==> same_script(
                final(self).records@[index as int],
                old(self).records@[index as int],
            ),
            old(self).wf() ==> final(self).wf(),
    {
        if index >= self.records.len() {
            return Err(InvocationError::OutOfRange);
        }
        let rec = &mut self.records[index];
        let res = call_unit_fn(&self.engine, &mut rec.scope, &rec.unit, entry_point);
        match res {
            Ok(_) => Ok(()),
            Err(message) => Err(InvocationError::Failed(message)),
        }
    }

    /// Invoke `entry_point` once per live script, in order, never stopping
    /// early: one script's failure cannot keep another script's entry point
    /// from running in the same frame. The result holds one slot per
    /// record — the failure's message, or nothing on success.
    pub fn call_each(&mut self, entry_point: &str) -> (out: Vec<Option<String>>)
        ensures
            out@.len() == old(self).records@.len(),
            final(self).records@.len() == old(self).records@.len(),
            final(self).engine == old(self).engine,
            forall|i: int|
                0 <= i < old(self).records@.len() ==> same_script(
                    #[trigger] final(self).records@[i],
                    old(self).records@[i],
                ),
            old(self).wf() ==> final(self).wf(),
    {
        let mut out: Vec<Option<String>> = Vec::new();
        let n = self.records.len();
        let mut i: usize = 0;
        while i < n
            invariant
                0 <= i <= n,
                n == old(self).records@.len(),
                self.records@.len() == n,
                self.engine == old(self).engine,
                out@.len() == i,
                forall|j: int|
                    0 <= j < n ==> same_script(#[trigger] self.records@[j], old(self).records@[j]),
            decreases n - i,
        {
            let rec = &mut self.records[i];
            let res = call_unit_fn(&self.engine, &mut rec.scope, &rec.unit, entry_point);
            match res {
                Ok(_) => out.push(None),
                Err(message) => out.push(Some(message)),
            }
            i += 1;
        }
        out
    }
}

} // verus!
