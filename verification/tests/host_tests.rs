use script_host::console::ConsoleSink;
use script_host::host::{InvocationError, ScriptHost, SourceDir, SourceEntry};
use script_host::ledger::ErrorLedger;
use script_host::record::GameScript;
use script_host::rhai_api::scope_get_int;

struct TestConsole {
    lines: Vec<String>,
}

impl TestConsole {
    fn new() -> TestConsole {
        TestConsole { lines: Vec::new() }
    }
}

impl ConsoleSink for TestConsole {
    fn log(&mut self, text: &str) {
        self.lines.push(format!("log: {text}"));
    }
    fn warn(&mut self, text: &str) {
        self.lines.push(format!("warn: {text}"));
    }
    fn err(&mut self, text: &str) {
        self.lines.push(format!("err: {text}"));
    }
    fn log_path(&mut self, text: &str, path: &str) {
        self.lines.push(format!("log: {text}: {path}"));
    }
    fn warn_path(&mut self, text: &str, path: &str) {
        self.lines.push(format!("warn: {text}: {path}"));
    }
    fn err_path(&mut self, text: &str, path: &str) {
        self.lines.push(format!("err: {text}: {path}"));
    }
}

fn file(path: &str, modified: u64, source: &str) -> SourceEntry {
    SourceEntry::File {
        path: path.to_string(),
        modified,
        contents: Ok(source.to_string()),
    }
}

fn unreadable(path: &str, modified: u64) -> SourceEntry {
    SourceEntry::File {
        path: path.to_string(),
        modified,
        contents: Err("permission denied".to_string()),
    }
}

fn dir(label: &str, is_example: bool, entries: Vec<SourceEntry>) -> SourceDir {
    SourceDir {
        label: label.to_string(),
        is_example,
        listing: Ok(entries),
    }
}

#[test]
fn new_host_is_empty() {
    let host = ScriptHost::new();
    assert_eq!(host.records.len(), 0);
}

#[test]
fn load_adds_new_script() {
    let mut host = ScriptHost::new();
    let mut ledger = ErrorLedger::new();
    let mut console = TestConsole::new();
    let snapshot = vec![dir(
        "scripts",
        false,
        vec![file("scripts/a.rhai", 10, "let x = 1;\nfn update() { }")],
    )];
    let ok = host.load(snapshot, &mut ledger, &mut console);
    assert!(ok);
    assert_eq!(ledger.len(), 0);
    assert_eq!(host.records.len(), 1);
    assert_eq!(host.records[0].path(), "scripts/a.rhai");
    assert_eq!(host.records[0].name(), "a.rhai");
    assert!(!host.records[0].is_example());
    assert!(host.call(0, "update").is_ok());
}

#[test]
fn example_scenario_one_good_one_bad() {
    // Two files: `a.rhai` is valid, `b.rhai` calls a function that does not
    // exist from its top level, so its initial run fails.
    let mut host = ScriptHost::new();
    let mut ledger = ErrorLedger::new();
    let mut console = TestConsole::new();
    let snapshot = vec![dir(
        "scripts",
        false,
        vec![
            file("scripts/a.rhai", 1, "fn update() { }"),
            file("scripts/b.rhai", 1, "no_such_function();"),
        ],
    )];
    let ok = host.load(snapshot, &mut ledger, &mut console);
    assert!(!ok);
    assert_eq!(host.records.len(), 1);
    assert_eq!(host.records[0].path(), "scripts/a.rhai");
    assert_eq!(ledger.len(), 1);
    assert_eq!(ledger.entries[0].path, "scripts/b.rhai");
    assert!(host.call(0, "update").is_ok());
}

#[test]
fn reload_with_unchanged_snapshot_is_idempotent() {
    let mut host = ScriptHost::new();
    let mut ledger = ErrorLedger::new();
    let mut console = TestConsole::new();
    let snapshot = || {
        vec![dir(
            "scripts",
            false,
            vec![
                file("scripts/a.rhai", 7, "let x = 1;\nfn update() { }"),
                file("scripts/b.rhai", 9, "let y = 2;"),
            ],
        )]
    };
    let ok = host.load(snapshot(), &mut ledger, &mut console);
    assert!(ok);
    assert_eq!(host.records.len(), 2);
    let paths: Vec<String> = host.records.iter().map(|r| r.path().to_string()).collect();
    let stamps: Vec<u64> = host.records.iter().map(|r| r.modified).collect();

    let ok = host.reload(snapshot(), &mut ledger, &mut console);
    assert!(ok);
    assert_eq!(ledger.len(), 0);
    assert_eq!(host.records.len(), 2);
    let paths_after: Vec<String> = host.records.iter().map(|r| r.path().to_string()).collect();
    let stamps_after: Vec<u64> = host.records.iter().map(|r| r.modified).collect();
    assert_eq!(paths, paths_after);
    assert_eq!(stamps, stamps_after);
}

#[test]
fn bad_edit_keeps_old_unit_running() {
    let mut host = ScriptHost::new();
    let mut ledger = ErrorLedger::new();
    let mut console = TestConsole::new();
    let good = vec![dir(
        "scripts",
        false,
        vec![file("scripts/a.rhai", 1, "fn update() { }")],
    )];
    assert!(host.load(good, &mut ledger, &mut console));
    assert!(host.call(0, "update").is_ok());

    // The file changes on disk to something that does not parse.
    let bad = vec![dir(
        "scripts",
        false,
        vec![file("scripts/a.rhai", 2, "fn update( {")],
    )];
    let ok = host.load(bad, &mut ledger, &mut console);
    assert!(!ok);
    assert_eq!(host.records.len(), 1);
    assert_eq!(ledger.len(), 1);
    assert_eq!(ledger.entries[0].path, "scripts/a.rhai");
    // The record was left untouched: the old unit still runs, and the
    // timestamp still marks the old version.
    assert_eq!(host.records[0].modified, 1);
    assert!(host.call(0, "update").is_ok());
}

#[test]
fn new_script_activation_appends_in_order() {
    let mut host = ScriptHost::new();
    let mut ledger = ErrorLedger::new();
    let mut console = TestConsole::new();
    let first = vec![dir(
        "scripts",
        false,
        vec![file("scripts/a.rhai", 1, "fn update() { }")],
    )];
    assert!(host.load(first, &mut ledger, &mut console));
    assert_eq!(host.records.len(), 1);

    let second = vec![dir(
        "scripts",
        false,
        vec![
            file("scripts/a.rhai", 1, "fn update() { }"),
            file("scripts/b.rhai", 5, "fn update() { }"),
        ],
    )];
    assert!(host.load(second, &mut ledger, &mut console));
    assert_eq!(host.records.len(), 2);
    assert_eq!(host.records[0].path(), "scripts/a.rhai");
    assert_eq!(host.records[1].path(), "scripts/b.rhai");
    // The new script is immediately callable.
    assert!(host.call(1, "update").is_ok());
}

#[test]
fn failing_update_does_not_stop_the_frame() {
    let mut host = ScriptHost::new();
    let mut ledger = ErrorLedger::new();
    let mut console = TestConsole::new();
    let snapshot = vec![dir(
        "scripts",
        false,
        vec![
            file("scripts/a.rhai", 1, "fn update() { no_such_function(); }"),
            file("scripts/b.rhai", 1, "fn update() { }"),
        ],
    )];
    assert!(host.load(snapshot, &mut ledger, &mut console));
    let results = host.call_each("update");
    assert_eq!(results.len(), 2);
    assert!(results[0].is_some());
    assert!(results[1].is_none());
}

#[test]
fn scopes_are_private_to_each_record() {
    let mut host = ScriptHost::new();
    let mut ledger = ErrorLedger::new();
    let mut console = TestConsole::new();
    let snapshot = vec![dir(
        "scripts",
        false,
        vec![
            file("scripts/a.rhai", 1, "let shared_name = 1;"),
            file("scripts/b.rhai", 1, "let shared_name = 2;"),
        ],
    )];
    assert!(host.load(snapshot, &mut ledger, &mut console));
    assert_eq!(host.records.len(), 2);
    assert_eq!(scope_get_int(&host.records[0].scope, "shared_name"), Some(1));
    assert_eq!(scope_get_int(&host.records[1].scope, "shared_name"), Some(2));
}

#[test]
fn changed_timestamp_recompiles_and_rebuilds_scope() {
    let mut host = ScriptHost::new();
    let mut ledger = ErrorLedger::new();
    let mut console = TestConsole::new();
    let first = vec![dir(
        "scripts",
        false,
        vec![file("scripts/a.rhai", 1, "let marker = 1;")],
    )];
    assert!(host.load(first, &mut ledger, &mut console));
    assert_eq!(scope_get_int(&host.records[0].scope, "marker"), Some(1));

    let second = vec![dir(
        "scripts",
        false,
        vec![file("scripts/a.rhai", 2, "let marker = 42;")],
    )];
    assert!(host.load(second, &mut ledger, &mut console));
    assert_eq!(host.records.len(), 1);
    assert_eq!(host.records[0].modified, 2);
    assert_eq!(scope_get_int(&host.records[0].scope, "marker"), Some(42));
}

#[test]
fn unchanged_timestamp_is_left_alone() {
    let mut host = ScriptHost::new();
    let mut ledger = ErrorLedger::new();
    let mut console = TestConsole::new();
    let first = vec![dir(
        "scripts",
        false,
        vec![file("scripts/a.rhai", 1, "let marker = 1;")],
    )];
    assert!(host.load(first, &mut ledger, &mut console));

    // Same path, same timestamp, different text: the pass must not touch it.
    let second = vec![dir(
        "scripts",
        false,
        vec![file("scripts/a.rhai", 1, "let marker = 99;")],
    )];
    assert!(host.load(second, &mut ledger, &mut console));
    assert_eq!(scope_get_int(&host.records[0].scope, "marker"), Some(1));
}

#[test]
fn wrong_extension_is_skipped() {
    let mut host = ScriptHost::new();
    let mut ledger = ErrorLedger::new();
    let mut console = TestConsole::new();
    let snapshot = vec![dir(
        "scripts",
        false,
        vec![file("scripts/notes.txt", 1, "not a script")],
    )];
    let ok = host.load(snapshot, &mut ledger, &mut console);
    assert!(ok);
    assert_eq!(host.records.len(), 0);
    assert_eq!(ledger.len(), 0);
}

#[test]
fn unreadable_directory_fails_the_pass_but_keeps_loading() {
    let mut host = ScriptHost::new();
    let mut ledger = ErrorLedger::new();
    let mut console = TestConsole::new();
    let snapshot = vec![
        SourceDir {
            label: "scripts".to_string(),
            is_example: false,
            listing: Err("no such directory".to_string()),
        },
        dir(
            "examples",
            true,
            vec![file("examples/e.rhai", 1, "fn update() { }")],
        ),
    ];
    let ok = host.load(snapshot, &mut ledger, &mut console);
    assert!(!ok);
    assert_eq!(ledger.len(), 0);
    assert_eq!(host.records.len(), 1);
    assert!(host.records[0].is_example());
}

#[test]
fn unreadable_file_lands_in_the_ledger() {
    let mut host = ScriptHost::new();
    let mut ledger = ErrorLedger::new();
    let mut console = TestConsole::new();
    let snapshot = vec![dir(
        "scripts",
        false,
        vec![unreadable("scripts/a.rhai", 1)],
    )];
    let ok = host.load(snapshot, &mut ledger, &mut console);
    assert!(!ok);
    assert_eq!(host.records.len(), 0);
    assert_eq!(ledger.len(), 1);
    assert_eq!(ledger.entries[0].path, "scripts/a.rhai");
    assert_eq!(ledger.entries[0].message, "permission denied");
}

#[test]
fn call_out_of_range_is_an_error_value() {
    let mut host = ScriptHost::new();
    let r = host.call(3, "update");
    assert!(matches!(r, Err(InvocationError::OutOfRange)));
}

#[test]
fn call_missing_entry_point_is_recoverable() {
    let mut host = ScriptHost::new();
    let mut ledger = ErrorLedger::new();
    let mut console = TestConsole::new();
    let snapshot = vec![dir(
        "scripts",
        false,
        vec![file("scripts/a.rhai", 1, "fn update() { }")],
    )];
    assert!(host.load(snapshot, &mut ledger, &mut console));
    let r = host.call(0, "draw");
    assert!(matches!(r, Err(InvocationError::Failed(_))));
    // The host survives and the script still answers its real entry point.
    assert!(host.call(0, "update").is_ok());
}

#[test]
fn reset_drops_every_binding_of_a_record() {
    let mut host = ScriptHost::new();
    let mut ledger = ErrorLedger::new();
    let mut console = TestConsole::new();
    let snapshot = vec![dir(
        "scripts",
        false,
        vec![file("scripts/a.rhai", 1, "let marker = 1;")],
    )];
    assert!(host.load(snapshot, &mut ledger, &mut console));
    assert_eq!(scope_get_int(&host.records[0].scope, "KEY_SPACE"), Some(32));
    host.records[0].reset();
    assert_eq!(scope_get_int(&host.records[0].scope, "KEY_SPACE"), None);
    assert_eq!(scope_get_int(&host.records[0].scope, "marker"), None);
    // The identity survives a reset.
    assert_eq!(host.records[0].path(), "scripts/a.rhai");
    assert_eq!(host.records[0].modified, 1);
}

#[test]
fn records_answer_the_script_interface() {
    let mut host = ScriptHost::new();
    let mut ledger = ErrorLedger::new();
    let mut console = TestConsole::new();
    let snapshot = vec![dir(
        "examples",
        true,
        vec![file("examples/e.rhai", 3, "fn update() { }")],
    )];
    assert!(host.load(snapshot, &mut ledger, &mut console));
    let record: &dyn GameScript = &host.records[0];
    assert_eq!(record.path(), "examples/e.rhai");
    assert_eq!(record.name(), "e.rhai");
    assert!(record.is_example());
}

#[test]
fn scripts_gives_access_to_the_live_records() {
    let mut host = ScriptHost::new();
    let mut ledger = ErrorLedger::new();
    let mut console = TestConsole::new();
    let snapshot = vec![dir(
        "scripts",
        false,
        vec![file("scripts/a.rhai", 1, "fn update() { }")],
    )];
    assert!(host.load(snapshot, &mut ledger, &mut console));
    assert_eq!(host.len(), 1);
    assert_eq!(host.scripts().len(), 1);
    assert_eq!(host.scripts()[0].name(), "a.rhai");
}

#[test]
fn ledger_clear_resets_the_pass() {
    let mut ledger = ErrorLedger::new();
    ledger.push("a".to_string(), "oops".to_string());
    assert_eq!(ledger.len(), 1);
    assert!(!ledger.is_empty());
    ledger.clear();
    assert_eq!(ledger.len(), 0);
    assert!(ledger.is_empty());
}
