use script_host::console::ConsoleSink;
use script_host::host::{ScriptHost, SourceDir, SourceEntry};
use script_host::ledger::ErrorLedger;
use script_host::rhai_api::scope_get_int;
use script_host::surface::{
    build_scope, color_const, function_name, key_const, mouse_const, COLOR_CONST_COUNT,
    FUNCTION_COUNT, KEY_CONST_COUNT, MOUSE_CONST_COUNT,
};

struct Quiet;

impl ConsoleSink for Quiet {
    fn log(&mut self, _text: &str) {}
    fn warn(&mut self, _text: &str) {}
    fn err(&mut self, _text: &str) {}
    fn log_path(&mut self, _text: &str, _path: &str) {}
    fn warn_path(&mut self, _text: &str, _path: &str) {}
    fn err_path(&mut self, _text: &str, _path: &str) {}
}

fn load_one(source: &str) -> ScriptHost {
    let mut host = ScriptHost::new();
    let mut ledger = ErrorLedger::new();
    let mut console = Quiet;
    let snapshot = vec![SourceDir {
        label: "scripts".to_string(),
        is_example: false,
        listing: Ok(vec![SourceEntry::File {
            path: "scripts/s.rhai".to_string(),
            modified: 1,
            contents: Ok(source.to_string()),
        }]),
    }];
    assert!(host.load(snapshot, &mut ledger, &mut console));
    assert_eq!(host.records.len(), 1);
    host
}

#[test]
fn table_sizes() {
    assert_eq!(COLOR_CONST_COUNT, 26);
    assert_eq!(KEY_CONST_COUNT, 121);
    assert_eq!(MOUSE_CONST_COUNT, 4);
    assert_eq!(FUNCTION_COUNT, 29);
}

#[test]
fn table_entries() {
    assert_eq!(color_const(0), ("LIGHTGRAY", 0xc7c7c7ff));
    assert_eq!(color_const(7), ("RED", 0xe62938ff));
    assert_eq!(color_const(25), ("WIN98_BG", 0x008080ff));
    assert_eq!(key_const(0), ("KEY_SPACE", 0x20));
    assert_eq!(key_const(120), ("KEY_UNKOWN", 0x01ff));
    assert_eq!(mouse_const(0), ("MOUSE_LEFT", 0));
    assert_eq!(mouse_const(1), ("MOUSE_RIGHT", 2));
    assert_eq!(mouse_const(2), ("MOUSE_MIDDLE", 1));
    assert_eq!(mouse_const(3), ("MOUSE_UNKNOWN", 255));
    assert_eq!(function_name(0), "clear");
    assert_eq!(function_name(28), "color");
}

#[test]
fn every_scope_sees_the_surface_constants() {
    let host = load_one("let own = 5;");
    let scope = &host.records[0].scope;
    assert_eq!(scope_get_int(scope, "KEY_SPACE"), Some(0x20));
    assert_eq!(scope_get_int(scope, "KEY_ESCAPE"), Some(0xff1b));
    assert_eq!(scope_get_int(scope, "MOUSE_LEFT"), Some(0));
    assert_eq!(scope_get_int(scope, "RED"), Some(0xe62938ff));
    assert_eq!(scope_get_int(scope, "own"), Some(5));
    assert_eq!(scope_get_int(scope, "not_bound"), None);
}

#[test]
fn a_literal_variable_shadows_a_surface_constant() {
    let host = load_one("let KEY_SPACE = 7;");
    let scope = &host.records[0].scope;
    assert_eq!(scope_get_int(scope, "KEY_SPACE"), Some(7));
}

#[test]
fn build_scope_is_identical_for_every_unit() {
    // Two hosts, same source: the surface bound into each scope is the same.
    let a = load_one("let v = 1;");
    let b = load_one("let v = 1;");
    let sa = build_scope(&a.records[0].unit);
    let sb = build_scope(&b.records[0].unit);
    assert_eq!(scope_get_int(&sa, "GOLD"), scope_get_int(&sb, "GOLD"));
    assert_eq!(scope_get_int(&sa, "KEY_A"), Some(0x41));
    assert_eq!(scope_get_int(&sb, "KEY_A"), Some(0x41));
    assert_eq!(scope_get_int(&sa, "v"), Some(1));
}
