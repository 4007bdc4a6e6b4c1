use script_host::conf::valid_hex_color;
use script_host::dirs::Dirs;
use script_host::host::extension;
use script_host::text::{file_name, has_extension};

#[test]
fn hex_colors() {
    assert!(valid_hex_color("#1a2b3c"));
    assert!(valid_hex_color("#ABCDEF"));
    assert!(valid_hex_color("#000000"));
    assert!(!valid_hex_color("1a2b3c7"));
    assert!(!valid_hex_color("#1a2b3"));
    assert!(!valid_hex_color("#1a2b3cd"));
    assert!(!valid_hex_color("#1a2b3g"));
    assert!(!valid_hex_color(""));
}

#[test]
fn extension_filter() {
    assert_eq!(extension(), "rhai");
    assert!(has_extension("scripts/game.rhai", "rhai"));
    assert!(has_extension("a.rhai", "rhai"));
    assert!(!has_extension("scripts/game.lua", "rhai"));
    assert!(!has_extension("rhai", "rhai"));
    assert!(has_extension(".rhai", "rhai"));
    assert!(!has_extension("scripts/gamerhai", "rhai"));
}

#[test]
fn directory_layout() {
    let dirs = Dirs::new("kgames");
    assert_eq!(dirs.root, "kgames");
    assert_eq!(dirs.scripts, "kgames/scripts");
    assert_eq!(dirs.examples, "kgames/examples");
    assert_eq!(dirs.assets, "kgames/assets");
}

#[test]
fn file_names() {
    assert_eq!(file_name("scripts/game.rhai"), "game.rhai");
    assert_eq!(file_name("a/b/c.rhai"), "c.rhai");
    assert_eq!(file_name("plain.rhai"), "plain.rhai");
    assert_eq!(file_name("dir/"), "");
    assert_eq!(file_name(""), "");
}
