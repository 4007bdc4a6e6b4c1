//! The capability surface: the fixed set of names the host binds into
//! every script's scope before the script runs.
//!
//! Colors are packed as `0xRRGGBBAA` integers, key codes and mouse buttons
//! as their platform scan codes, so that every constant is a plain value.
//! The tables are closed and identical for every script; registration of
//! the callable drawing and input functions themselves lives with the
//! caller, which must cover exactly the names listed here.

use vstd::prelude::*;

use crate::rhai_api::{
    ast_literals, scope_int_of, scope_ints, scope_names, scope_new, scope_push_const_dynamic,
    scope_push_const_int, scope_push_dynamic, unit_literal_vars,
};

verus! {

/// How many color constants the surface binds.
pub const COLOR_CONST_COUNT: usize = 26;

/// The name and packed value of the color constant at position `i`.
pub open spec fn color_const_at(i: int) -> (Seq<char>, i64) {
    if i == 0 {
        ("LIGHTGRAY"@, 0xc7c7c7ff)
    } else if i == 1 {
        ("GRAY"@, 0x828282ff)
    } else if i == 2 {
        ("DARKGRAY"@, 0x4f4f4fff)
    } else if i == 3 {
        ("YELLOW"@, 0xfcfa00ff)
    } else if i == 4 {
        ("GOLD"@, 0xffcc00ff)
    } else if i == 5 {
        ("ORANGE"@, 0xffa100ff)
    } else if i == 6 {
        ("PINK"@, 0xff6ec2ff)
    } else if i == 7 {
        ("RED"@, 0xe62938ff)
    } else if i == 8 {
        ("MAROON"@, 0xbf2138ff)
    } else if i == 9 {
        ("GREEN"@, 0xe330ff)
    } else if i == 10 {
        ("LIME"@, 0x9e2eff)
    } else if i == 11 {
        ("DARKGREEN"@, 0x752bff)
    } else if i == 12 {
        ("SKYBLUE"@, 0x66bfffff)
    } else if i == 13 {
        ("BLUE"@, 0x78f2ff)
    } else if i == 14 {
        ("DARKBLUE"@, 0x52abff)
    } else if i == 15 {
        ("PURPLE"@, 0xc77affff)
    } else if i == 16 {
        ("VIOLET"@, 0x873dbfff)
    } else if i == 17 {
        ("DARKPURPLE"@, 0x701f7dff)
    } else if i == 18 {
        ("BEIGE"@, 0xd4b082ff)
    } else if i == 19 {
        ("BROWN"@, 0x806b4fff)
    } else if i == 20 {
        ("DARKBROWN"@, 0x4c402eff)
    } else if i == 21 {
        ("WHITE"@, 0xffffffff)
    } else if i == 22 {
        ("BLACK"@, 0xff)
    } else if i == 23 {
        ("BLANK"@, 0x0)
    } else if i == 24 {
        ("MAGENTA"@, 0xff00ffff)
    } else if i == 25 {
        ("WIN98_BG"@, 0x8080ff)
    } else {
        (""@, 0)
    }
}

/// The name and packed value of the color constant at position `i`.
pub fn color_const(i: usize) -> (r: (&'static str, i64))
    requires
        i < 26,
    ensures
        r.0@ == color_const_at(i as int).0,
        r.1 == color_const_at(i as int).1,
{
    match i {
        0 => ("LIGHTGRAY", 0xc7c7c7ff),
        1 => ("GRAY", 0x828282ff),
        2 => ("DARKGRAY", 0x4f4f4fff),
        3 => ("YELLOW", 0xfcfa00ff),
        4 => ("GOLD", 0xffcc00ff),
        5 => ("ORANGE", 0xffa100ff),
        6 => ("PINK", 0xff6ec2ff),
        7 => ("RED", 0xe62938ff),
        8 => ("MAROON", 0xbf2138ff),
        9 => ("GREEN", 0xe330ff),
        10 => ("LIME", 0x9e2eff),
        11 => ("DARKGREEN", 0x752bff),
        12 => ("SKYBLUE", 0x66bfffff),
        13 => ("BLUE", 0x78f2ff),
        14 => ("DARKBLUE", 0x52abff),
        15 => ("PURPLE", 0xc77affff),
        16 => ("VIOLET", 0x873dbfff),
        17 => ("DARKPURPLE", 0x701f7dff),
        18 => ("BEIGE", 0xd4b082ff),
        19 => ("BROWN", 0x806b4fff),
        20 => ("DARKBROWN", 0x4c402eff),
        21 => ("WHITE", 0xffffffff),
        22 => ("BLACK", 0xff),
        23 => ("BLANK", 0x0),
        24 => ("MAGENTA", 0xff00ffff),
        25 => ("WIN98_BG", 0x8080ff),
        _ => ("", 0),
    }
}

/// How many key constants the surface binds.
pub const KEY_CONST_COUNT: usize = 121;

/// The name and packed value of the key constant at position `i`.
pub open spec fn key_const_at(i: int) -> (Seq<char>, i64) {
    if i == 0 {
        ("KEY_SPACE"@, 0x20)
    } else if i == 1 {
        ("KEY_APOSTROPHE"@, 0x27)
    } else if i == 2 {
        ("KEY_COMMA"@, 0x2c)
    } else if i == 3 {
        ("KEY_MINUS"@, 0x2d)
    } else if i == 4 {
        ("KEY_PERIOD"@, 0x2e)
    } else if i == 5 {
        ("KEY_SLASH"@, 0x2f)
    } else if i == 6 {
        ("KEY_KEY0"@, 0x30)
    } else if i == 7 {
        ("KEY_KEY1"@, 0x31)
    } else if i == 8 {
        ("KEY_KEY2"@, 0x32)
    } else if i == 9 {
        ("KEY_KEY3"@, 0x33)
    } else if i == 10 {
        ("KEY_KEY4"@, 0x34)
    } else if i == 11 {
        ("KEY_KEY5"@, 0x35)
    } else if i == 12 {
        ("KEY_KEY6"@, 0x36)
    } else if i == 13 {
        ("KEY_KEY7"@, 0x37)
    } else if i == 14 {
        ("KEY_KEY8"@, 0x38)
    } else if i == 15 {
        ("KEY_KEY9"@, 0x39)
    } else if i == 16 {
        ("KEY_SEMICOLON"@, 0x3b)
    } else if i == 17 {
        ("KEY_EQUAL"@, 0x3d)
    } else if i == 18 {
        ("KEY_A"@, 0x41)
    } else if i == 19 {
        ("KEY_B"@, 0x42)
    } else if i == 20 {
        ("KEY_C"@, 0x43)
    } else if i == 21 {
        ("KEY_D"@, 0x44)
    } else if i == 22 {
        ("KEY_E"@, 0x45)
    } else if i == 23 {
        ("KEY_F"@, 0x46)
    } else if i == 24 {
        ("KEY_G"@, 0x47)
    } else if i == 25 {
        ("KEY_H"@, 0x48)
    } else if i == 26 {
        ("KEY_I"@, 0x49)
    } else if i == 27 {
        ("KEY_J"@, 0x4a)
    } else if i == 28 {
        ("KEY_K"@, 0x4b)
    } else if i == 29 {
        ("KEY_L"@, 0x4c)
    } else if i == 30 {
        ("KEY_M"@, 0x4d)
    } else if i == 31 {
        ("KEY_N"@, 0x4e)
    } else if i == 32 {
        ("KEY_O"@, 0x4f)
    } else if i == 33 {
        ("KEY_P"@, 0x50)
    } else if i == 34 {
        ("KEY_Q"@, 0x51)
    } else if i == 35 {
        ("KEY_R"@, 0x52)
    } else if i == 36 {
        ("KEY_S"@, 0x53)
    } else if i == 37 {
        ("KEY_T"@, 0x54)
    } else if i == 38 {
        ("KEY_U"@, 0x55)
    } else if i == 39 {
        ("KEY_V"@, 0x56)
    } else if i == 40 {
        ("KEY_W"@, 0x57)
    } else if i == 41 {
        ("KEY_X"@, 0x58)
    } else if i == 42 {
        ("KEY_Y"@, 0x59)
    } else if i == 43 {
        ("KEY_Z"@, 0x5a)
    } else if i == 44 {
        ("KEY_LEFTBRACKET"@, 0x5b)
    } else if i == 45 {
        ("KEY_BACKSLASH"@, 0x5c)
    } else if i == 46 {
        ("KEY_RIGHTBRACKET"@, 0x5d)
    } else if i == 47 {
        ("KEY_GRAVEACCENT"@, 0x60)
    } else if i == 48 {
        ("KEY_WORLD1"@, 0x100)
    } else if i == 49 {
        ("KEY_WORLD2"@, 0x101)
    } else if i == 50 {
        ("KEY_ESCAPE"@, 0xff1b)
    } else if i == 51 {
        ("KEY_ENTER"@, 0xff0d)
    } else if i == 52 {
        ("KEY_TAB"@, 0xff09)
    } else if i == 53 {
        ("KEY_BACKSPACE"@, 0xff08)
    } else if i == 54 {
        ("KEY_INSERT"@, 0xff63)
    } else if i == 55 {
        ("KEY_DELETE"@, 0xffff)
    } else if i == 56 {
        ("KEY_RIGHT"@, 0xff53)
    } else if i == 57 {
        ("KEY_LEFT"@, 0xff51)
    } else if i == 58 {
        ("KEY_DOWN"@, 0xff54)
    } else if i == 59 {
        ("KEY_UP"@, 0xff52)
    } else if i == 60 {
        ("KEY_PAGEUP"@, 0xff55)
    } else if i == 61 {
        ("KEY_PAGEDOWN"@, 0xff56)
    } else if i == 62 {
        ("KEY_HOME"@, 0xff50)
    } else if i == 63 {
        ("KEY_END"@, 0xff57)
    } else if i == 64 {
        ("KEY_CAPSLOCK"@, 0xffe5)
    } else if i == 65 {
        ("KEY_SCROLLLOCK"@, 0xff14)
    } else if i == 66 {
        ("KEY_NUMLOCK"@, 0xff7f)
    } else if i == 67 {
        ("KEY_PRINTSCREEN"@, 0xfd1d)
    } else if i == 68 {
        ("KEY_PAUSE"@, 0xff13)
    } else if i == 69 {
        ("KEY_F1"@, 0xffbe)
    } else if i == 70 {
        ("KEY_F2"@, 0xffbf)
    } else if i == 71 {
        ("KEY_F3"@, 0xffc0)
    } else if i == 72 {
        ("KEY_F4"@, 0xffc1)
    } else if i == 73 {
        ("KEY_F5"@, 0xffc2)
    } else if i == 74 {
        ("KEY_F6"@, 0xffc3)
    } else if i == 75 {
        ("KEY_F7"@, 0xffc4)
    } else if i == 76 {
        ("KEY_F8"@, 0xffc5)
    } else if i == 77 {
        ("KEY_F9"@, 0xffc6)
    } else if i == 78 {
        ("KEY_F10"@, 0xffc7)
    } else if i == 79 {
        ("KEY_F11"@, 0xffc8)
    } else if i == 80 {
        ("KEY_F12"@, 0xffc9)
    } else if i == 81 {
        ("KEY_F13"@, 0xffca)
    } else if i == 82 {
        ("KEY_F14"@, 0xffcb)
    } else if i == 83 {
        ("KEY_F15"@, 0xffcc)
    } else if i == 84 {
        ("KEY_F16"@, 0xffcd)
    } else if i == 85 {
        ("KEY_F17"@, 0xffce)
    } else if i == 86 {
        ("KEY_F18"@, 0xffcf)
    } else if i == 87 {
        ("KEY_F19"@, 0xffd0)
    } else if i == 88 {
        ("KEY_F20"@, 0xffd1)
    } else if i == 89 {
        ("KEY_F21"@, 0xffd2)
    } else if i == 90 {
        ("KEY_F22"@, 0xffd3)
    } else if i == 91 {
        ("KEY_F23"@, 0xffd4)
    } else if i == 92 {
        ("KEY_F24"@, 0xffd5)
    } else if i == 93 {
        ("KEY_F25"@, 0xffd6)
    } else if i == 94 {
        ("KEY_KP0"@, 0xffb0)
    } else if i == 95 {
        ("KEY_KP1"@, 0xffb1)
    } else if i == 96 {
        ("KEY_KP2"@, 0xffb2)
    } else if i == 97 {
        ("KEY_KP3"@, 0xffb3)
    } else if i == 98 {
        ("KEY_KP4"@, 0xffb4)
    } else if i == 99 {
        ("KEY_KP5"@, 0xffb5)
    } else if i == 100 {
        ("KEY_KP6"@, 0xffb6)
    } else if i == 101 {
        ("KEY_KP7"@, 0xffb7)
    } else if i == 102 {
        ("KEY_KP8"@, 0xffb8)
    } else if i == 103 {
        ("KEY_KP9"@, 0xffb9)
    } else if i == 104 {
        ("KEY_KPDECIMAL"@, 0xffae)
    } else if i == 105 {
        ("KEY_KPDIVIDE"@, 0xffaf)
    } else if i == 106 {
        ("KEY_KPMULTIPLY"@, 0xffaa)
    } else if i == 107 {
        ("KEY_KPSUBTRACT"@, 0xffad)
    } else if i == 108 {
        ("KEY_KPADD"@, 0xffab)
    } else if i == 109 {
        ("KEY_KPENTER"@, 0xff8d)
    } else if i == 110 {
        ("KEY_KPEQUAL"@, 0xffbd)
    } else if i == 111 {
        ("KEY_LEFTSHIFT"@, 0xffe1)
    } else if i == 112 {
        ("KEY_LEFTCONTROL"@, 0xffe3)
    } else if i == 113 {
        ("KEY_LEFTALT"@, 0xffe9)
    } else if i == 114 {
        ("KEY_LEFTSUPER"@, 0xffeb)
    } else if i == 115 {
        ("KEY_RIGHTSHIFT"@, 0xffe2)
    } else if i == 116 {
        ("KEY_RIGHTCONTROL"@, 0xffe4)
    } else if i == 117 {
        ("KEY_RIGHTALT"@, 0xffea)
    } else if i == 118 {
        ("KEY_RIGHTSUPER"@, 0xffec)
    } else if i == 119 {
        ("KEY_MENU"@, 0xff67)
    } else if i == 120 {
        ("KEY_UNKOWN"@, 0x1ff)
    } else {
        (""@, 0)
    }
}

/// The name and packed value of the key constant at position `i`.
pub fn key_const(i: usize) -> (r: (&'static str, i64))
    requires
        i < 121,
    ensures
        r.0@ == key_const_at(i as int).0,
        r.1 == key_const_at(i as int).1,
{
    match i {
        0 => ("KEY_SPACE", 0x20),
        1 => ("KEY_APOSTROPHE", 0x27),
        2 => ("KEY_COMMA", 0x2c),
        3 => ("KEY_MINUS", 0x2d),
        4 => ("KEY_PERIOD", 0x2e),
        5 => ("KEY_SLASH", 0x2f),
        6 => ("KEY_KEY0", 0x30),
        7 => ("KEY_KEY1", 0x31),
        8 => ("KEY_KEY2", 0x32),
        9 => ("KEY_KEY3", 0x33),
        10 => ("KEY_KEY4", 0x34),
        11 => ("KEY_KEY5", 0x35),
        12 => ("KEY_KEY6", 0x36),
        13 => ("KEY_KEY7", 0x37),
        14 => ("KEY_KEY8", 0x38),
        15 => ("KEY_KEY9", 0x39),
        16 => ("KEY_SEMICOLON", 0x3b),
        17 => ("KEY_EQUAL", 0x3d),
        18 => ("KEY_A", 0x41),
        19 => ("KEY_B", 0x42),
        20 => ("KEY_C", 0x43),
        21 => ("KEY_D", 0x44),
        22 => ("KEY_E", 0x45),
        23 => ("KEY_F", 0x46),
        24 => ("KEY_G", 0x47),
        25 => ("KEY_H", 0x48),
        26 => ("KEY_I", 0x49),
        27 => ("KEY_J", 0x4a),
        28 => ("KEY_K", 0x4b),
        29 => ("KEY_L", 0x4c),
        30 => ("KEY_M", 0x4d),
        31 => ("KEY_N", 0x4e),
        32 => ("KEY_O", 0x4f),
        33 => ("KEY_P", 0x50),
        34 => ("KEY_Q", 0x51),
        35 => ("KEY_R", 0x52),
        36 => ("KEY_S", 0x53),
        37 => ("KEY_T", 0x54),
        38 => ("KEY_U", 0x55),
        39 => ("KEY_V", 0x56),
        40 => ("KEY_W", 0x57),
        41 => ("KEY_X", 0x58),
        42 => ("KEY_Y", 0x59),
        43 => ("KEY_Z", 0x5a),
        44 => ("KEY_LEFTBRACKET", 0x5b),
        45 => ("KEY_BACKSLASH", 0x5c),
        46 => ("KEY_RIGHTBRACKET", 0x5d),
        47 => ("KEY_GRAVEACCENT", 0x60),
        48 => ("KEY_WORLD1", 0x100),
        49 => ("KEY_WORLD2", 0x101),
        50 => ("KEY_ESCAPE", 0xff1b),
        51 => ("KEY_ENTER", 0xff0d),
        52 => ("KEY_TAB", 0xff09),
        53 => ("KEY_BACKSPACE", 0xff08),
        54 => ("KEY_INSERT", 0xff63),
        55 => ("KEY_DELETE", 0xffff),
        56 => ("KEY_RIGHT", 0xff53),
        57 => ("KEY_LEFT", 0xff51),
        58 => ("KEY_DOWN", 0xff54),
        59 => ("KEY_UP", 0xff52),
        60 => ("KEY_PAGEUP", 0xff55),
        61 => ("KEY_PAGEDOWN", 0xff56),
        62 => ("KEY_HOME", 0xff50),
        63 => ("KEY_END", 0xff57),
        64 => ("KEY_CAPSLOCK", 0xffe5),
        65 => ("KEY_SCROLLLOCK", 0xff14),
        66 => ("KEY_NUMLOCK", 0xff7f),
        67 => ("KEY_PRINTSCREEN", 0xfd1d),
        68 => ("KEY_PAUSE", 0xff13),
        69 => ("KEY_F1", 0xffbe),
        70 => ("KEY_F2", 0xffbf),
        71 => ("KEY_F3", 0xffc0),
        72 => ("KEY_F4", 0xffc1),
        73 => ("KEY_F5", 0xffc2),
        74 => ("KEY_F6", 0xffc3),
        75 => ("KEY_F7", 0xffc4),
        76 => ("KEY_F8", 0xffc5),
        77 => ("KEY_F9", 0xffc6),
        78 => ("KEY_F10", 0xffc7),
        79 => ("KEY_F11", 0xffc8),
        80 => ("KEY_F12", 0xffc9),
        81 => ("KEY_F13", 0xffca),
        82 => ("KEY_F14", 0xffcb),
        83 => ("KEY_F15", 0xffcc),
        84 => ("KEY_F16", 0xffcd),
        85 => ("KEY_F17", 0xffce),
        86 => ("KEY_F18", 0xffcf),
        87 => ("KEY_F19", 0xffd0),
        88 => ("KEY_F20", 0xffd1),
        89 => ("KEY_F21", 0xffd2),
        90 => ("KEY_F22", 0xffd3),
        91 => ("KEY_F23", 0xffd4),
        92 => ("KEY_F24", 0xffd5),
        93 => ("KEY_F25", 0xffd6),
        94 => ("KEY_KP0", 0xffb0),
        95 => ("KEY_KP1", 0xffb1),
        96 => ("KEY_KP2", 0xffb2),
        97 => ("KEY_KP3", 0xffb3),
        98 => ("KEY_KP4", 0xffb4),
        99 => ("KEY_KP5", 0xffb5),
        100 => ("KEY_KP6", 0xffb6),
        101 => ("KEY_KP7", 0xffb7),
        102 => ("KEY_KP8", 0xffb8),
        103 => ("KEY_KP9", 0xffb9),
        104 => ("KEY_KPDECIMAL", 0xffae),
        105 => ("KEY_KPDIVIDE", 0xffaf),
        106 => ("KEY_KPMULTIPLY", 0xffaa),
        107 => ("KEY_KPSUBTRACT", 0xffad),
        108 => ("KEY_KPADD", 0xffab),
        109 => ("KEY_KPENTER", 0xff8d),
        110 => ("KEY_KPEQUAL", 0xffbd),
        111 => ("KEY_LEFTSHIFT", 0xffe1),
        112 => ("KEY_LEFTCONTROL", 0xffe3),
        113 => ("KEY_LEFTALT", 0xffe9),
        114 => ("KEY_LEFTSUPER", 0xffeb),
        115 => ("KEY_RIGHTSHIFT", 0xffe2),
        116 => ("KEY_RIGHTCONTROL", 0xffe4),
        117 => ("KEY_RIGHTALT", 0xffea),
        118 => ("KEY_RIGHTSUPER", 0xffec),
        119 => ("KEY_MENU", 0xff67),
        120 => ("KEY_UNKOWN", 0x1ff),
        _ => ("", 0),
    }
}

/// How many mouse constants the surface binds.
pub const MOUSE_CONST_COUNT: usize = 4;

/// The name and packed value of the mouse constant at position `i`.
pub open spec fn mouse_const_at(i: int) -> (Seq<char>, i64) {
    if i == 0 {
        ("MOUSE_LEFT"@, 0x0)
    } else if i == 1 {
        ("MOUSE_RIGHT"@, 0x2)
    } else if i == 2 {
        ("MOUSE_MIDDLE"@, 0x1)
    } else if i == 3 {
        ("MOUSE_UNKNOWN"@, 0xff)
    } else {
        (""@, 0)
    }
}

/// The name and packed value of the mouse constant at position `i`.
pub fn mouse_const(i: usize) -> (r: (&'static str, i64))
    requires
        i < 4,
    ensures
        r.0@ == mouse_const_at(i as int).0,
        r.1 == mouse_const_at(i as int).1,
{
    match i {
        0 => ("MOUSE_LEFT", 0x0),
        1 => ("MOUSE_RIGHT", 0x2),
        2 => ("MOUSE_MIDDLE", 0x1),
        3 => ("MOUSE_UNKNOWN", 0xff),
        _ => ("", 0),
    }
}


/// The names of the callable host functions every script may use.
pub open spec fn function_name_at(i: int) -> Seq<char> {
    if i == 0 {
        "clear"@
    } else if i == 1 {
        "text"@
    } else if i == 2 {
        "circle"@
    } else if i == 3 {
        "line"@
    } else if i == 4 {
        "triangle"@
    } else if i == 5 {
        "rectangle"@
    } else if i == 6 {
        "rectangle_lines"@
    } else if i == 7 {
        "msgbox"@
    } else if i == 8 {
        "overlaps"@
    } else if i == 9 {
        "texture"@
    } else if i == 10 {
        "texture_ex"@
    } else if i == 11 {
        "texture_pro"@
    } else if i == 12 {
        "load_texture"@
    } else if i == 13 {
        "get_texture"@
    } else if i == 14 {
        "deltatime"@
    } else if i == 15 {
        "screen_width"@
    } else if i == 16 {
        "screen_height"@
    } else if i == 17 {
        "last_keypress"@
    } else if i == 18 {
        "key_down"@
    } else if i == 19 {
        "key_pressed"@
    } else if i == 20 {
        "key_released"@
    } else if i == 21 {
        "mouse_down"@
    } else if i == 22 {
        "mouse_pressed"@
    } else if i == 23 {
        "mouse_released"@
    } else if i == 24 {
        "fps"@
    } else if i == 25 {
        "vec2"@
    } else if i == 26 {
        "vec3"@
    } else if i == 27 {
        "rect"@
    } else if i == 28 {
        "color"@
    } else {
        ""@
    }
}

/// How many callable host functions the surface exposes.
pub const FUNCTION_COUNT: usize = 29;

/// The name of the callable host function at position `i`.
pub fn function_name(i: usize) -> (r: &'static str)
    requires
        i < FUNCTION_COUNT,
    ensures
        r@ == function_name_at(i as int),
{
    match i {
        0 => "clear",
        1 => "text",
        2 => "circle",
        3 => "line",
        4 => "triangle",
        5 => "rectangle",
        6 => "rectangle_lines",
        7 => "msgbox",
        8 => "overlaps",
        9 => "texture",
        10 => "texture_ex",
        11 => "texture_pro",
        12 => "load_texture",
        13 => "get_texture",
        14 => "deltatime",
        15 => "screen_width",
        16 => "screen_height",
        17 => "last_keypress",
        18 => "key_down",
        19 => "key_pressed",
        20 => "key_released",
        21 => "mouse_down",
        22 => "mouse_pressed",
        23 => "mouse_released",
        24 => "fps",
        25 => "vec2",
        26 => "vec3",
        27 => "rect",
        28 => "color",
        _ => "",
    }
}

/// The names of the first `n` color constants, in binding order.
pub open spec fn color_names_upto(n: int) -> Seq<Seq<char>>
    decreases n,
{
    if n <= 0 {
        Seq::empty()
    } else {
        color_names_upto(n - 1).push(color_const_at(n - 1).0)
    }
}

/// The names of every color constant, in binding order.
pub open spec fn color_names() -> Seq<Seq<char>> {
    color_names_upto(COLOR_CONST_COUNT as int)
}

/// `m` after the first `n` color constants are bound over it.
pub open spec fn color_ints_upto(m: Map<Seq<char>, i64>, n: int) -> Map<Seq<char>, i64>
    decreases n,
{
    if n <= 0 {
        m
    } else {
        color_ints_upto(m, n - 1).insert(color_const_at(n - 1).0, color_const_at(n - 1).1)
    }
}

/// The names of the first `n` key constants, in binding order.
pub open spec fn key_names_upto(n: int) -> Seq<Seq<char>>
    decreases n,
{
    if n <= 0 {
        Seq::empty()
    } else {
        key_names_upto(n - 1).push(key_const_at(n - 1).0)
    }
}

/// The names of every key constant, in binding order.
pub open spec fn key_names() -> Seq<Seq<char>> {
    key_names_upto(KEY_CONST_COUNT as int)
}

/// `m` after the first `n` key constants are bound over it.
pub open spec fn key_ints_upto(m: Map<Seq<char>, i64>, n: int) -> Map<Seq<char>, i64>
    decreases n,
{
    if n <= 0 {
        m
    } else {
        key_ints_upto(m, n - 1).insert(key_const_at(n - 1).0, key_const_at(n - 1).1)
    }
}

/// The names of the first `n` mouse constants, in binding order.
pub open spec fn mouse_names_upto(n: int) -> Seq<Seq<char>>
    decreases n,
{
    if n <= 0 {
        Seq::empty()
    } else {
        mouse_names_upto(n - 1).push(mouse_const_at(n - 1).0)
    }
}

/// The names of every mouse constant, in binding order.
pub open spec fn mouse_names() -> Seq<Seq<char>> {
    mouse_names_upto(MOUSE_CONST_COUNT as int)
}

/// `m` after the first `n` mouse constants are bound over it.
pub open spec fn mouse_ints_upto(m: Map<Seq<char>, i64>, n: int) -> Map<Seq<char>, i64>
    decreases n,
{
    if n <= 0 {
        m
    } else {
        mouse_ints_upto(m, n - 1).insert(mouse_const_at(n - 1).0, mouse_const_at(n - 1).1)
    }
}

/// Every constant name the surface binds, in binding order.
pub open spec fn surface_names() -> Seq<Seq<char>> {
    color_names() + key_names() + mouse_names()
}

/// The integer bindings after every surface constant is bound over `base`.
pub open spec fn surface_ints(base: Map<Seq<char>, i64>) -> Map<Seq<char>, i64> {
    mouse_ints_upto(
        key_ints_upto(color_ints_upto(base, COLOR_CONST_COUNT as int), KEY_CONST_COUNT as int),
        MOUSE_CONST_COUNT as int,
    )
}

/// The names of the first `n` literal variables of a unit's top level.
pub open spec fn lit_names_upto(unit: rhai::AST, n: int) -> Seq<Seq<char>>
    decreases n,
{
    if n <= 0 {
        Seq::empty()
    } else {
        lit_names_upto(unit, n - 1).push(ast_literals(unit)[n - 1].0)
    }
}

/// The names of every literal variable of a unit's top level.
pub open spec fn lit_names(unit: rhai::AST) -> Seq<Seq<char>> {
    lit_names_upto(unit, ast_literals(unit).len() as int)
}

/// Looking a name up in a map of integer bindings.
pub open spec fn int_of(m: Map<Seq<char>, i64>, name: Seq<char>) -> Option<i64> {
    if m.dom().contains(name) {
        Some(m[name])
    } else {
        None
    }
}

pub proof fn lemma_lit_names_upto_len(unit: rhai::AST, n: int)
    requires
        n >= 0,
    ensures
        lit_names_upto(unit, n).len() == n,
    decreases n,
{
    if n > 0 {
        lemma_lit_names_upto_len(unit, n - 1);
    }
}

/// What a freshly built scope for `unit` holds: first every surface
/// constant, then the unit's own literal variables; integer lookups of any
/// name no literal variable shadows answer with the surface's value.
pub open spec fn fresh_scope_for(s: rhai::Scope<'static>, unit: rhai::AST) -> bool {
    &&& scope_names(s) == surface_names() + lit_names(unit)
    &&& forall|n: Seq<char>|
        !lit_names(unit).contains(n) ==> scope_int_of(s, n) == int_of(
            surface_ints(Map::<Seq<char>, i64>::empty()),
            n,
        )
}

/// Bind the capability constants and then the unit's own literal variables
/// into `scope`, in that order. Registration is total: it never depends on
/// which scripts are loaded, so every script sees an identical surface.
pub fn populate_scope(scope: &mut rhai::Scope<'static>, unit: &rhai::AST)
    ensures
        scope_names(*final(scope)) == scope_names(*old(scope)) + surface_names() + lit_names(
            *unit,
        ),
        forall|n: Seq<char>|
            !lit_names(*unit).contains(n) ==> scope_int_of(*final(scope), n) == int_of(
                surface_ints(scope_ints(*old(scope))),
                n,
            ),
{
    let ghost base_names = scope_names(*scope);
    let ghost base_ints = scope_ints(*scope);
    let mut i: usize = 0;
    while i < COLOR_CONST_COUNT
        invariant
            0 <= i <= COLOR_CONST_COUNT,
            scope_names(*scope) == base_names + color_names_upto(i as int),
            scope_ints(*scope) == color_ints_upto(base_ints, i as int),
        decreases COLOR_CONST_COUNT - i,
    {
        let (name, value) = color_const(i);
        proof {
            assert((base_names + color_names_upto(i as int)).push(color_const_at(i as int).0)
                =~= base_names + color_names_upto(i + 1));
        }
        scope_push_const_int(scope, name, value);
        i += 1;
    }
    let mut i: usize = 0;
    proof {
        assert(base_names + color_names() + key_names_upto(0) =~= base_names + color_names());
    }
    while i < KEY_CONST_COUNT
        invariant
            0 <= i <= KEY_CONST_COUNT,
            scope_names(*scope) == base_names + color_names() + key_names_upto(i as int),
            scope_ints(*scope) == key_ints_upto(color_ints_upto(base_ints, COLOR_CONST_COUNT as int), i as int),
        decreases KEY_CONST_COUNT - i,
    {
        let (name, value) = key_const(i);
        proof {
            assert((base_names + color_names() + key_names_upto(i as int)).push(
                key_const_at(i as int).0,
            ) =~= base_names + color_names() + key_names_upto(i + 1));
        }
        scope_push_const_int(scope, name, value);
        i += 1;
    }
    let mut i: usize = 0;
    proof {
        assert(base_names + color_names() + key_names() + mouse_names_upto(0) =~= base_names
            + color_names() + key_names());
    }
    while i < MOUSE_CONST_COUNT
        invariant
            0 <= i <= MOUSE_CONST_COUNT,
            scope_names(*scope) == base_names + color_names() + key_names() + mouse_names_upto(
                i as int,
            ),
            scope_ints(*scope) == mouse_ints_upto(
                key_ints_upto(
                    color_ints_upto(base_ints, COLOR_CONST_COUNT as int),
                    KEY_CONST_COUNT as int,
                ),
                i as int,
            ),
        decreases MOUSE_CONST_COUNT - i,
    {
        let (name, value) = mouse_const(i);
        proof {
            assert((base_names + color_names() + key_names() + mouse_names_upto(i as int)).push(
                mouse_const_at(i as int).0,
            ) =~= base_names + color_names() + key_names() + mouse_names_upto(i + 1));
        }
        scope_push_const_int(scope, name, value);
        i += 1;
    }
    let ghost bound_names = base_names + color_names() + key_names() + mouse_names();
    let ghost bound_ints = surface_ints(base_ints);
    let mut rest = unit_literal_vars(unit);
    let ghost all = rest@;
    let n_total = rest.len();
    let mut k: usize = 0;
    proof {
        assert(bound_names + lit_names_upto(*unit, 0) =~= bound_names);
    }
    while rest.len() > 0
        invariant
            0 <= k <= n_total,
            n_total == all.len(),
            k + rest@.len() == all.len(),
            rest@ == all.subrange(k as int, all.len() as int),
            all.len() == ast_literals(*unit).len(),
            forall|j: int|
                0 <= j < all.len() ==> all[j].0@ == ast_literals(*unit)[j].0 && all[j].1
                    == ast_literals(*unit)[j].1,
            scope_names(*scope) == bound_names + lit_names_upto(*unit, k as int),
            forall|n: Seq<char>|
                !lit_names_upto(*unit, k as int).contains(n) ==> scope_int_of(*scope, n) == int_of(
                    bound_ints,
                    n,
                ),
        decreases rest@.len(),
    {
        proof {
            assert(rest@[0] == all[k as int]);
        }
        let (name, is_const, value) = rest.remove(0);
        let ghost pre = *scope;
        if is_const {
            scope_push_const_dynamic(scope, name.as_str(), value);
        } else {
            scope_push_dynamic(scope, name.as_str(), value);
        }
        proof {
            lemma_lit_names_upto_len(*unit, k as int);
            lemma_lit_names_upto_len(*unit, k + 1);
            let nm = ast_literals(*unit)[k as int].0;
            assert(name@ == nm);
            assert((bound_names + lit_names_upto(*unit, k as int)).push(nm) =~= bound_names
                + lit_names_upto(*unit, k + 1));
            assert(all.subrange(k as int, all.len() as int).remove(0) =~= all.subrange(
                k + 1,
                all.len() as int,
            ));
            assert forall|n: Seq<char>| !lit_names_upto(*unit, k + 1).contains(n) implies
                scope_int_of(*scope, n) == int_of(bound_ints, n) by {
                assert(lit_names_upto(*unit, k + 1)[k as int] == nm);
                assert(n != nm);
                assert(!lit_names_upto(*unit, k as int).contains(n)) by {
                    if lit_names_upto(*unit, k as int).contains(n) {
                        let j = choose|j: int|
                            0 <= j < lit_names_upto(*unit, k as int).len() && lit_names_upto(
                                *unit,
                                k as int,
                            )[j] == n;
                        assert(lit_names_upto(*unit, k + 1)[j] == n);
                    }
                }
                assert(scope_ints(*scope).remove(nm) == scope_ints(pre).remove(nm));
                assert(scope_ints(*scope).dom().contains(n) == scope_ints(pre).dom().contains(n))
                    by {
                    assert(scope_ints(*scope).remove(nm).dom().contains(n) == scope_ints(
                        pre,
                    ).remove(nm).dom().contains(n));
                }
                if scope_ints(*scope).dom().contains(n) {
                    assert(scope_ints(*scope)[n] == scope_ints(pre)[n]) by {
                        assert(scope_ints(*scope).remove(nm)[n] == scope_ints(pre).remove(nm)[n]);
                    }
                }
            }
        }
        k += 1;
    }
    proof {
        assert(scope_names(*scope) =~= scope_names(*old(scope)) + surface_names() + lit_names(
            *unit,
        ));
    }
}

/// Every script sees an identical capability surface: any name that
/// neither script's own literal variables shadow answers the same in both
/// freshly built scopes, whatever the two scripts are.
pub proof fn lemma_surface_identical(
    s1: rhai::Scope<'static>,
    s2: rhai::Scope<'static>,
    u1: rhai::AST,
    u2: rhai::AST,
    n: Seq<char>,
)
    requires
        fresh_scope_for(s1, u1),
        fresh_scope_for(s2, u2),
        !lit_names(u1).contains(n),
        !lit_names(u2).contains(n),
    ensures
        scope_int_of(s1, n) == scope_int_of(s2, n),
{
}

/// A fresh scope for `unit`: the surface constants and then the unit's own
/// literal variables, over nothing else.
pub fn build_scope(unit: &rhai::AST) -> (s: rhai::Scope<'static>)
    ensures
        fresh_scope_for(s, *unit),
{
    let mut s = scope_new();
    populate_scope(&mut s, unit);
    proof {
        assert(scope_names(s) =~= surface_names() + lit_names(*unit));
    }
    s
}

} // verus!
