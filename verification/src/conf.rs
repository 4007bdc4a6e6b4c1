//! Validation helpers for user-facing configuration values.

use vstd::prelude::*;

verus! {

/// Number of characters in a hex color code such as `#1a2b3c`.
pub const HEX_CODE_LEN: usize = 7;

/// A character that may appear in the digit part of a hex color code.
pub open spec fn is_hex_digit(c: char) -> bool {
    ('0' <= c && c <= '9') || ('a' <= c && c <= 'f') || ('A' <= c && c <= 'F')
}

/// What it means for a string to be a well-formed hex color code:
/// a `#` followed by exactly six hex digits.
pub open spec fn is_hex_color(s: Seq<char>) -> bool {
    &&& s.len() == HEX_CODE_LEN
    &&& s[0] == '#'
    &&& forall|i: int| 1 <= i < s.len() ==> is_hex_digit(#[trigger] s[i])
}

/// Reports whether `color` is a well-formed hex color code.
pub fn valid_hex_color(color: &str) -> (r: bool)
    ensures
        r == is_hex_color(color@),
{
    let len = color.unicode_len();
    if len != HEX_CODE_LEN {
        return false;
    }
    if color.get_char(0) != '#' {
        return false;
    }
    let mut i: usize = 1;
    while i < HEX_CODE_LEN
        invariant
            1 <= i <= HEX_CODE_LEN,
            color@.len() == HEX_CODE_LEN,
            forall|j: int| 1 <= j < i ==> is_hex_digit(#[trigger] color@[j]),
        decreases HEX_CODE_LEN - i,
    {
        let c = color.get_char(i);
        let digit = ('0' <= c && c <= '9') || ('a' <= c && c <= 'f') || ('A' <= c && c <= 'F');
        if !digit {
            return false;
        }
        i += 1;
    }
    true
}

} // verus!
