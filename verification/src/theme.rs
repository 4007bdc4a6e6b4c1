//! The fixed, ordered list of display themes, cycled with explicit
//! `next`/`previous` steps that return to the first theme after the last.

use vstd::prelude::*;

verus! {

/// One of the fixed display themes, in cycling order.
#[derive(Clone, Copy, Debug, PartialEq, Eq, Structural)]
pub enum Theme {
    Default,
    Gruvbox,
    Matrix,
    Midnight,
    Bolus,
}

/// The position of a theme in the cycling order.
pub open spec fn theme_index(t: Theme) -> int {
    match t {
        Theme::Default => 0,
        Theme::Gruvbox => 1,
        Theme::Matrix => 2,
        Theme::Midnight => 3,
        Theme::Bolus => 4,
    }
}

/// How many themes there are.
pub open spec fn theme_count() -> int {
    5
}

impl Theme {
    /// The theme after this one, wrapping from the last back to the first.
    pub fn next(self) -> (r: Theme)
        ensures
            theme_index(r) == (theme_index(self) + 1) % theme_count(),
    {
        match self {
            Theme::Default => Theme::Gruvbox,
            Theme::Gruvbox => Theme::Matrix,
            Theme::Matrix => Theme::Midnight,
            Theme::Midnight => Theme::Bolus,
            Theme::Bolus => Theme::Default,
        }
    }

    /// The theme before this one, wrapping from the first back to the last.
    pub fn previous(self) -> (r: Theme)
        ensures
            theme_index(r) == (theme_index(self) + theme_count() - 1) % theme_count(),
    {
        match self {
            Theme::Default => Theme::Bolus,
            Theme::Gruvbox => Theme::Default,
            Theme::Matrix => Theme::Gruvbox,
            Theme::Midnight => Theme::Matrix,
            Theme::Bolus => Theme::Midnight,
        }
    }

    /// Replace this theme with the next one in the cycling order.
    pub fn cycle(&mut self)
        ensures
            theme_index(*final(self)) == (theme_index(*old(self)) + 1) % theme_count(),
    {
        *self = self.next();
    }

    /// The theme's display name.
    pub fn name(self) -> (r: &'static str)
        ensures
            self is Default ==> r@ == "Default"@,
            self is Gruvbox ==> r@ == "Gruvbox"@,
            self is Matrix ==> r@ == "Matrix"@,
            self is Midnight ==> r@ == "Midnight"@,
            self is Bolus ==> r@ == "BOLUS"@,
    {
        match self {
            Theme::Default => "Default",
            Theme::Gruvbox => "Gruvbox",
            Theme::Matrix => "Matrix",
            Theme::Midnight => "Midnight",
            Theme::Bolus => "BOLUS",
        }
    }
}

} // verus!
