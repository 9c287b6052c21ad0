//! Whether command-execution entries are shown.

use vstd::prelude::*;

verus! {

/// Whether replay shows command-execution entries.
#[derive(Debug, Clone, Copy, PartialEq, Eq, Structural)]
pub enum ExecVisibility {
    Hidden,
    Shown,
}

/// The other visibility.
pub open spec fn toggled(v: ExecVisibility) -> ExecVisibility {
    match v {
        ExecVisibility::Hidden => ExecVisibility::Shown,
        ExecVisibility::Shown => ExecVisibility::Hidden,
    }
}

/// The name of a visibility.
pub open spec fn visibility_label(v: ExecVisibility) -> Seq<char> {
    match v {
        ExecVisibility::Hidden => "hidden"@,
        ExecVisibility::Shown => "shown"@,
    }
}

impl ExecVisibility {
    /// Shown exactly where the command line asked to include exec entries.
    pub fn from_include_exec(include_exec: bool) -> (r: ExecVisibility)
        ensures
            r == (if include_exec {
                ExecVisibility::Shown
            } else {
                ExecVisibility::Hidden
            }),
    {
        if include_exec {
            ExecVisibility::Shown
        } else {
            ExecVisibility::Hidden
        }
    }

    /// Whether exec entries are shown.
    pub fn is_shown(self) -> (b: bool)
        ensures
            b == (self == ExecVisibility::Shown),
    {
        match self {
            ExecVisibility::Shown => true,
            ExecVisibility::Hidden => false,
        }
    }

    /// Switches to the other visibility.
    pub fn toggle(&mut self)
        ensures
            *final(self) == toggled(*old(self)),
    {
        *self = match *self {
            ExecVisibility::Hidden => ExecVisibility::Shown,
            ExecVisibility::Shown => ExecVisibility::Hidden,
        };
    }

    /// The name of the visibility.
    pub fn label(self) -> (r: &'static str)
        ensures
            r@ == visibility_label(self),
    {
        match self {
            ExecVisibility::Hidden => "hidden",
            ExecVisibility::Shown => "shown",
        }
    }
}

/// Toggling changes the visibility, and toggling twice restores it.
pub proof fn lemma_toggle_twice(v: ExecVisibility)
    ensures
        toggled(v) != v,
        toggled(toggled(v)) == v,
{
}

/// The visibility made from a command-line flag is shown exactly where the flag was given.
pub proof fn lemma_visibility_keeps_flag(include_exec: bool)
    ensures
        ((if include_exec {
            ExecVisibility::Shown
        } else {
            ExecVisibility::Hidden
        }) == ExecVisibility::Shown) == include_exec,
{
}

/// A key as the interactive views read it.
#[derive(Debug, Clone, Copy, PartialEq, Eq, Structural)]
pub enum Key {
    Char(char),
    Enter,
    Esc,
    Tab,
    Backspace,
    Up,
    Down,
    PageUp,
    PageDown,
    Home,
    End,
    Left,
    Right,
    Other,
}

/// A key press: the key, whether Control was held, and whether no modifier was held.
#[derive(Debug, Clone, Copy, PartialEq, Eq, Structural)]
pub struct KeyPress {
    pub key: Key,
    pub ctrl: bool,
    pub no_modifiers: bool,
}

/// A key press is Control-C.
pub open spec fn is_ctrl_c(k: KeyPress) -> bool {
    k.key == Key::Char('c') && k.ctrl
}


/// Whether a selection fits a list of `n` items: an item is selected exactly where there is one,
/// and the selected position is within the list.
pub open spec fn selection_fits(selected: Option<usize>, n: int) -> bool {
    match selected {
        Some(i) => i < n,
        None => n == 0,
    }
}

} // verus!
