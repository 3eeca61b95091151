//! The names under which the system's colour mode is shown and announced.

use vstd::prelude::*;
use vstd::string::*;

verus! {

/// The colour mode of the system.
#[derive(Clone, Copy, Debug, PartialEq, Eq, Structural)]
pub enum Mode {
    Dark,
    Light,
    /// The system states no preference.
    Default,
}

/// The theme shown for a mode: `dim` in the dark, `emerald` otherwise.
pub open spec fn theme_name(mode: Mode) -> Seq<char> {
    match mode {
        Mode::Dark => "dim"@,
        Mode::Light => "emerald"@,
        Mode::Default => "emerald"@,
    }
}

/// The word that announces a change to a mode: `dark` or `light`.
pub open spec fn change_name(mode: Mode) -> Seq<char> {
    match mode {
        Mode::Dark => "dark"@,
        Mode::Light => "light"@,
        Mode::Default => "light"@,
    }
}

/// What to announce when the mode was `last` and is now `current`: the name
/// of the new mode where the two differ, nothing where they do not.
pub open spec fn announcement(last: Mode, current: Mode) -> Option<Seq<char>> {
    if current == last {
        None
    } else {
        Some(change_name(current))
    }
}

/// An announcement as the contracts see it.
pub open spec fn announcement_view(announced: Option<String>) -> Option<Seq<char>> {
    match announced {
        Some(name) => Some(name@),
        None => None,
    }
}

/// The theme to show for the mode that was detected.
pub fn get_system_theme(mode: Mode) -> (theme: String)
    ensures
        theme@ == theme_name(mode),
{
    match mode {
        Mode::Dark => String::from_str("dim"),
        Mode::Light => String::from_str("emerald"),
        Mode::Default => String::from_str("emerald"),
    }
}

/// One round of listening for changes of the mode: given the mode seen at the
/// round before and the one detected now, what to announce, if anything.
/// The mode detected now is the one to compare with at the next round.
pub fn listen_system_theme_changes(last: Mode, current: Mode) -> (announced: Option<String>)
    ensures
        announcement_view(announced) == announcement(last, current),
{
    if current == last {
        None
    } else {
        match current {
            Mode::Dark => Some(String::from_str("dark")),
            Mode::Light => Some(String::from_str("light")),
            Mode::Default => Some(String::from_str("light")),
        }
    }
}

} // verus!
