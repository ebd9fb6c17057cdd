//! Key events and their classification.
//!
//! The terminal driver reports each key press as a name (the ncurses
//! `keyname` form: a printable character stands for itself, the carriage
//! return is "^M", arrow keys are "KEY_LEFT" and the like). The editor and
//! the simulation loop consume only the closed `Key` classification below;
//! any name outside it is `Other` and is ignored by both.

use vstd::prelude::*;
use vstd::string::StrSliceExecFns;

verus! {

/// One classified key event.
#[derive(Clone, Copy, Debug, PartialEq, Eq, Structural)]
pub enum Key {
    /// Space: flip the cell under the cursor.
    Toggle,
    /// Carriage return: end the editing phase.
    Commit,
    /// k/K or the up arrow.
    Up,
    /// j/J or the down arrow.
    Down,
    /// h/H or the left arrow.
    Left,
    /// l/L or the right arrow.
    Right,
    /// q: end the simulation.
    Quit,
    /// Any other key; always ignored.
    Other,
}

/// The classification of a key name.
pub open spec fn classify_spec(s: Seq<char>) -> Key {
    if s == " "@ {
        Key::Toggle
    } else if s == "^M"@ {
        Key::Commit
    } else if s == "k"@ || s == "K"@ || s == "KEY_UP"@ {
        Key::Up
    } else if s == "j"@ || s == "J"@ || s == "KEY_DOWN"@ {
        Key::Down
    } else if s == "h"@ || s == "H"@ || s == "KEY_LEFT"@ {
        Key::Left
    } else if s == "l"@ || s == "L"@ || s == "KEY_RIGHT"@ {
        Key::Right
    } else if s == "q"@ {
        Key::Quit
    } else {
        Key::Other
    }
}

/// Character-for-character string equality.
fn str_eq(s: &str, t: &str) -> (r: bool)
    ensures
        r == (s@ == t@),
{
    let n = s.unicode_len();
    let m = t.unicode_len();
    if n != m {
        return false;
    }
    for i in 0..n
        invariant
            n == s@.len(),
            n == t@.len(),
            forall|j: int| 0 <= j < i ==> s@[j] == t@[j],
    {
        if s.get_char(i) != t.get_char(i) {
            return false;
        }
    }
    assert(s@ =~= t@);
    true
}

/// Classifies a key name into the closed `Key` set.
pub fn classify_key(name: &str) -> (k: Key)
    ensures
        k == classify_spec(name@),
{
    if str_eq(name, " ") {
        Key::Toggle
    } else if str_eq(name, "^M") {
        Key::Commit
    } else if str_eq(name, "k") || str_eq(name, "K") || str_eq(name, "KEY_UP") {
        Key::Up
    } else if str_eq(name, "j") || str_eq(name, "J") || str_eq(name, "KEY_DOWN") {
        Key::Down
    } else if str_eq(name, "h") || str_eq(name, "H") || str_eq(name, "KEY_LEFT") {
        Key::Left
    } else if str_eq(name, "l") || str_eq(name, "L") || str_eq(name, "KEY_RIGHT") {
        Key::Right
    } else if str_eq(name, "q") {
        Key::Quit
    } else {
        Key::Other
    }
}

} // verus!
