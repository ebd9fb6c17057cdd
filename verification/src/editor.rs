//! The painting phase: a cursor over the grid, driven by key events.
//!
//! The editor turns one key event at a time into an edit of the grid or a
//! cursor move, until the commit key ends the phase. Cursor movement is
//! clamped to the grid: a move against an edge leaves the cursor where it
//! is. Unrecognized keys change nothing.

use vstd::prelude::*;

use crate::grid::{grid_rect, in_bounds, toggle_spec, Universe};
use crate::keys::Key;

verus! {

/// A cursor coordinate moved one step toward 0, clamped at 0.
pub open spec fn move_toward_zero(v: nat) -> nat {
    if v > 0 {
        (v - 1) as nat
    } else {
        0nat
    }
}

/// A cursor coordinate moved one step toward `limit`, clamped to stay
/// below it.
pub open spec fn move_toward_limit(v: nat, limit: nat) -> nat {
    if v + 1 < limit {
        v + 1
    } else {
        v
    }
}

/// The editing state: the grid being painted, the cursor over it, and
/// whether the commit key has ended the phase.
pub struct Editor {
    pub universe: Universe,
    pub cursor_y: usize,
    pub cursor_x: usize,
    pub committed: bool,
}

impl Editor {
    /// The grid is a non-empty rectangle and the cursor is on it.
    pub open spec fn wf(&self) -> bool {
        grid_rect(self.universe@) && self.universe@.len() > 0 && in_bounds(
            self.universe@,
            self.cursor_y as int,
            self.cursor_x as int,
        )
    }

    /// Starts editing the given grid with the cursor at the origin.
    pub fn new(universe: Universe) -> (e: Editor)
        requires
            grid_rect(universe@),
            universe@.len() > 0,
            universe@[0].len() > 0,
        ensures
            e.wf(),
            e.universe@ == universe@,
            e.cursor_y == 0,
            e.cursor_x == 0,
            !e.committed,
    {
        Editor { universe, cursor_y: 0, cursor_x: 0, committed: false }
    }

    /// Applies one key event: space toggles the cell under the cursor,
    /// carriage return commits, the four directions move the cursor one
    /// clamped step, and every other key changes nothing.
    pub fn step(&mut self, key: Key)
        requires
            old(self).wf(),
        ensures
            final(self).wf(),
            final(self).universe@ == if key == Key::Toggle {
                toggle_spec(
                    old(self).universe@,
                    old(self).cursor_y as int,
                    old(self).cursor_x as int,
                )
            } else {
                old(self).universe@
            },
            final(self).committed == (old(self).committed || key == Key::Commit),
            final(self).cursor_y as nat == match key {
                Key::Up => move_toward_zero(old(self).cursor_y as nat),
                Key::Down => move_toward_limit(old(self).cursor_y as nat, old(self).universe@.len()),
                _ => old(self).cursor_y as nat,
            },
            final(self).cursor_x as nat == match key {
                Key::Left => move_toward_zero(old(self).cursor_x as nat),
                Key::Right => move_toward_limit(
                    old(self).cursor_x as nat,
                    old(self).universe@[old(self).cursor_y as int].len(),
                ),
                _ => old(self).cursor_x as nat,
            },
    {
        match key {
            Key::Toggle => {
                self.universe.toggle(self.cursor_y, self.cursor_x);
                proof {
                    let g0 = old(self).universe@;
                    let g1 = self.universe@;
                    assert forall|a: int| 0 <= a < g1.len() implies (#[trigger] g1[a]).len()
                        == g1[0].len() by {
                        assert(g0[a].len() == g0[0].len());
                    }
                }
            },
            Key::Commit => {
                self.committed = true;
            },
            Key::Up => {
                if self.cursor_y > 0 {
                    self.cursor_y -= 1;
                }
            },
            Key::Down => {
                let h = self.universe.height();
                if self.cursor_y + 1 < h {
                    self.cursor_y += 1;
                }
            },
            Key::Left => {
                if self.cursor_x > 0 {
                    self.cursor_x -= 1;
                }
            },
            Key::Right => {
                let w = self.universe.width(self.cursor_y);
                if self.cursor_x + 1 < w {
                    self.cursor_x += 1;
                }
            },
            Key::Quit => {},
            Key::Other => {},
        }
    }

    /// Ends editing, handing the painted grid back to the caller.
    pub fn into_universe(self) -> (u: Universe)
        ensures
            u@ == self.universe@,
    {
        self.universe
    }
}

} // verus!
