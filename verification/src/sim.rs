//! The playback phase: repeated ticks until the quit key.
//!
//! After editing commits, the driver alternates `tick` (compute the next
//! grid) with a redraw and a bounded key poll, feeding each polled key to
//! `observe_key`. Only the quit key stops the run; any other key, or a
//! poll that timed out, continues it.

use vstd::prelude::*;

use crate::grid::{dims_fit_isize, game_of_life, next_grid, Universe};
use crate::keys::Key;

verus! {

/// One running simulation: the current grid, how many ticks have been
/// applied to it, and whether it is still running.
pub struct SimSession {
    pub universe: Universe,
    pub ticks: u64,
    pub running: bool,
}

impl SimSession {
    /// Starts a simulation on the given grid.
    pub fn new(universe: Universe) -> (s: SimSession)
        ensures
            s.universe@ == universe@,
            s.ticks == 0,
            s.running,
    {
        SimSession { universe, ticks: 0, running: true }
    }

    /// Applies one synchronous update to the grid and counts it.
    pub fn tick(&mut self)
        requires
            old(self).running,
            old(self).ticks < u64::MAX,
            dims_fit_isize(old(self).universe@),
        ensures
            final(self).universe@ == next_grid(old(self).universe@),
            dims_fit_isize(final(self).universe@),
            final(self).ticks == old(self).ticks + 1,
            final(self).running,
    {
        let mut current = Universe::new(0, 0);
        core::mem::swap(&mut current, &mut self.universe);
        self.universe = game_of_life(current);
        self.ticks += 1;
        proof {
            let g = old(self).universe@;
            let n = self.universe@;
            assert forall|y: int| 0 <= y < n.len() implies (#[trigger] n[y]).len() < isize::MAX
                as nat by {
                assert(g[y].len() < isize::MAX as nat);
            }
        }
    }

    /// Notes the key polled after a redraw: the quit key stops the run;
    /// any other key, and a poll that returned nothing, leaves it running.
    pub fn observe_key(&mut self, key: Key)
        ensures
            final(self).universe@ == old(self).universe@,
            final(self).ticks == old(self).ticks,
            final(self).running == (old(self).running && key != Key::Quit),
    {
        if key == Key::Quit {
            self.running = false;
        }
    }
}

} // verus!
