//! The board and its synchronous update rule (classic B3/S23 Life).
//!
//! A `Universe` is a rectangle of boolean cells addressed by (row, column).
//! `game_of_life` computes one tick: every cell transitions simultaneously,
//! from the input grid alone, with a finite-board (non-toroidal) boundary:
//! positions beyond an edge simply contribute no neighbors.

use vstd::prelude::*;

verus! {

/// A rectangular board of cells; `true` means the cell is alive.
#[derive(Clone)]
pub struct Universe {
    pub cells: Vec<Vec<bool>>,
}

impl View for Universe {
    type V = Seq<Seq<bool>>;

    open spec fn view(&self) -> Seq<Seq<bool>> {
        Seq::new(self.cells@.len(), |y: int| self.cells@[y]@)
    }
}

/// Every row has the same length: the grid is a proper rectangle.
pub open spec fn grid_rect(g: Seq<Seq<bool>>) -> bool {
    forall|y: int| 0 <= y < g.len() ==> (#[trigger] g[y]).len() == g[0].len()
}

/// (y, x) addresses a cell of the grid.
pub open spec fn in_bounds(g: Seq<Seq<bool>>, y: int, x: int) -> bool {
    0 <= y < g.len() && 0 <= x < g[y].len()
}

/// 1 if (y, x) is a live cell of the grid, 0 otherwise (out-of-bounds
/// positions count 0: the board does not wrap around).
pub open spec fn live_at(g: Seq<Seq<bool>>, y: int, x: int) -> nat {
    if in_bounds(g, y, x) && g[y][x] {
        1nat
    } else {
        0nat
    }
}

/// Number of live cells among the up-to-8 in-bounds neighbors of (y, x).
pub open spec fn neighbor_count(g: Seq<Seq<bool>>, y: int, x: int) -> nat {
    live_at(g, y - 1, x - 1) + live_at(g, y - 1, x) + live_at(g, y - 1, x + 1) + live_at(
        g,
        y,
        x - 1,
    ) + live_at(g, y, x + 1) + live_at(g, y + 1, x - 1) + live_at(g, y + 1, x) + live_at(
        g,
        y + 1,
        x + 1,
    )
}

/// The B3/S23 transition for one cell: a live cell survives with 2 or 3
/// live neighbors; a dead cell is born with exactly 3.
pub open spec fn next_cell(alive: bool, n: nat) -> bool {
    if alive {
        n == 2 || n == 3
    } else {
        n == 3
    }
}

/// One synchronous tick of the whole grid, computed from the input alone.
pub open spec fn next_grid(g: Seq<Seq<bool>>) -> Seq<Seq<bool>> {
    Seq::new(g.len(), |y: int| Seq::new(g[y].len(), |x: int| next_cell(g[y][x], neighbor_count(g, y, x))))
}

/// The all-dead grid of the given dimensions.
pub open spec fn dead_grid(h: nat, w: nat) -> Seq<Seq<bool>> {
    Seq::new(h, |y: int| Seq::new(w, |x: int| false))
}

/// Row and column counts fit in `isize`, so cell indices can be cast to
/// `isize` for neighbor arithmetic. Every grid that fits in memory
/// satisfies this.
pub open spec fn dims_fit_isize(g: Seq<Seq<bool>>) -> bool {
    g.len() < isize::MAX as nat && forall|y: int|
        0 <= y < g.len() ==> (#[trigger] g[y]).len() < isize::MAX as nat
}

/// No cell of the grid is alive.
pub open spec fn all_dead(g: Seq<Seq<bool>>) -> bool {
    forall|y: int, x: int| #[trigger] in_bounds(g, y, x) ==> !g[y][x]
}

/// The grid with the cell at (y, x) flipped and everything else unchanged.
pub open spec fn toggle_spec(g: Seq<Seq<bool>>, y: int, x: int) -> Seq<Seq<bool>> {
    g.update(y, g[y].update(x, !g[y][x]))
}

/// The cell at (y, x) as a sequence: one element when in bounds, none
/// otherwise.
pub open spec fn cell_window(g: Seq<Seq<bool>>, y: int, x: int) -> Seq<bool> {
    if in_bounds(g, y, x) {
        seq![g[y][x]]
    } else {
        Seq::empty()
    }
}

/// The values of the in-bounds neighbors of (y, x), in reading order:
/// the row above, the two same-row neighbors, then the row below.
pub open spec fn neighbours_seq(g: Seq<Seq<bool>>, y: int, x: int) -> Seq<bool> {
    cell_window(g, y - 1, x - 1) + cell_window(g, y - 1, x) + cell_window(g, y - 1, x + 1)
        + cell_window(g, y, x - 1) + cell_window(g, y, x + 1) + cell_window(g, y + 1, x - 1)
        + cell_window(g, y + 1, x) + cell_window(g, y + 1, x + 1)
}

/// How many elements of the sequence are `true`.
pub open spec fn count_live(s: Seq<bool>) -> nat
    decreases s.len(),
{
    if s.len() == 0 {
        0nat
    } else {
        count_live(s.drop_last()) + if s.last() {
            1nat
        } else {
            0nat
        }
    }
}

proof fn lemma_count_live_concat(a: Seq<bool>, b: Seq<bool>)
    ensures
        count_live(a + b) == count_live(a) + count_live(b),
    decreases b.len(),
{
    if b.len() == 0 {
        assert(a + b =~= a);
    } else {
        lemma_count_live_concat(a, b.drop_last());
        assert((a + b).drop_last() =~= a + b.drop_last());
    }
}

proof fn lemma_count_live_window(g: Seq<Seq<bool>>, y: int, x: int)
    ensures
        count_live(cell_window(g, y, x)) == live_at(g, y, x),
{
    let s = cell_window(g, y, x);
    if in_bounds(g, y, x) {
        assert(s.len() == 1);
        assert(s.last() == g[y][x]);
        assert(s.drop_last() =~= Seq::<bool>::empty());
        assert(count_live(s.drop_last()) == 0);
    } else {
        assert(s.len() == 0);
        assert(count_live(s) == 0);
    }
}

/// The neighbor sequence carries exactly `neighbor_count` live cells.
proof fn lemma_count_neighbours(g: Seq<Seq<bool>>, y: int, x: int)
    ensures
        count_live(neighbours_seq(g, y, x)) == neighbor_count(g, y, x),
{
    let w1 = cell_window(g, y - 1, x - 1);
    let w2 = cell_window(g, y - 1, x);
    let w3 = cell_window(g, y - 1, x + 1);
    let w4 = cell_window(g, y, x - 1);
    let w5 = cell_window(g, y, x + 1);
    let w6 = cell_window(g, y + 1, x - 1);
    let w7 = cell_window(g, y + 1, x);
    let w8 = cell_window(g, y + 1, x + 1);
    lemma_count_live_concat(w1, w2);
    lemma_count_live_concat(w1 + w2, w3);
    lemma_count_live_concat(w1 + w2 + w3, w4);
    lemma_count_live_concat(w1 + w2 + w3 + w4, w5);
    lemma_count_live_concat(w1 + w2 + w3 + w4 + w5, w6);
    lemma_count_live_concat(w1 + w2 + w3 + w4 + w5 + w6, w7);
    lemma_count_live_concat(w1 + w2 + w3 + w4 + w5 + w6 + w7, w8);
    lemma_count_live_window(g, y - 1, x - 1);
    lemma_count_live_window(g, y - 1, x);
    lemma_count_live_window(g, y - 1, x + 1);
    lemma_count_live_window(g, y, x - 1);
    lemma_count_live_window(g, y, x + 1);
    lemma_count_live_window(g, y + 1, x - 1);
    lemma_count_live_window(g, y + 1, x);
    lemma_count_live_window(g, y + 1, x + 1);
}

/// Appends the cell at (a, b) to `out` when that position is in bounds;
/// out-of-bounds positions contribute nothing (no wraparound).
fn push_if_in_bounds(u: &Universe, out: &mut Vec<bool>, a: isize, b: isize)
    ensures
        final(out)@ == old(out)@ + cell_window(u@, a as int, b as int),
{
    if a >= 0 && b >= 0 {
        let ai = a as usize;
        let bi = b as usize;
        if ai < u.cells.len() {
            let row = &u.cells[ai];
            if bi < row.len() {
                out.push(row[bi]);
                assert(out@ =~= old(out)@ + cell_window(u@, a as int, b as int));
                return ;
            }
        }
    }
    assert(out@ =~= old(out)@ + cell_window(u@, a as int, b as int));
}

impl Universe {
    /// A fresh all-dead grid of `y` rows and `x` columns.
    pub fn new(y: usize, x: usize) -> (u: Universe)
        ensures
            u@ == dead_grid(y as nat, x as nat),
    {
        let mut cells: Vec<Vec<bool>> = Vec::new();
        for i in 0..y
            invariant
                cells@.len() == i,
                forall|a: int| 0 <= a < i ==> (#[trigger] cells@[a])@ =~= dead_grid(
                    y as nat,
                    x as nat,
                )[a],
        {
            let mut row: Vec<bool> = Vec::new();
            for j in 0..x
                invariant
                    row@.len() == j,
                    forall|b: int| 0 <= b < j ==> !(#[trigger] row@[b]),
            {
                row.push(false);
            }
            assert(row@ =~= dead_grid(y as nat, x as nat)[i as int]);
            cells.push(row);
        }
        let u = Universe { cells };
        assert(u@ =~~= dead_grid(y as nat, x as nat));
        u
    }

    /// Number of rows.
    pub fn height(&self) -> (h: usize)
        ensures
            h == self@.len(),
    {
        self.cells.len()
    }

    /// Number of columns of row `y`.
    pub fn width(&self, y: usize) -> (w: usize)
        requires
            y < self@.len(),
        ensures
            w == self@[y as int].len(),
    {
        self.cells[y].len()
    }

    /// The state of the cell at (y, x).
    pub fn get(&self, y: usize, x: usize) -> (alive: bool)
        requires
            in_bounds(self@, y as int, x as int),
        ensures
            alive == self@[y as int][x as int],
    {
        self.cells[y][x]
    }

    /// Flips the cell at (y, x) and returns its new state.
    pub fn toggle(&mut self, y: usize, x: usize) -> (alive: bool)
        requires
            in_bounds(old(self)@, y as int, x as int),
        ensures
            final(self)@ == toggle_spec(old(self)@, y as int, x as int),
            alive == final(self)@[y as int][x as int],
            alive == !old(self)@[y as int][x as int],
    {
        let alive = !self.cells[y][x];
        self.cells[y][x] = alive;
        assert(self@ =~~= toggle_spec(old(self)@, y as int, x as int));
        alive
    }
}

/// The values of the in-bounds neighbors of (y, x), in reading order.
/// The bounds on `y` and `x` only keep the offset arithmetic inside
/// `isize`; any position, inside the grid or not, is allowed.
pub fn get_neighbours(universe: &Universe, y: isize, x: isize) -> (neighbours: Vec<bool>)
    requires
        isize::MIN < y < isize::MAX,
        isize::MIN < x < isize::MAX,
    ensures
        neighbours@ == neighbours_seq(universe@, y as int, x as int),
{
    let mut neighbours: Vec<bool> = Vec::new();
    push_if_in_bounds(universe, &mut neighbours, y - 1, x - 1);
    push_if_in_bounds(universe, &mut neighbours, y - 1, x);
    push_if_in_bounds(universe, &mut neighbours, y - 1, x + 1);
    push_if_in_bounds(universe, &mut neighbours, y, x - 1);
    push_if_in_bounds(universe, &mut neighbours, y, x + 1);
    push_if_in_bounds(universe, &mut neighbours, y + 1, x - 1);
    push_if_in_bounds(universe, &mut neighbours, y + 1, x);
    push_if_in_bounds(universe, &mut neighbours, y + 1, x + 1);
    assert(neighbours@ =~= neighbours_seq(universe@, y as int, x as int));
    neighbours
}

/// One tick of the whole board: a fresh grid of the same dimensions where
/// every cell took the B3/S23 transition simultaneously, computed from the
/// input grid alone. The size bounds only let row and column indices be
/// cast to `isize`; every grid that fits in memory satisfies them.
pub fn game_of_life(input: Universe) -> (universe: Universe)
    requires
        dims_fit_isize(input@),
    ensures
        universe@ == next_grid(input@),
{
    let ghost g = input@;
    let mut rows: Vec<Vec<bool>> = Vec::new();
    let height = input.cells.len();
    for y in 0..height
        invariant
            height == g.len(),
            g == input@,
            g.len() < isize::MAX as nat,
            forall|i: int| 0 <= i < g.len() ==> (#[trigger] g[i]).len() < isize::MAX as nat,
            rows@.len() == y,
            forall|i: int| 0 <= i < y ==> (#[trigger] rows@[i])@ == next_grid(g)[i],
    {
        let width = input.cells[y].len();
        let mut row: Vec<bool> = Vec::new();
        for x in 0..width
            invariant
                height == g.len(),
                g == input@,
                g.len() < isize::MAX as nat,
                forall|i: int| 0 <= i < g.len() ==> (#[trigger] g[i]).len() < isize::MAX as nat,
                y < g.len(),
                width == g[y as int].len(),
                row@.len() == x,
                forall|j: int| 0 <= j < x ==> #[trigger] row@[j] == next_grid(g)[y as int][j],
        {
            let neighbours = get_neighbours(&input, y as isize, x as isize);
            let mut n_neighs_live: usize = 0;
            let ghost ns = neighbours@;
            let count = neighbours.len();
            for k in 0..count
                invariant
                    ns == neighbours@,
                    count == ns.len(),
                    n_neighs_live <= k,
                    n_neighs_live == count_live(ns.take(k as int)),
            {
                if neighbours[k] {
                    n_neighs_live += 1;
                }
                assert(ns.take(k + 1).drop_last() =~= ns.take(k as int));
            }
            assert(ns.take(count as int) =~= ns);
            proof {
                lemma_count_neighbours(g, y as int, x as int);
            }
            let cell = input.cells[y][x];
            let new_cell = if cell {
                n_neighs_live == 2 || n_neighs_live == 3
            } else {
                n_neighs_live == 3
            };
            row.push(new_cell);
        }
        assert(row@ =~= next_grid(g)[y as int]);
        rows.push(row);
    }
    let universe = Universe { cells: rows };
    assert(universe@ =~~= next_grid(g));
    universe
}

/// No spontaneous birth: a tick of an all-dead grid is all-dead.
pub proof fn lemma_all_dead_next(g: Seq<Seq<bool>>)
    requires
        all_dead(g),
    ensures
        all_dead(next_grid(g)),
{
    let n = next_grid(g);
    assert forall|y: int, x: int| #[trigger] in_bounds(n, y, x) implies !n[y][x] by {
        assert(in_bounds(g, y, x));
        assert(in_bounds(g, y - 1, x - 1) ==> !g[y - 1][x - 1]);
        assert(in_bounds(g, y - 1, x) ==> !g[y - 1][x]);
        assert(in_bounds(g, y - 1, x + 1) ==> !g[y - 1][x + 1]);
        assert(in_bounds(g, y, x - 1) ==> !g[y][x - 1]);
        assert(in_bounds(g, y, x + 1) ==> !g[y][x + 1]);
        assert(in_bounds(g, y + 1, x - 1) ==> !g[y + 1][x - 1]);
        assert(in_bounds(g, y + 1, x) ==> !g[y + 1][x]);
        assert(in_bounds(g, y + 1, x + 1) ==> !g[y + 1][x + 1]);
        assert(neighbor_count(g, y, x) == 0);
        assert(!next_cell(g[y][x], 0));
    }
}

/// A tick preserves the grid's dimensions.
pub proof fn lemma_next_preserves_dims(g: Seq<Seq<bool>>)
    ensures
        next_grid(g).len() == g.len(),
        forall|y: int| 0 <= y < g.len() ==> (#[trigger] next_grid(g)[y]).len() == g[y].len(),
{
}

/// Survival rule: a live cell stays alive after a tick exactly when it has
/// 2 or 3 live in-bounds neighbors; with any other count it dies.
pub proof fn lemma_live_cell_rule(g: Seq<Seq<bool>>, y: int, x: int)
    requires
        in_bounds(g, y, x),
        g[y][x],
    ensures
        next_grid(g)[y][x] == (neighbor_count(g, y, x) == 2 || neighbor_count(g, y, x) == 3),
{
}

/// Birth rule: a dead cell becomes alive after a tick exactly when it has
/// 3 live in-bounds neighbors; with any other count it stays dead.
pub proof fn lemma_dead_cell_rule(g: Seq<Seq<bool>>, y: int, x: int)
    requires
        in_bounds(g, y, x),
        !g[y][x],
    ensures
        next_grid(g)[y][x] == (neighbor_count(g, y, x) == 3),
{
}

/// Finite-board bound, no wraparound: a cell sees at most 8 neighbors, a
/// cell on an edge of a rectangular grid at most 5, a corner cell at most 3.
/// In particular a live cell at column 0 is never counted for a cell at the
/// last column.
pub proof fn lemma_boundary_bound(g: Seq<Seq<bool>>, y: int, x: int)
    requires
        grid_rect(g),
        in_bounds(g, y, x),
    ensures
        neighbor_count(g, y, x) <= 8,
        y == 0 || y == g.len() - 1 || x == 0 || x == g[y].len() - 1 ==> neighbor_count(g, y, x)
            <= 5,
        (y == 0 || y == g.len() - 1) && (x == 0 || x == g[y].len() - 1) ==> neighbor_count(
            g,
            y,
            x,
        ) <= 3,
{
    assert(forall|a: int| 0 <= a < g.len() ==> (#[trigger] g[a]).len() == g[y].len());
    if y == 0 {
        assert(live_at(g, y - 1, x - 1) == 0);
        assert(live_at(g, y - 1, x) == 0);
        assert(live_at(g, y - 1, x + 1) == 0);
    }
    if y == g.len() - 1 {
        assert(live_at(g, y + 1, x - 1) == 0);
        assert(live_at(g, y + 1, x) == 0);
        assert(live_at(g, y + 1, x + 1) == 0);
    }
    if x == 0 {
        assert(live_at(g, y - 1, x - 1) == 0);
        assert(live_at(g, y, x - 1) == 0);
        assert(live_at(g, y + 1, x - 1) == 0);
    }
    if x == g[y].len() - 1 {
        assert(live_at(g, y - 1, x + 1) == 0);
        assert(live_at(g, y, x + 1) == 0);
        assert(live_at(g, y + 1, x + 1) == 0);
    }
}

/// Toggling the same cell twice restores the grid.
pub proof fn lemma_toggle_twice(g: Seq<Seq<bool>>, y: int, x: int)
    requires
        in_bounds(g, y, x),
    ensures
        toggle_spec(toggle_spec(g, y, x), y, x) == g,
{
    let g1 = toggle_spec(g, y, x);
    assert(g1[y].update(x, !g1[y][x]) =~= g[y]);
    assert(toggle_spec(g1, y, x) =~~= g);
}

} // verus!
