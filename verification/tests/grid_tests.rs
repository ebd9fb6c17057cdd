use conway::grid::{game_of_life, get_neighbours, Universe};

fn from_rows(rows: &[&[bool]]) -> Universe {
    let height = rows.len();
    let width = if height == 0 { 0 } else { rows[0].len() };
    let mut u = Universe::new(height, width);
    for (y, row) in rows.iter().enumerate() {
        for (x, &alive) in row.iter().enumerate() {
            if alive {
                u.toggle(y, x);
            }
        }
    }
    u
}

fn cells_of(u: &Universe) -> Vec<Vec<bool>> {
    let mut rows = Vec::new();
    for y in 0..u.height() {
        let mut row = Vec::new();
        for x in 0..u.width(y) {
            row.push(u.get(y, x));
        }
        rows.push(row);
    }
    rows
}

#[test]
fn new_universe_is_all_dead() {
    let u = Universe::new(4, 7);
    assert_eq!(u.height(), 4);
    for y in 0..4 {
        assert_eq!(u.width(y), 7);
        for x in 0..7 {
            assert!(!u.get(y, x));
        }
    }
}

#[test]
fn all_dead_stays_all_dead() {
    let u = Universe::new(6, 5);
    let v = game_of_life(u);
    for y in 0..6 {
        for x in 0..5 {
            assert!(!v.get(y, x));
        }
    }
}

#[test]
fn next_preserves_dimensions() {
    let t = true;
    let f = false;
    let u = from_rows(&[&[t, f, t], &[f, t, f]]);
    let v = game_of_life(u);
    assert_eq!(v.height(), 2);
    assert_eq!(v.width(0), 3);
    assert_eq!(v.width(1), 3);
}

#[test]
fn live_cell_with_two_neighbors_survives() {
    let t = true;
    let f = false;
    // center of the middle row has neighbors above and below
    let u = from_rows(&[&[f, t, f], &[f, t, f], &[f, t, f]]);
    let v = game_of_life(u);
    assert!(v.get(1, 1));
}

#[test]
fn live_cell_with_three_neighbors_survives() {
    let t = true;
    let f = false;
    let u = from_rows(&[&[t, t, f], &[t, t, f], &[f, f, f]]);
    let v = game_of_life(u);
    assert!(v.get(0, 0));
    assert!(v.get(1, 1));
}

#[test]
fn live_cell_with_zero_or_one_neighbor_dies() {
    let t = true;
    let f = false;
    let lonely = from_rows(&[&[f, f, f], &[f, t, f], &[f, f, f]]);
    let v = game_of_life(lonely);
    assert!(!v.get(1, 1));

    let pair = from_rows(&[&[f, f, f], &[t, t, f], &[f, f, f]]);
    let w = game_of_life(pair);
    assert!(!w.get(1, 0));
    assert!(!w.get(1, 1));
}

#[test]
fn live_cell_with_four_neighbors_dies() {
    let t = true;
    let f = false;
    let u = from_rows(&[&[f, t, f], &[t, t, t], &[f, t, f]]);
    let v = game_of_life(u);
    assert!(!v.get(1, 1));
}

#[test]
fn dead_cell_with_three_neighbors_is_born() {
    let t = true;
    let f = false;
    let u = from_rows(&[&[t, t, f], &[t, f, f], &[f, f, f]]);
    let v = game_of_life(u);
    assert!(v.get(1, 1));
}

#[test]
fn dead_cell_with_two_or_four_neighbors_stays_dead() {
    let t = true;
    let f = false;
    let two = from_rows(&[&[t, t, f], &[f, f, f], &[f, f, f]]);
    let v = game_of_life(two);
    assert!(!v.get(1, 1));

    let four = from_rows(&[&[t, t, t], &[t, f, f], &[f, f, f]]);
    let w = game_of_life(four);
    assert!(!w.get(1, 1));
}

#[test]
fn corner_cell_has_three_neighbors() {
    let u = Universe::new(3, 3);
    let n = get_neighbours(&u, 0, 0);
    assert_eq!(n.len(), 3);
    let n = get_neighbours(&u, 2, 2);
    assert_eq!(n.len(), 3);
}

#[test]
fn edge_cell_has_five_neighbors() {
    let u = Universe::new(3, 3);
    assert_eq!(get_neighbours(&u, 0, 1).len(), 5);
    assert_eq!(get_neighbours(&u, 1, 0).len(), 5);
    assert_eq!(get_neighbours(&u, 2, 1).len(), 5);
    assert_eq!(get_neighbours(&u, 1, 2).len(), 5);
}

#[test]
fn interior_cell_has_eight_neighbors() {
    let u = Universe::new(3, 3);
    assert_eq!(get_neighbours(&u, 1, 1).len(), 8);
}

#[test]
fn no_wraparound_across_columns() {
    let t = true;
    let f = false;
    // a live cell at column 0 must not be seen from the last column
    let u = from_rows(&[&[t, f, f]]);
    let n = get_neighbours(&u, 0, 2);
    assert_eq!(n.len(), 1);
    assert!(!n[0]);
}

#[test]
fn no_wraparound_across_rows() {
    let t = true;
    let f = false;
    let u = from_rows(&[&[t], &[f], &[f]]);
    let n = get_neighbours(&u, 2, 0);
    assert_eq!(n.len(), 1);
    assert!(!n[0]);
}

#[test]
fn neighbours_out_of_bounds_position_sees_border() {
    let t = true;
    let u = from_rows(&[&[t]]);
    // a position just outside the grid still lists its in-bounds neighbors
    let n = get_neighbours(&u, 1, 0);
    assert_eq!(n.len(), 1);
    assert!(n[0]);
    let n = get_neighbours(&u, -1, -1);
    assert_eq!(n.len(), 1);
    assert!(n[0]);
}

#[test]
fn block_is_a_still_life() {
    let t = true;
    let f = false;
    let u = from_rows(&[
        &[f, f, f, f],
        &[f, t, t, f],
        &[f, t, t, f],
        &[f, f, f, f],
    ]);
    let before = cells_of(&u);
    let v = game_of_life(u);
    assert_eq!(cells_of(&v), before);
}

#[test]
fn blinker_oscillates_with_period_two() {
    let t = true;
    let f = false;
    let u = from_rows(&[
        &[f, f, f, f, f],
        &[f, f, f, f, f],
        &[f, t, t, t, f],
        &[f, f, f, f, f],
        &[f, f, f, f, f],
    ]);
    let original = cells_of(&u);
    let once = game_of_life(u);
    // after one tick the row becomes a column
    assert!(!once.get(2, 1));
    assert!(once.get(1, 2));
    assert!(once.get(2, 2));
    assert!(once.get(3, 2));
    assert!(!once.get(2, 3));
    let twice = game_of_life(once);
    assert_eq!(cells_of(&twice), original);
}

#[test]
fn toggle_flips_only_the_one_cell() {
    let mut u = Universe::new(3, 3);
    let now_alive = u.toggle(1, 2);
    assert!(now_alive);
    for y in 0..3 {
        for x in 0..3 {
            assert_eq!(u.get(y, x), y == 1 && x == 2);
        }
    }
    let now_alive = u.toggle(1, 2);
    assert!(!now_alive);
    assert!(!u.get(1, 2));
}
