use life::board::Board;
use life::board::{mod_dec, mod_inc};

/// A board with the given live cells, everything else dead.
fn board_with(width: usize, height: usize, live: &[(usize, usize)]) -> Board {
    let mut b = Board::dead(width, height);
    for &(i, j) in live {
        b.set_cell(i, j, true);
    }
    b
}

fn cells(b: &Board) -> Vec<Vec<bool>> {
    let mut rows = Vec::new();
    for i in 0..b.height() {
        let mut row = Vec::new();
        for j in 0..b.width() {
            row.push(b.get(i, j));
        }
        rows.push(row);
    }
    rows
}

#[test]
fn wraparound_arithmetic() {
    assert_eq!(mod_inc(0, 3), 1);
    assert_eq!(mod_inc(2, 3), 0);
    assert_eq!(mod_dec(0, 3), 2);
    assert_eq!(mod_dec(2, 3), 1);
    assert_eq!(mod_inc(0, 1), 0);
    assert_eq!(mod_dec(0, 1), 0);
}

#[test]
fn empty_board_dimensions() {
    let b = Board::new();
    assert_eq!(b.width(), 0);
    assert_eq!(b.height(), 0);
}

#[test]
fn random_board_dimensions() {
    let b = Board::random(7, 5);
    assert_eq!(b.width(), 7);
    assert_eq!(b.height(), 5);
    let b = Board::random(0, 4);
    assert_eq!(b.width(), 0);
    assert_eq!(b.height(), 4);
    let b = Board::random(4, 0);
    assert_eq!(b.width(), 0);
    assert_eq!(b.height(), 0);
}

#[test]
fn neighbor_count_bounds() {
    // all eight neighbors live: the count reaches its maximum of 8
    let mut b = Board::dead(3, 3);
    for i in 0..3 {
        for j in 0..3 {
            b.set_cell(i, j, true);
        }
    }
    let n = b.neighbors_count(1, 1);
    assert_eq!(n, 8);
    // no neighbor live: the minimum of 0
    let empty = Board::dead(3, 3);
    assert_eq!(empty.neighbors_count(1, 1), 0);
}

#[test]
fn toroidal_diagonal_wrap() {
    // a live cell at (2,2) is a neighbor of (0,0) across both edges
    let b = board_with(3, 3, &[(0, 0), (2, 2)]);
    assert_eq!(b.neighbors_count(0, 0), 1);
    assert_eq!(b.neighbors_count(2, 2), 1);
}

#[test]
fn toroidal_vertical_wrap() {
    // a live cell at (2,0) is a neighbor of (0,0) across the top edge
    let b = board_with(3, 3, &[(0, 0), (2, 0)]);
    assert_eq!(b.neighbors_count(0, 0), 1);
}

/// The eight cells around the center of a 3x3 grid, in a fixed order.
const RING: [(usize, usize); 8] = [
    (0, 0),
    (0, 1),
    (0, 2),
    (1, 0),
    (1, 2),
    (2, 0),
    (2, 1),
    (2, 2),
];

fn center_after_advance(center_alive: bool, live_neighbors: usize) -> bool {
    let mut source = Board::dead(3, 3);
    source.set_cell(1, 1, center_alive);
    for k in 0..live_neighbors {
        let (i, j) = RING[k];
        source.set_cell(i, j, true);
    }
    assert_eq!(source.neighbors_count(1, 1), live_neighbors);
    let mut target = Board::dead(3, 3);
    target.advance(&source);
    target.get(1, 1)
}

#[test]
fn rule_live_center() {
    // a live center survives with exactly 2 or 3 live neighbors
    assert!(!center_after_advance(true, 0));
    assert!(!center_after_advance(true, 1));
    assert!(center_after_advance(true, 2));
    assert!(center_after_advance(true, 3));
    assert!(!center_after_advance(true, 4));
    assert!(!center_after_advance(true, 5));
    assert!(!center_after_advance(true, 6));
    assert!(!center_after_advance(true, 7));
    assert!(!center_after_advance(true, 8));
}

#[test]
fn rule_dead_center() {
    // a dead center is born with exactly 3 live neighbors
    assert!(!center_after_advance(false, 0));
    assert!(!center_after_advance(false, 1));
    assert!(!center_after_advance(false, 2));
    assert!(center_after_advance(false, 3));
    assert!(!center_after_advance(false, 4));
    assert!(!center_after_advance(false, 5));
    assert!(!center_after_advance(false, 6));
    assert!(!center_after_advance(false, 7));
    assert!(!center_after_advance(false, 8));
}

#[test]
fn block_is_still_life() {
    // the 2x2 block in a 4x4 grid is unchanged by one generation
    let block = board_with(4, 4, &[(1, 1), (1, 2), (2, 1), (2, 2)]);
    let mut target = Board::dead(4, 4);
    target.advance(&block);
    assert_eq!(cells(&target), cells(&block));
    assert_eq!(target, block);
}

#[test]
fn blinker_oscillates_with_period_two() {
    // the horizontal blinker turns vertical, then back, on a 5x5 grid
    let blinker = board_with(5, 5, &[(2, 1), (2, 2), (2, 3)]);
    let vertical = board_with(5, 5, &[(1, 2), (2, 2), (3, 2)]);
    let mut step1 = Board::dead(5, 5);
    step1.advance(&blinker);
    assert_eq!(step1, vertical);
    let mut step2 = Board::dead(5, 5);
    step2.advance(&step1);
    assert_eq!(step2, blinker);
}

#[test]
fn advance_overwrites_all_of_target() {
    // whatever the target held is gone: only the source decides the outcome
    let mut target = board_with(3, 3, &[(0, 0), (1, 1), (2, 2)]);
    let source = Board::dead(3, 3);
    target.advance(&source);
    for i in 0..3 {
        for j in 0..3 {
            assert!(!target.get(i, j));
        }
    }
}

#[test]
fn duplicate_copies_every_cell() {
    let b = board_with(3, 2, &[(0, 1), (1, 2)]);
    let copy = b.duplicate();
    assert_eq!(copy, b);
    assert_eq!(copy.width(), 3);
    assert_eq!(copy.height(), 2);
}
