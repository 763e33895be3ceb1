//! Tests for the board grids, the movability checks and the reachability
//! search on their own.

use quoridor_core::board::Board;

#[test]
fn new_board_dimensions_and_emptiness() {
    let b = Board::new();
    assert_eq!(b.vertical_walls.len(), 10);
    assert_eq!(b.horizontal_walls.len(), 10);
    assert_eq!(b.cross_walls.len(), 10);
    for row in &b.vertical_walls {
        assert_eq!(row.len(), 9);
        assert!(row.iter().all(|slot| !slot));
    }
    for row in &b.horizontal_walls {
        assert_eq!(row.len(), 9);
        assert!(row.iter().all(|slot| !slot));
    }
    for row in &b.cross_walls {
        assert_eq!(row.len(), 10);
        assert!(row.iter().all(|slot| !slot));
    }
}

#[test]
fn place_vertical_wall_sets_two_slots_and_cross() {
    let mut b = Board::new();
    assert!(b.is_vertical_wall_ok_at(3, 2));
    b.place_vertical_wall(3, 2);
    assert!(b.vertical_walls[3][2]);
    assert!(b.vertical_walls[3][3]);
    assert!(b.cross_walls[3][3]);
    // Exactly three flags are set in total.
    let set: usize = b.vertical_walls.iter().chain(&b.horizontal_walls).chain(&b.cross_walls)
        .map(|row| row.iter().filter(|s| **s).count())
        .sum();
    assert_eq!(set, 3);
}

#[test]
fn place_horizontal_wall_sets_two_slots_and_cross() {
    let mut b = Board::new();
    assert!(b.is_horizontal_wall_ok_at(5, 2));
    b.place_horizontal_wall(5, 2);
    assert!(b.horizontal_walls[2][5]);
    assert!(b.horizontal_walls[2][6]);
    assert!(b.cross_walls[6][2]);
}

#[test]
fn wall_validators_check_bounds() {
    let b = Board::new();
    // Vertical: x must be 1..=8, y 0..=7.
    assert!(!b.is_vertical_wall_ok_at(0, 3));
    assert!(!b.is_vertical_wall_ok_at(9, 3));
    assert!(!b.is_vertical_wall_ok_at(3, 8));
    assert!(b.is_vertical_wall_ok_at(1, 0));
    assert!(b.is_vertical_wall_ok_at(8, 7));
    // Horizontal: y must be 1..=8, x 0..=7.
    assert!(!b.is_horizontal_wall_ok_at(3, 0));
    assert!(!b.is_horizontal_wall_ok_at(3, 9));
    assert!(!b.is_horizontal_wall_ok_at(8, 3));
    assert!(b.is_horizontal_wall_ok_at(0, 1));
    assert!(b.is_horizontal_wall_ok_at(7, 8));
}

#[test]
fn unit_moves_open_on_empty_board() {
    let b = Board::new();
    for x in 0..9 {
        for y in 0..9 {
            assert!(b.is_movable_at((x, y), (1, 0)));
            assert!(b.is_movable_at((x, y), (-1, 0)));
            assert!(b.is_movable_at((x, y), (0, 1)));
            assert!(b.is_movable_at((x, y), (0, -1)));
        }
    }
}

#[test]
fn jump_needs_both_edges_open() {
    let mut b = Board::new();
    assert!(b.is_movable_at((2, 4), (2, 0)));
    // Block the far edge of the jump from (2,4) over (3,4): the wall
    // between columns 3 and 4 on row 4.
    b.place_vertical_wall(4, 4);
    assert!(!b.is_movable_at((2, 4), (2, 0)));
    // The near edge alone is still open.
    assert!(b.is_movable_at((2, 4), (1, 0)));
    // A vertical jump is unaffected.
    assert!(b.is_movable_at((2, 4), (0, 2)));
}

#[test]
fn has_path_straight_line() {
    let b = Board::new();
    assert!(b.has_path((0, 4), 8));
    assert!(b.has_path((8, 0), 0));
    assert!(b.has_path((3, 3), 8));
}

#[test]
fn has_path_detects_enclosure() {
    let mut b = Board::new();
    // Box in the two top-left cells (0,0) and (0,1): one vertical wall
    // seals their right edges, one horizontal wall the floor below.
    assert!(b.is_vertical_wall_ok_at(1, 0));
    b.place_vertical_wall(1, 0);
    assert!(b.is_horizontal_wall_ok_at(0, 2));
    b.place_horizontal_wall(0, 2);
    assert!(!b.has_path((0, 0), 8));
    assert!(!b.has_path((0, 1), 8));
    // The same walls do not cut off a cell outside the box.
    assert!(b.has_path((2, 0), 8));
    assert!(b.has_path((0, 2), 8));
}

#[test]
fn has_path_winds_through_maze() {
    let mut b = Board::new();
    // A comb of walls that forces a serpentine path and still leaves one.
    b.place_vertical_wall(2, 0);
    b.place_vertical_wall(2, 2);
    b.place_vertical_wall(2, 4);
    b.place_vertical_wall(2, 6);
    b.place_vertical_wall(4, 1);
    b.place_vertical_wall(4, 3);
    b.place_vertical_wall(4, 5);
    b.place_vertical_wall(4, 7);
    assert!(b.has_path((0, 0), 8));
    assert!(b.has_path((0, 8), 8));
}

#[test]
fn board_clone_is_deep() {
    let mut b = Board::new();
    b.place_vertical_wall(3, 2);
    let copy = b.clone();
    b.place_vertical_wall(5, 2);
    assert!(copy.vertical_walls[3][2]);
    assert!(!copy.vertical_walls[5][2]);
    assert!(b.vertical_walls[5][2]);
}
