use forest_sim::cell::{BoardCell, TreeState};
use forest_sim::grid::Grid;
use forest_sim::pending::Pending;
use forest_sim::resolve::{
    apply, apply_burn_out, apply_clear, apply_ignite, apply_plant, grow_older, resolve, Board,
};

fn slow(age: u32) -> Option<BoardCell> {
    Some(BoardCell::new(age, TreeState::SlowGrowing))
}

fn fast(age: u32) -> Option<BoardCell> {
    Some(BoardCell::new(age, TreeState::FastGrowing))
}

fn fire(age: u32) -> Option<BoardCell> {
    Some(BoardCell::new(age, TreeState::Burning))
}

fn ash() -> Option<BoardCell> {
    Some(BoardCell::new(1, TreeState::Burned))
}

#[test]
fn fire_takes_hold_of_trees_only() {
    assert_eq!(apply_ignite(slow(4), fire(7)), fire(7));
    assert_eq!(apply_ignite(fast(1), fire(2)), fire(2));
    assert_eq!(apply_ignite(None, fire(7)), None);
    assert_eq!(apply_ignite(fire(3), fire(7)), fire(3));
    assert_eq!(apply_ignite(ash(), fire(7)), ash());
    assert_eq!(apply_ignite(slow(4), None), slow(4));
    assert_eq!(apply_ignite(None, None), None);
}

#[test]
fn burning_out_turns_any_occupant_to_ash() {
    assert_eq!(apply_burn_out(fire(0), true), ash());
    assert_eq!(apply_burn_out(slow(4), true), ash());
    assert_eq!(apply_burn_out(ash(), true), ash());
    assert_eq!(apply_burn_out(None, true), None);
    assert_eq!(apply_burn_out(fire(0), false), fire(0));
    assert_eq!(apply_burn_out(None, false), None);
}

#[test]
fn clearing_empties_the_square() {
    assert_eq!(apply_clear(slow(4), true), None);
    assert_eq!(apply_clear(fire(4), true), None);
    assert_eq!(apply_clear(ash(), true), None);
    assert_eq!(apply_clear(None, true), None);
    assert_eq!(apply_clear(slow(4), false), slow(4));
}

#[test]
fn planting_never_displaces_fire_or_ash() {
    assert_eq!(apply_plant(None, slow(11)), slow(11));
    assert_eq!(apply_plant(fast(1), slow(11)), slow(11));
    assert_eq!(apply_plant(slow(2), fast(3)), fast(3));
    assert_eq!(apply_plant(fire(5), slow(11)), fire(5));
    assert_eq!(apply_plant(ash(), fast(3)), ash());
    assert_eq!(apply_plant(slow(2), None), slow(2));
    assert_eq!(apply_plant(None, None), None);
}

#[test]
fn steps_run_in_their_fixed_order() {
    // Set alight and cleared: the clearing comes later and prevails.
    assert_eq!(resolve(slow(4), fire(7), false, true, None), None);
    assert_eq!(resolve(None, fire(7), false, true, None), None);
    assert_eq!(resolve(ash(), fire(7), false, true, None), None);
    // Cleared and planted: the tree goes onto the cleared ground.
    assert_eq!(resolve(ash(), None, false, true, fast(3)), fast(3));
    assert_eq!(resolve(slow(0), fire(7), false, true, slow(11)), slow(11));
    // Set alight and planted: the fire blocks the planting.
    assert_eq!(resolve(slow(4), fire(7), false, false, slow(11)), fire(7));
    // Set alight and burned out in one go.
    assert_eq!(resolve(slow(4), fire(7), true, false, slow(11)), ash());
    // Burned out and cleared.
    assert_eq!(resolve(fire(0), None, true, true, None), None);
    // Nothing pending.
    assert_eq!(resolve(fast(2), None, false, false, None), fast(2));
}

#[test]
fn failed_ignition_leaves_the_occupant() {
    assert_eq!(resolve(fire(3), fire(7), false, false, None), fire(3));
    assert_eq!(resolve(ash(), fire(7), false, false, None), ash());
    assert_eq!(resolve(None, fire(7), false, false, None), None);
}

#[test]
fn growing_older_takes_one_tick_off_every_occupant() {
    let mut board: Board = Grid::new();
    board.set((0, 0), BoardCell::new(11, TreeState::SlowGrowing));
    board.set((63, 63), BoardCell::new(1, TreeState::FastGrowing));
    board.set((10, 20), BoardCell::new(0, TreeState::Burning));
    board.set((20, 10), BoardCell::new(1, TreeState::Burned));
    grow_older(&mut board);
    assert_eq!(board.get((0, 0)), slow(10));
    assert_eq!(board.get((63, 63)), fast(0));
    assert_eq!(board.get((10, 20)), fire(0));
    assert_eq!(board.get((20, 10)), Some(BoardCell::new(0, TreeState::Burned)));
    assert_eq!(board.get((1, 1)), None);
}

#[test]
fn apply_settles_each_square_and_drains() {
    let mut board: Board = Grid::new();
    board.set((1, 1), BoardCell::new(4, TreeState::SlowGrowing));
    board.set((2, 2), BoardCell::new(0, TreeState::Burning));
    board.set((3, 3), BoardCell::new(0, TreeState::FastGrowing));
    board.set((4, 4), BoardCell::new(2, TreeState::FastGrowing));
    let mut pending = Pending::new();
    pending.queue_ignite((1, 1), 7);
    pending.queue_ignite((9, 9), 7);
    pending.queue_burn_out((2, 2));
    pending.queue_clear((3, 3));
    pending.queue_plant((5, 5), TreeState::SlowGrowing);
    pending.queue_plant((2, 2), TreeState::SlowGrowing);
    apply(&mut board, &mut pending);
    assert_eq!(board.get((1, 1)), fire(7));
    assert_eq!(board.get((9, 9)), None);
    assert_eq!(board.get((2, 2)), ash());
    assert_eq!(board.get((3, 3)), None);
    assert_eq!(board.get((4, 4)), fast(2));
    assert_eq!(board.get((5, 5)), slow(11));
    assert_eq!(pending.to_burning.get((1, 1)), None);
    assert_eq!(pending.to_burning.get((9, 9)), None);
    assert_eq!(pending.to_burned.get((2, 2)), None);
    assert_eq!(pending.to_cleared.get((3, 3)), None);
    assert_eq!(pending.to_planted.get((5, 5)), None);
    assert_eq!(pending.to_planted.get((2, 2)), None);
}

#[test]
fn planting_on_a_burning_square_is_rejected() {
    let mut board: Board = Grid::new();
    board.set((5, 5), BoardCell::new(5, TreeState::Burning));
    let mut pending = Pending::new();
    pending.queue_plant((5, 5), TreeState::SlowGrowing);
    assert_eq!(pending.to_planted.get((5, 5)), slow(11));
    apply(&mut board, &mut pending);
    assert_eq!(board.get((5, 5)), fire(5));
    assert_eq!(pending.to_planted.get((5, 5)), None);
}

#[test]
fn ignite_and_clear_on_one_square() {
    // No tree for the fire to take hold of: the square ends up cleared.
    let mut board: Board = Grid::new();
    board.set((7, 7), BoardCell::new(1, TreeState::Burned));
    let mut pending = Pending::new();
    pending.queue_ignite((7, 7), 7);
    pending.queue_clear((7, 7));
    apply(&mut board, &mut pending);
    assert_eq!(board.get((7, 7)), None);
}
