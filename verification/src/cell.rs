//! The occupants of a grid square and their lifetimes.

use vstd::prelude::*;

verus! {

/// Number of squares along each side of the board.
pub const SQUARES: i32 = 64;

/// Ticks a fast-growing tree lives.
pub const MAX_FAST_AGE: u32 = 3;

/// Ticks a slow-growing tree lives.
pub const MAX_SLOW_AGE: u32 = 11;

/// Ticks a fire burns.
pub const MAX_BURNING_AGE: u32 = 7;

/// Ticks burned ground stays before it is cleared.
pub const MAX_BURNED_AGE: u32 = 1;

/// What occupies a square.
#[derive(Clone, Copy, Debug, PartialEq, Eq, Structural, Hash)]
pub enum TreeState {
    SlowGrowing,
    FastGrowing,
    Burning,
    Burned,
}

/// One occupant: its kind and the ticks it has left.
#[derive(Clone, Copy, Debug, PartialEq, Eq, Structural, Hash)]
pub struct BoardCell {
    pub age: u32,
    pub tree_state: TreeState,
}

/// The lifetime a fresh occupant of the given kind starts with.
pub open spec fn max_age_of(tree_state: TreeState) -> u32 {
    match tree_state {
        TreeState::SlowGrowing => MAX_SLOW_AGE,
        TreeState::FastGrowing => MAX_FAST_AGE,
        TreeState::Burning => MAX_BURNING_AGE,
        TreeState::Burned => MAX_BURNED_AGE,
    }
}

/// Whether the kind is a living tree, the only thing fire can take hold of.
pub open spec fn is_tree_state(tree_state: TreeState) -> bool {
    tree_state == TreeState::SlowGrowing || tree_state == TreeState::FastGrowing
}

/// Whether the kind is fire or what fire leaves behind.
pub open spec fn is_fire_state(tree_state: TreeState) -> bool {
    tree_state == TreeState::Burning || tree_state == TreeState::Burned
}

/// The age one tick later: one less, and never below zero.
pub open spec fn decremented(age: u32) -> u32 {
    if age > 0 {
        (age - 1) as u32
    } else {
        0
    }
}

/// A fresh occupant of the given kind.
pub open spec fn fresh(tree_state: TreeState) -> BoardCell {
    BoardCell { age: max_age_of(tree_state), tree_state }
}

/// The same occupant one tick older.
pub open spec fn aged_cell(cell: BoardCell) -> BoardCell {
    BoardCell { age: decremented(cell.age), tree_state: cell.tree_state }
}

/// A square's content one tick older.
pub open spec fn aged_slot(slot: Option<BoardCell>) -> Option<BoardCell> {
    match slot {
        Some(cell) => Some(aged_cell(cell)),
        None => None,
    }
}

/// Whether the square holds a living tree.
pub open spec fn is_flammable(slot: Option<BoardCell>) -> bool {
    match slot {
        Some(cell) => is_tree_state(cell.tree_state),
        None => false,
    }
}

/// Whether the square holds fire or burned ground.
pub open spec fn is_scorched(slot: Option<BoardCell>) -> bool {
    match slot {
        Some(cell) => is_fire_state(cell.tree_state),
        None => false,
    }
}

impl TreeState {
    /// The lifetime a fresh occupant of this kind starts with.
    pub fn max_age(self) -> (age: u32)
        ensures
            age == max_age_of(self),
    {
        match self {
            TreeState::SlowGrowing => MAX_SLOW_AGE,
            TreeState::FastGrowing => MAX_FAST_AGE,
            TreeState::Burning => MAX_BURNING_AGE,
            TreeState::Burned => MAX_BURNED_AGE,
        }
    }

    /// Whether this kind is a living tree.
    pub fn is_tree(self) -> (tree: bool)
        ensures
            tree == is_tree_state(self),
    {
        match self {
            TreeState::SlowGrowing => true,
            TreeState::FastGrowing => true,
            TreeState::Burning => false,
            TreeState::Burned => false,
        }
    }
}

impl BoardCell {
    /// An occupant of the given kind with `max_age` ticks left.
    pub fn new(max_age: u32, tree_state: TreeState) -> (cell: BoardCell)
        ensures
            cell.age == max_age,
            cell.tree_state == tree_state,
    {
        BoardCell { age: max_age, tree_state }
    }

    /// An occupant of the given kind at the start of its life.
    pub fn fresh(tree_state: TreeState) -> (cell: BoardCell)
        ensures
            cell == fresh(tree_state),
    {
        BoardCell { age: tree_state.max_age(), tree_state }
    }

    /// This occupant one tick older: the age drops by one and stops at zero.
    pub fn aged(self) -> (cell: BoardCell)
        ensures
            cell == aged_cell(self),
    {
        if self.age > 0 {
            BoardCell { age: self.age - 1, tree_state: self.tree_state }
        } else {
            BoardCell { age: 0, tree_state: self.tree_state }
        }
    }
}

} // verus!
