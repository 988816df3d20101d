//! How the pending changes are settled on the board: fire first, then burning
//! out, then clearing, then planting.

use vstd::prelude::*;
use crate::cell::{aged_slot, is_flammable, is_scorched, BoardCell, TreeState, MAX_BURNED_AGE, SQUARES};
use crate::grid::Grid;
use crate::pending::{ash, Pending};
use crate::position::{in_bounds, Point};

verus! {

/// The board: for each square, the occupant or nothing.
pub type Board = Grid<BoardCell>;

/// A square after the ignite step: the pending fire takes hold only of a
/// living tree; empty ground, fire and burned ground stay as they are.
pub open spec fn ignited(slot: Option<BoardCell>, fire: Option<BoardCell>) -> Option<BoardCell> {
    if fire.is_some() && is_flammable(slot) {
        fire
    } else {
        slot
    }
}

/// A square after the burning-out step: whatever stands on a square that is
/// due becomes burned ground; an empty square stays empty.
pub open spec fn burned_out(slot: Option<BoardCell>, due: bool) -> Option<BoardCell> {
    if due && slot.is_some() {
        Some(ash())
    } else {
        slot
    }
}

/// A square after the clearing step: a square that is due is empty.
pub open spec fn cleared(slot: Option<BoardCell>, due: bool) -> Option<BoardCell> {
    if due {
        None
    } else {
        slot
    }
}

/// A square after the planting step: the pending tree is written unless fire
/// or burned ground stands there.
pub open spec fn planted(slot: Option<BoardCell>, tree: Option<BoardCell>) -> Option<BoardCell> {
    if tree.is_some() && !is_scorched(slot) {
        tree
    } else {
        slot
    }
}

/// A square after all four steps, in their fixed order.
pub open spec fn resolved(
    slot: Option<BoardCell>,
    fire: Option<BoardCell>,
    burn_out: bool,
    clear: bool,
    tree: Option<BoardCell>,
) -> Option<BoardCell> {
    planted(cleared(burned_out(ignited(slot, fire), burn_out), clear), tree)
}

/// What the pending changes make of the square `p` of the board.
pub open spec fn resolved_at(board: Board, pending: Pending, p: Point) -> Option<BoardCell> {
    resolved(
        board.at(p),
        pending.to_burning.at(p),
        pending.to_burned.at(p).is_some(),
        pending.to_cleared.at(p).is_some(),
        pending.to_planted.at(p),
    )
}

/// Whether the square `p` comes before the square `(x, y)` in the order in
/// which the board is walked: column by column, each from its first row.
pub open spec fn walked_before(p: Point, x: int, y: int) -> bool {
    in_bounds(p) && (p.0 < x || (p.0 == x && p.1 < y))
}

/// The ignite step on one square: the pending fire takes hold only of a
/// living tree.
pub fn apply_ignite(slot: Option<BoardCell>, fire: Option<BoardCell>) -> (after: Option<BoardCell>)
    ensures
        after == ignited(slot, fire),
{
    match (slot, fire) {
        (Some(cell), Some(_)) => {
            if cell.tree_state.is_tree() {
                fire
            } else {
                slot
            }
        },
        _ => slot,
    }
}

/// The burning-out step on one square.
pub fn apply_burn_out(slot: Option<BoardCell>, due: bool) -> (after: Option<BoardCell>)
    ensures
        after == burned_out(slot, due),
{
    if due && slot.is_some() {
        Some(BoardCell::new(MAX_BURNED_AGE, TreeState::Burned))
    } else {
        slot
    }
}

/// The clearing step on one square.
pub fn apply_clear(slot: Option<BoardCell>, due: bool) -> (after: Option<BoardCell>)
    ensures
        after == cleared(slot, due),
{
    if due {
        None
    } else {
        slot
    }
}

/// The planting step on one square: new growth never displaces fire or burned
/// ground.
pub fn apply_plant(slot: Option<BoardCell>, tree: Option<BoardCell>) -> (after: Option<BoardCell>)
    ensures
        after == planted(slot, tree),
{
    if tree.is_none() {
        return slot;
    }
    match slot {
        Some(cell) => {
            if cell.tree_state.is_tree() {
                tree
            } else {
                slot
            }
        },
        None => tree,
    }
}

/// All four steps on one square, in their fixed order.
pub fn resolve(
    slot: Option<BoardCell>,
    fire: Option<BoardCell>,
    burn_out: bool,
    clear: bool,
    tree: Option<BoardCell>,
) -> (after: Option<BoardCell>)
    ensures
        after == resolved(slot, fire, burn_out, clear, tree),
{
    apply_plant(apply_clear(apply_burn_out(apply_ignite(slot, fire), burn_out), clear), tree)
}

/// Makes every occupant of the board one tick older. No square is emptied or
/// filled and no occupant changes its kind.
pub fn grow_older(board: &mut Board)
    requires
        old(board).wf(),
    ensures
        final(board).wf(),
        forall|p: Point| #[trigger] final(board).at(p) == aged_slot(old(board).at(p)),
{
    let mut x: i32 = 0;
    while x < SQUARES
        invariant
            0 <= x <= SQUARES,
            board.wf(),
            forall|p: Point|
                #[trigger] board.at(p) == if walked_before(p, x as int, 0) {
                    aged_slot(old(board).at(p))
                } else {
                    old(board).at(p)
                },
        decreases SQUARES - x,
    {
        let mut y: i32 = 0;
        while y < SQUARES
            invariant
                0 <= x < SQUARES,
                0 <= y <= SQUARES,
                board.wf(),
                forall|p: Point|
                    #[trigger] board.at(p) == if walked_before(p, x as int, y as int) {
                        aged_slot(old(board).at(p))
                    } else {
                        old(board).at(p)
                    },
            decreases SQUARES - y,
        {
            match board.get((x, y)) {
                Some(cell) => {
                    board.set((x, y), cell.aged());
                },
                None => {},
            }
            y = y + 1;
        }
        x = x + 1;
    }
    proof {
        assert forall|p: Point| #[trigger] board.at(p) == aged_slot(old(board).at(p)) by {
            if !in_bounds(p) {
                old(board).lemma_off_board(p);
                board.lemma_off_board(p);
            }
        }
    }
}

/// Settles the pending changes on the board and drops them all, written or
/// not. Each square goes through the four steps in their fixed order: the
/// pending fire takes hold of a living tree; a square due to burn out becomes
/// burned ground if anything stands there; a square due to be cleared is
/// emptied; the pending tree is written unless fire or burned ground stands
/// there.
pub fn apply(board: &mut Board, pending: &mut Pending)
    requires
        old(board).wf(),
        old(pending).wf(),
    ensures
        final(board).wf(),
        final(pending).wf(),
        final(pending).is_empty(),
        forall|p: Point| #[trigger] final(board).at(p) == resolved_at(*old(board), *old(pending), p),
{
    let mut x: i32 = 0;
    while x < SQUARES
        invariant
            0 <= x <= SQUARES,
            board.wf(),
            pending.wf(),
            *pending == *old(pending),
            forall|p: Point|
                #[trigger] board.at(p) == if walked_before(p, x as int, 0) {
                    resolved_at(*old(board), *old(pending), p)
                } else {
                    old(board).at(p)
                },
        decreases SQUARES - x,
    {
        let mut y: i32 = 0;
        while y < SQUARES
            invariant
                0 <= x < SQUARES,
                0 <= y <= SQUARES,
                board.wf(),
                pending.wf(),
                *pending == *old(pending),
                forall|p: Point|
                    #[trigger] board.at(p) == if walked_before(p, x as int, y as int) {
                        resolved_at(*old(board), *old(pending), p)
                    } else {
                        old(board).at(p)
                    },
            decreases SQUARES - y,
        {
            let here: Point = (x, y);
            let after: Option<BoardCell> = resolve(
                board.get(here),
                pending.to_burning.get(here),
                pending.to_burned.get(here).is_some(),
                pending.to_cleared.get(here).is_some(),
                pending.to_planted.get(here),
            );
            board.put(here, after);
            y = y + 1;
        }
        x = x + 1;
    }
    proof {
        assert forall|p: Point| #[trigger] board.at(p) == resolved_at(*old(board), *old(pending), p) by {
            if !in_bounds(p) {
                old(board).lemma_off_board(p);
                board.lemma_off_board(p);
                old(pending).to_burning.lemma_off_board(p);
                old(pending).to_burned.lemma_off_board(p);
                old(pending).to_cleared.lemma_off_board(p);
                old(pending).to_planted.lemma_off_board(p);
            }
        }
    }
    pending.drain();
}

} // verus!
