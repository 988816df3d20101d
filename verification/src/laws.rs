//! What holds of every tick, stated over the same functions that the
//! contracts of the scan and of the settling use.

use vstd::prelude::*;
use crate::cell::{decremented, fresh, is_flammable, is_tree_state, BoardCell, TreeState, MAX_BURNED_AGE};
use crate::pending::{ash, Pending};
use crate::position::{in_bounds, within_reach, Point};
use crate::resolve::{burned_out, ignited, resolved, walked_before, Board};
use crate::scan::{is_ash, is_leaving, scan_done, scanned};
use crate::scheduler::{advanced, settles};

verus! {

/// Whether the slot holds nothing or a tree at the start of its life.
pub open spec fn is_bare_or_planted(slot: Option<BoardCell>) -> bool {
    match slot {
        Some(tree) => is_tree_state(tree.tree_state) && tree == fresh(tree.tree_state),
        None => true,
    }
}

/// Whether the slot holds nothing or a fire.
pub open spec fn is_none_or_fire(slot: Option<BoardCell>) -> bool {
    match slot {
        Some(fire) => fire.tree_state == TreeState::Burning,
        None => true,
    }
}

/// A square that is due both to be set alight and to be cleared, and that
/// holds no living tree for the fire to take hold of, ends up cleared: after
/// the four steps it holds the pending tree, if there is one, and else nothing.
pub proof fn law_clearing_beats_failed_ignition(
    slot: Option<BoardCell>,
    fire: Option<BoardCell>,
    burn_out: bool,
    tree: Option<BoardCell>,
)
    requires
        fire.is_some(),
        !is_flammable(slot),
    ensures
        ignited(slot, fire) == slot,
        resolved(slot, fire, burn_out, true, tree) == tree,
{
}

/// The later of the four steps prevails. A square due to be cleared ends with
/// the pending tree or empty. One not cleared but due to burn out ends as
/// burned ground if anything stood on it, whatever was to be planted. One
/// neither cleared nor burned out on which a pending fire took hold ends as
/// that fire, whatever was to be planted. And a square ends up burning only if
/// it burned before or a pending fire took hold of a living tree on it.
pub proof fn law_priority_order(
    slot: Option<BoardCell>,
    fire: Option<BoardCell>,
    burn_out: bool,
    clear: bool,
    tree: Option<BoardCell>,
)
    requires
        is_none_or_fire(fire),
        is_bare_or_planted(tree),
    ensures
        clear ==> resolved(slot, fire, burn_out, clear, tree) == tree,
        !clear && burn_out && slot.is_some() ==> resolved(slot, fire, burn_out, clear, tree) == Some(ash()),
        !clear && !burn_out && fire.is_some() && is_flammable(slot) ==> resolved(
            slot,
            fire,
            burn_out,
            clear,
            tree,
        ) == fire,
        match resolved(slot, fire, burn_out, clear, tree) {
            Some(cell) => cell.tree_state == TreeState::Burning ==> !clear && !burn_out && {
                ||| slot == Some(cell)
                ||| is_flammable(slot) && fire == Some(cell)
            },
            None => true,
        },
{
}

/// Fire cannot take hold of anything but a living tree: on empty ground, on
/// fire and on burned ground the ignite step changes nothing, and if nothing
/// else is pending for the square, all four steps leave it as it was.
pub proof fn law_fire_needs_fuel(slot: Option<BoardCell>, fire: Option<BoardCell>)
    requires
        !is_flammable(slot),
    ensures
        ignited(slot, fire) == slot,
        resolved(slot, fire, false, false, None) == slot,
{
}

/// A living tree grows older by exactly one tick in each tick, and is removed
/// in the tick in which its age reaches zero. If the tree on the square `p`
/// has at most one tick left, then after the tick the square is empty or holds
/// a newly planted tree. If a tree stands on the square after the tick, it is
/// the old tree with exactly one tick less, or a newly planted one.
pub proof fn law_tree_ages_by_one(board: Board, before: Pending, after: Board, p: Point, tree: BoardCell)
    requires
        board.wf(),
        before.wf(),
        advanced(board, before, after),
        board.at(p) == Some(tree),
        is_tree_state(tree.tree_state),
    ensures
        decremented(tree.age) == 0 ==> is_bare_or_planted(after.at(p)),
        is_flammable(after.at(p)) ==> {
            ||| tree.age > 1 && after.at(p) == Some(
                BoardCell { age: (tree.age - 1) as u32, tree_state: tree.tree_state },
            )
            ||| is_bare_or_planted(after.at(p))
        },
{
    let queued = choose|queued: Pending|
        scan_done(board, before, queued) && #[trigger] scanned(board, before, queued) && settles(
            board,
            queued,
            after,
        );
    if !in_bounds(p) {
        board.lemma_off_board(p);
    }
    assert(walked_before(p, 64, 0));
    assert(queued.to_planted.at(p).is_some() ==> is_bare_or_planted(queued.to_planted.at(p)));
    assert(queued.to_burning.at(p).is_some() ==> is_none_or_fire(queued.to_burning.at(p)));
    if decremented(tree.age) == 0 {
        assert(is_leaving(board.at(p)));
        assert(queued.to_cleared.at(p).is_some());
    }
}

/// Burned ground lasts one tick. It is made with one tick left, and the very
/// next tick clears it: after that tick the square is empty or holds a newly
/// planted tree.
pub proof fn law_ash_lasts_one_tick(board: Board, before: Pending, after: Board, p: Point)
    requires
        board.wf(),
        before.wf(),
        advanced(board, before, after),
        is_ash(board.at(p)),
    ensures
        ash().age == MAX_BURNED_AGE,
        decremented(ash().age) == 0,
        forall|slot: Option<BoardCell>| slot.is_some() ==> #[trigger] burned_out(slot, true) == Some(ash()),
        is_bare_or_planted(after.at(p)),
{
    let queued = choose|queued: Pending|
        scan_done(board, before, queued) && #[trigger] scanned(board, before, queued) && settles(
            board,
            queued,
            after,
        );
    if !in_bounds(p) {
        board.lemma_off_board(p);
    }
    assert(walked_before(p, 64, 0));
    assert(is_leaving(board.at(p)));
    assert(queued.to_cleared.at(p).is_some());
    assert(queued.to_planted.at(p).is_some() ==> is_bare_or_planted(queued.to_planted.at(p)));
}

/// A square within reach of another is never that square itself.
pub proof fn law_no_self_target(position: Point, range: int, target: Point)
    requires
        within_reach(position, range, target),
    ensures
        target != position,
{
}

/// Nothing is ever held for a point off the board: not on the board itself,
/// and not among the pending changes.
pub proof fn law_nothing_off_board(board: Board, pending: Pending, p: Point)
    requires
        !in_bounds(p),
    ensures
        board.at(p).is_none(),
        pending.to_burning.at(p).is_none(),
        pending.to_burned.at(p).is_none(),
        pending.to_cleared.at(p).is_none(),
        pending.to_planted.at(p).is_none(),
{
    board.lemma_off_board(p);
    pending.to_burning.lemma_off_board(p);
    pending.to_burned.lemma_off_board(p);
    pending.to_cleared.lemma_off_board(p);
    pending.to_planted.lemma_off_board(p);
}

} // verus!
