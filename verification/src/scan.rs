//! The scan of a tick: every square of the board is read once, and what its
//! occupant does this tick is queued. The board itself is left as it is.

use vstd::prelude::*;
use crate::cell::{
    aged_cell, decremented, fresh, is_flammable, is_tree_state, BoardCell, TreeState, SQUARES,
};
use crate::pending::{
    first_age_for, first_tree_for, flame, lemma_first_age_listed, lemma_first_tree_listed, with_burn_out,
    with_clear, with_fires, with_saplings, with_tree, Pending,
};
use crate::grid::AREA;
use crate::position::{in_bounds, within_reach, Point};
use crate::reproduce::{attempts_of, distinct_positions, offspring_of, reach_of};
use crate::resolve::{walked_before, Board};
use crate::rng::gen_range;
use crate::treefall::{
    fall_recorded, fell, keeps, lemma_fall_recorded_kept, lemma_fell, on_fall_line, tree_fall,
};

verus! {

/// Whether the square holds a tree that reaches the end of its life this tick.
pub open spec fn is_dying_tree(slot: Option<BoardCell>) -> bool {
    match slot {
        Some(cell) => is_tree_state(cell.tree_state) && decremented(cell.age) == 0,
        None => false,
    }
}

/// Whether the square holds a slow-growing tree that falls this tick.
pub open spec fn is_falling_tree(slot: Option<BoardCell>) -> bool {
    match slot {
        Some(cell) => cell.tree_state == TreeState::SlowGrowing && decremented(cell.age) == 0,
        None => false,
    }
}

/// Whether the square holds a fire that burns out this tick.
pub open spec fn is_dying_fire(slot: Option<BoardCell>) -> bool {
    match slot {
        Some(cell) => cell.tree_state == TreeState::Burning && decremented(cell.age) == 0,
        None => false,
    }
}

/// Whether the square holds burned ground.
pub open spec fn is_ash(slot: Option<BoardCell>) -> bool {
    match slot {
        Some(cell) => cell.tree_state == TreeState::Burned,
        None => false,
    }
}

/// Whether the square is cleared this tick on its own account: a tree at the
/// end of its life, or burned ground.
pub open spec fn is_leaving(slot: Option<BoardCell>) -> bool {
    is_dying_tree(slot) || is_ash(slot)
}

/// Whether the occupant of `parent` may have the tree `tree` planted at `p`
/// this tick: a living tree seeds an empty square within its reach with its
/// own kind, a falling tree seeds its fall line with either kind, and burned
/// ground may bring forth a fast-growing pioneer where it lies.
pub open spec fn sprouts(board: Board, parent: Point, p: Point, tree: BoardCell) -> bool {
    match board.at(parent) {
        Some(cell) => match cell.tree_state {
            TreeState::SlowGrowing => if decremented(cell.age) > 0 {
                &&& tree == fresh(TreeState::SlowGrowing)
                &&& in_bounds(p)
                &&& within_reach(parent, reach_of(TreeState::SlowGrowing), p)
                &&& board.at(p).is_none()
            } else {
                &&& on_fall_line(parent, p)
                &&& (tree == fresh(TreeState::SlowGrowing) || tree == fresh(TreeState::FastGrowing))
            },
            TreeState::FastGrowing => {
                &&& decremented(cell.age) > 0
                &&& tree == fresh(TreeState::FastGrowing)
                &&& in_bounds(p)
                &&& within_reach(parent, reach_of(TreeState::FastGrowing), p)
                &&& board.at(p).is_none()
            },
            TreeState::Burning => false,
            TreeState::Burned => p == parent && tree == fresh(TreeState::FastGrowing),
        },
        None => false,
    }
}

/// Whether the occupant of `parent` may set the square `p` alight with the
/// fire `fire` this tick: a fire that has not burned out spreads to a living
/// tree within its reach, and the new fire has one tick less than the old one
/// has left after this tick.
pub open spec fn kindles(board: Board, parent: Point, p: Point, fire: BoardCell) -> bool {
    match board.at(parent) {
        Some(cell) => {
            &&& cell.tree_state == TreeState::Burning
            &&& decremented(cell.age) > 0
            &&& fire == flame(decremented(decremented(cell.age)))
            &&& in_bounds(p)
            &&& within_reach(parent, reach_of(TreeState::Burning), p)
            &&& is_flammable(board.at(p))
        },
        None => false,
    }
}

/// Whether the occupant of `parent` may have the square `p` cleared this
/// tick: it leaves its own square, and a falling tree may smother its fall
/// line.
pub open spec fn topples(board: Board, parent: Point, p: Point) -> bool {
    ||| p == parent && is_leaving(board.at(parent))
    ||| is_falling_tree(board.at(parent)) && on_fall_line(parent, p)
}

/// Whether `list` may be what the occupant `parent`, standing on the square
/// `here`, spawns in one tick: no more entries than its kind makes attempts,
/// no square twice, and each entry its kind's offspring on a square of the
/// board within its reach, which is empty for a tree and holds a living tree
/// for a fire.
pub open spec fn spawned(board: Board, parent: BoardCell, here: Point, list: Seq<(Point, BoardCell)>) -> bool {
    &&& list.len() <= attempts_of(parent.tree_state)
    &&& distinct_positions(list)
    &&& forall|i: int|
        0 <= i < list.len() ==> {
            &&& in_bounds((#[trigger] list[i]).0)
            &&& within_reach(here, reach_of(parent.tree_state), list[i].0)
            &&& list[i].1 == offspring_of(parent)
            &&& if parent.tree_state == TreeState::Burning {
                is_flammable(board.at(list[i].0))
            } else {
                board.at(list[i].0).is_none()
            }
        }
}

/// Whether `after` is `before` with the doings of a living occupant queued:
/// some list that it may spawn ([`spawned`]), queued as trees to plant for a
/// tree and as fires for a fire.
pub open spec fn spawn_queued(board: Board, parent: BoardCell, here: Point, before: Pending, after: Pending) -> bool {
    exists|list: Seq<(Point, BoardCell)>| #[trigger]
        spawned(board, parent, here, list) && if parent.tree_state == TreeState::Burning {
            with_fires(before, after, list)
        } else {
            with_saplings(before, after, list)
        }
}

/// Whether `after` is `before` with the clearing of `here` queued and then
/// one fall from `here`.
pub open spec fn fall_queued(here: Point, before: Pending, after: Pending) -> bool {
    exists|cleared: Pending| #[trigger] with_clear(before, cleared, here) && fell(cleared, after, here)
}

/// Whether `after` is `before` with the clearing of burned ground at `here`
/// queued, and with or without a fast-growing pioneer to plant there.
pub open spec fn ash_queued(here: Point, before: Pending, after: Pending) -> bool {
    exists|cleared: Pending| #[trigger]
        with_clear(before, cleared, here) && (after == cleared || with_tree(
            cleared,
            after,
            here,
            TreeState::FastGrowing,
        ))
}

/// Whether `after` is `before` with what the occupant of `here` does in one
/// tick queued, step by step as the rules have it. The occupant counts one
/// tick older than the board holds it. An empty square queues nothing. A tree
/// at the end of its life is due to be cleared, and a slow-growing one falls;
/// a living tree queues the trees it seeds. A fire at the end of its life is
/// due to burn out; a living fire queues the fires it spreads. Burned ground
/// is due to be cleared and may bring forth a pioneer.
pub open spec fn square_done(board: Board, here: Point, before: Pending, after: Pending) -> bool {
    match board.at(here) {
        None => after == before,
        Some(cell) => match cell.tree_state {
            TreeState::SlowGrowing => if decremented(cell.age) == 0 {
                fall_queued(here, before, after)
            } else {
                spawn_queued(board, aged_cell(cell), here, before, after)
            },
            TreeState::FastGrowing => if decremented(cell.age) == 0 {
                with_clear(before, after, here)
            } else {
                spawn_queued(board, aged_cell(cell), here, before, after)
            },
            TreeState::Burning => if decremented(cell.age) == 0 {
                with_burn_out(before, after, here)
            } else {
                spawn_queued(board, aged_cell(cell), here, before, after)
            },
            TreeState::Burned => ash_queued(here, before, after),
        },
    }
}

/// Whether `after` differs from `before` by what the occupant of `here` does
/// in one tick, and no more.
pub open spec fn square_scanned(board: Board, here: Point, before: Pending, after: Pending) -> bool {
    &&& after.wf()
    &&& keeps(before, after)
    &&& forall|p: Point|
        before.to_planted.at(p).is_none() && (#[trigger] after.to_planted.at(p)).is_some() ==> sprouts(
            board,
            here,
            p,
            after.to_planted.at(p).unwrap(),
        )
    &&& forall|p: Point|
        before.to_burning.at(p).is_none() && (#[trigger] after.to_burning.at(p)).is_some() ==> kindles(
            board,
            here,
            p,
            after.to_burning.at(p).unwrap(),
        )
    &&& forall|p: Point|
        before.to_cleared.at(p).is_none() && (#[trigger] after.to_cleared.at(p)).is_some() ==> topples(
            board,
            here,
            p,
        )
    &&& forall|p: Point|
        before.to_burned.at(p).is_none() && (#[trigger] after.to_burned.at(p)).is_some() ==> p == here
            && is_dying_fire(board.at(here))
    &&& is_dying_fire(board.at(here)) ==> after.to_burned.at(here).is_some()
    &&& is_leaving(board.at(here)) ==> after.to_cleared.at(here).is_some()
    &&& is_falling_tree(board.at(here)) ==> fall_recorded(after, here)
}

/// Whether `after` differs from `before` by a scan of the squares that come
/// before `(x, y)`, and no more.
pub open spec fn scanned_before(board: Board, before: Pending, after: Pending, x: int, y: int) -> bool {
    &&& after.wf()
    &&& keeps(before, after)
    &&& forall|p: Point|
        before.to_planted.at(p).is_none() && (#[trigger] after.to_planted.at(p)).is_some() ==> exists|
            parent: Point,
        |
            in_bounds(parent) && #[trigger] sprouts(board, parent, p, after.to_planted.at(p).unwrap())
    &&& forall|p: Point|
        before.to_burning.at(p).is_none() && (#[trigger] after.to_burning.at(p)).is_some() ==> exists|
            parent: Point,
        |
            in_bounds(parent) && #[trigger] kindles(board, parent, p, after.to_burning.at(p).unwrap())
    &&& forall|p: Point|
        before.to_cleared.at(p).is_none() && (#[trigger] after.to_cleared.at(p)).is_some() ==> exists|
            parent: Point,
        | in_bounds(parent) && #[trigger] topples(board, parent, p)
    &&& forall|p: Point|
        before.to_burned.at(p).is_none() && (#[trigger] after.to_burned.at(p)).is_some()
            ==> is_dying_fire(board.at(p))
    &&& forall|p: Point|
        walked_before(p, x, y) && is_dying_fire(#[trigger] board.at(p)) ==> after.to_burned.at(p).is_some()
    &&& forall|p: Point|
        walked_before(p, x, y) && is_leaving(#[trigger] board.at(p)) ==> after.to_cleared.at(p).is_some()
    &&& forall|p: Point|
        walked_before(p, x, y) && is_falling_tree(#[trigger] board.at(p)) ==> fall_recorded(after, p)
}

/// Whether `after` differs from `before` by one scan of the whole board, and
/// no more.
///
/// What was queued before is kept. Exactly the fires that burn out this tick
/// are newly due to burn out. Every tree at the end of its life, and all
/// burned ground, is due to be cleared, and for every falling tree a whole
/// fall is on record. Whatever else is newly queued has a cause on the board:
/// a tree to plant was seeded by some occupant ([`sprouts`]), a fire was
/// spread by some fire ([`kindles`]), a clearing lies under some fallen tree
/// ([`topples`]).
pub open spec fn scanned(board: Board, before: Pending, after: Pending) -> bool {
    scanned_before(board, before, after, SQUARES as int, 0)
}

/// Scanning one more square extends a scan of the squares before it.
proof fn lemma_scan_extends(board: Board, before: Pending, middle: Pending, after: Pending, here: Point)
    requires
        in_bounds(here),
        scanned_before(board, before, middle, here.0 as int, here.1 as int),
        square_scanned(board, here, middle, after),
    ensures
        scanned_before(board, before, after, here.0 as int, here.1 + 1),
{
    let x = here.0 as int;
    let y = here.1 + 1;
    assert forall|p: Point|
        before.to_planted.at(p).is_none() && (#[trigger] after.to_planted.at(p)).is_some() implies exists|
        parent: Point,
    |
        in_bounds(parent) && #[trigger] sprouts(board, parent, p, after.to_planted.at(p).unwrap()) by {
        if middle.to_planted.at(p).is_none() {
            assert(sprouts(board, here, p, after.to_planted.at(p).unwrap()));
        }
    }
    assert forall|p: Point|
        before.to_burning.at(p).is_none() && (#[trigger] after.to_burning.at(p)).is_some() implies exists|
        parent: Point,
    |
        in_bounds(parent) && #[trigger] kindles(board, parent, p, after.to_burning.at(p).unwrap()) by {
        if middle.to_burning.at(p).is_none() {
            assert(kindles(board, here, p, after.to_burning.at(p).unwrap()));
        }
    }
    assert forall|p: Point|
        before.to_cleared.at(p).is_none() && (#[trigger] after.to_cleared.at(p)).is_some() implies exists|
        parent: Point,
    | in_bounds(parent) && #[trigger] topples(board, parent, p) by {
        if middle.to_cleared.at(p).is_none() {
            assert(topples(board, here, p));
        }
    }
    assert forall|p: Point|
        walked_before(p, x, y) && is_falling_tree(#[trigger] board.at(p)) implies fall_recorded(
        after,
        p,
    ) by {
        if p != here {
            assert(walked_before(p, here.0 as int, here.1 as int));
            lemma_fall_recorded_kept(middle, after, p);
        }
    }
}

/// Whether a roll out of ten brings a pioneer forth on burned ground: one
/// roll in ten does.
pub open spec fn is_pioneer_roll(roll: int) -> bool {
    roll < 1
}

/// Whether a roll out of ten brings a pioneer forth on burned ground.
pub fn is_pioneer(roll: i32) -> (pioneer: bool)
    ensures
        pioneer == is_pioneer_roll(roll as int),
{
    roll < 1
}

/// Reads the square `here` and queues what its occupant does this tick.
///
/// The occupant is taken one tick older than the board holds it. A tree at the
/// end of its life is due to be cleared, and a slow-growing one falls
/// ([`tree_fall`]); a tree still alive seeds empty squares. A fire at the end
/// of its life is due to burn out; one still alive spreads to living trees.
/// Burned ground is due to be cleared, and one time in ten a fast-growing
/// tree is planted on it. What is drawn is left to chance; whatever is drawn,
/// the result is as [`square_done`] has it, and [`square_scanned`] says what
/// that amounts to.
pub fn scan_square(board: &Board, pending: &mut Pending, here: Point)
    requires
        board.wf(),
        old(pending).wf(),
        in_bounds(here),
    ensures
        square_done(*board, here, *old(pending), *final(pending)),
        square_scanned(*board, here, *old(pending), *final(pending)),
{
    let cell: BoardCell = match board.get(here) {
        Some(cell) => cell,
        None => {
            return ;
        },
    };
    let now: BoardCell = cell.aged();
    match cell.tree_state {
        TreeState::SlowGrowing | TreeState::FastGrowing => {
            if now.age == 0 {
                pending.queue_clear(here);
                if cell.tree_state == TreeState::SlowGrowing {
                    let ghost cleared = *pending;
                    tree_fall(pending, here);
                    proof {
                        lemma_fell(cleared, *pending, here);
                        assert(with_clear(*old(pending), cleared, here) && fell(cleared, *pending, here));
                    }
                }
            } else {
                let vacant = |p: Point| -> (clear: bool)
                    requires
                        in_bounds(p),
                    ensures
                        clear == board.at(p).is_none(),
                    { board.get(p).is_none() };
                let saplings: Vec<(Point, BoardCell)> = now.create_new_gen(here, &vacant);
                let ghost before = *pending;
                pending.queue_saplings(&saplings);
                proof {
                    assert forall|p: Point|
                        before.to_planted.at(p).is_none() && (#[trigger] pending.to_planted.at(
                            p,
                        )).is_some() implies sprouts(*board, here, p, pending.to_planted.at(p).unwrap()) by {
                        lemma_first_tree_listed(saplings@, p);
                        let i = choose|i: int|
                            0 <= i < saplings@.len() && (#[trigger] saplings@[i]).0 == p
                                && saplings@[i].1.tree_state == first_tree_for(saplings@, p).unwrap();
                        assert(call_ensures(vacant, (saplings@[i].0,), true));
                    }
                    assert(spawned(*board, now, here, saplings@));
                }
            }
        },
        TreeState::Burning => {
            if now.age == 0 {
                pending.queue_burn_out(here);
            } else {
                let burnable = |p: Point| -> (clear: bool)
                    requires
                        in_bounds(p),
                    ensures
                        clear == is_flammable(board.at(p)),
                    {
                        match board.get(p) {
                            Some(target) => target.tree_state.is_tree(),
                            None => false,
                        }
                    };
                let fires: Vec<(Point, BoardCell)> = now.create_new_gen(here, &burnable);
                let ghost before = *pending;
                pending.queue_fires(&fires);
                proof {
                    assert forall|p: Point|
                        before.to_burning.at(p).is_none() && (#[trigger] pending.to_burning.at(
                            p,
                        )).is_some() implies kindles(*board, here, p, pending.to_burning.at(p).unwrap()) by {
                        lemma_first_age_listed(fires@, p);
                        let i = choose|i: int|
                            0 <= i < fires@.len() && (#[trigger] fires@[i]).0 == p && fires@[i].1.age
                                == first_age_for(fires@, p).unwrap();
                        assert(call_ensures(burnable, (fires@[i].0,), true));
                    }
                    assert(spawned(*board, now, here, fires@));
                }
            }
        },
        TreeState::Burned => {
            pending.queue_clear(here);
            let ghost cleared = *pending;
            if is_pioneer(gen_range(0, 10)) {
                pending.queue_plant(here, TreeState::FastGrowing);
            }
            proof {
                assert(with_clear(*old(pending), cleared, here) && (*pending == cleared || with_tree(
                    cleared,
                    *pending,
                    here,
                    TreeState::FastGrowing,
                )));
            }
        },
    }
}

/// The square that is read at place `k` of the walk over the board: column
/// by column, each from its first row.
pub open spec fn walk_point(k: int) -> Point {
    ((k / (SQUARES as int)) as i32, (k % (SQUARES as int)) as i32)
}

/// Whether `steps` records a walk over the first `count` squares of the
/// board: each step queues the doings of one square ([`square_done`]) on top
/// of the step before.
pub open spec fn walked(board: Board, steps: Seq<Pending>, count: int) -> bool {
    &&& steps.len() == count + 1
    &&& forall|k: int|
        0 <= k < count ==> #[trigger] square_done(board, walk_point(k), steps[k], steps[k + 1])
}

/// Whether `after` is `before` with the doings of every square queued, one
/// square after the other in the order of the walk, each square once.
pub open spec fn scan_done(board: Board, before: Pending, after: Pending) -> bool {
    exists|steps: Seq<Pending>| #[trigger]
        walked(board, steps, AREA as int) && steps.first() == before && steps.last() == after
}

/// The scan of one tick: reads every square of the board once, column by
/// column, and queues what its occupant does ([`scan_square`]). The board is
/// only read. What is drawn is left to chance; whatever is drawn, the result
/// is that of a walk over the whole board ([`scan_done`]), and [`scanned`]
/// says what that amounts to.
pub fn scan(board: &Board, pending: &mut Pending)
    requires
        board.wf(),
        old(pending).wf(),
    ensures
        scan_done(*board, *old(pending), *final(pending)),
        scanned(*board, *old(pending), *final(pending)),
{
    let ghost mut steps: Seq<Pending> = seq![*pending];
    let mut x: i32 = 0;
    while x < SQUARES
        invariant
            0 <= x <= SQUARES,
            board.wf(),
            scanned_before(*board, *old(pending), *pending, x as int, 0),
            walked(*board, steps, x * SQUARES),
            steps.first() == *old(pending),
            steps.last() == *pending,
        decreases SQUARES - x,
    {
        let mut y: i32 = 0;
        while y < SQUARES
            invariant
                0 <= x < SQUARES,
                0 <= y <= SQUARES,
                board.wf(),
                scanned_before(*board, *old(pending), *pending, x as int, y as int),
                walked(*board, steps, x * SQUARES + y),
                steps.first() == *old(pending),
                steps.last() == *pending,
            decreases SQUARES - y,
        {
            let ghost middle = *pending;
            let ghost earlier = steps;
            scan_square(board, pending, (x, y));
            proof {
                lemma_scan_extends(*board, *old(pending), middle, *pending, (x, y));
                steps = earlier.push(*pending);
                assert(walk_point(x * SQUARES + y) == (x, y));
                assert forall|k: int| 0 <= k < x * SQUARES + y + 1 implies #[trigger] square_done(
                    *board,
                    walk_point(k),
                    steps[k],
                    steps[k + 1],
                ) by {
                    if k < x * SQUARES + y {
                        assert(square_done(*board, walk_point(k), earlier[k], earlier[k + 1]));
                    }
                }
            }
            y = y + 1;
        }
        proof {
            assert(scanned_before(*board, *old(pending), *pending, x + 1, 0)) by {
                assert forall|p: Point| walked_before(p, x + 1, 0) implies walked_before(
                    p,
                    x as int,
                    SQUARES as int,
                ) by {}
            }
        }
        x = x + 1;
    }
}

} // verus!
