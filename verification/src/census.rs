//! Read-only views of the board: the occupied squares and the count of trees.

use vstd::prelude::*;
use crate::cell::{is_flammable, BoardCell, SQUARES};
use crate::position::{in_bounds, Point};
use crate::reproduce::holds_position;
use crate::resolve::{walked_before, Board};

verus! {

/// The squares of the board that hold a living tree.
pub open spec fn tree_squares(board: Board) -> Set<Point> {
    Set::new(|p: Point| is_flammable(board.at(p)))
}

/// The squares holding a living tree among those that come before `(x, y)`.
pub open spec fn tree_squares_before(board: Board, x: int, y: int) -> Set<Point> {
    Set::new(|p: Point| walked_before(p, x, y) && is_flammable(board.at(p)))
}

/// Whether the square `a` comes before the square `b` in the order in which
/// the board is walked.
pub open spec fn comes_before(a: Point, b: Point) -> bool {
    a.0 < b.0 || (a.0 == b.0 && a.1 < b.1)
}

/// Whether the list is the board's occupied squares, each once with its
/// occupant, in the order in which the board is walked.
pub open spec fn is_snapshot(board: Board, list: Seq<(Point, BoardCell)>) -> bool {
    &&& forall|i: int| 0 <= i < list.len() ==> board.at((#[trigger] list[i]).0) == Some(list[i].1)
    &&& forall|i: int, j: int|
        0 <= i < j < list.len() ==> comes_before((#[trigger] list[i]).0, (#[trigger] list[j]).0)
    &&& forall|p: Point| (#[trigger] board.at(p)).is_some() ==> holds_position(list, p)
}

/// The number of living trees on the board. Fire and burned ground are not
/// counted.
pub fn occupant_count(board: &Board) -> (count: usize)
    requires
        board.wf(),
    ensures
        tree_squares(*board).finite(),
        count == tree_squares(*board).len(),
{
    let mut count: usize = 0;
    let mut x: i32 = 0;
    proof {
        assert(tree_squares_before(*board, 0, 0) =~= Set::<Point>::empty());
    }
    while x < SQUARES
        invariant
            0 <= x <= SQUARES,
            board.wf(),
            tree_squares_before(*board, x as int, 0).finite(),
            count == tree_squares_before(*board, x as int, 0).len(),
            count <= x * SQUARES,
        decreases SQUARES - x,
    {
        let mut y: i32 = 0;
        while y < SQUARES
            invariant
                0 <= x < SQUARES,
                0 <= y <= SQUARES,
                board.wf(),
                tree_squares_before(*board, x as int, y as int).finite(),
                count == tree_squares_before(*board, x as int, y as int).len(),
                count <= x * SQUARES + y,
            decreases SQUARES - y,
        {
            let here: Point = (x, y);
            let ghost seen = tree_squares_before(*board, x as int, y as int);
            let tree: bool = match board.get(here) {
                Some(cell) => cell.tree_state.is_tree(),
                None => false,
            };
            if tree {
                proof {
                    assert(tree_squares_before(*board, x as int, y + 1) =~= seen.insert(here));
                }
                count = count + 1;
            } else {
                proof {
                    assert(tree_squares_before(*board, x as int, y + 1) =~= seen);
                }
            }
            y = y + 1;
        }
        proof {
            assert(tree_squares_before(*board, x + 1, 0) =~= tree_squares_before(
                *board,
                x as int,
                SQUARES as int,
            ));
        }
        x = x + 1;
    }
    proof {
        assert(tree_squares(*board) =~= tree_squares_before(*board, SQUARES as int, 0)) by {
            assert forall|p: Point| is_flammable(board.at(p)) implies in_bounds(p) by {
                if !in_bounds(p) {
                    board.lemma_off_board(p);
                }
            }
        }
    }
    count
}

/// The occupied squares of the board, each once with its occupant, in the
/// order in which the board is walked: column by column, each from its first
/// row.
pub fn snapshot(board: &Board) -> (list: Vec<(Point, BoardCell)>)
    requires
        board.wf(),
    ensures
        is_snapshot(*board, list@),
{
    let mut list: Vec<(Point, BoardCell)> = Vec::new();
    let mut x: i32 = 0;
    while x < SQUARES
        invariant
            0 <= x <= SQUARES,
            board.wf(),
            forall|i: int| 0 <= i < list.len() ==> board.at((#[trigger] list@[i]).0) == Some(list@[i].1),
            forall|i: int| 0 <= i < list.len() ==> walked_before((#[trigger] list@[i]).0, x as int, 0),
            forall|i: int, j: int|
                0 <= i < j < list.len() ==> comes_before((#[trigger] list@[i]).0, (#[trigger] list@[j]).0),
            forall|p: Point|
                walked_before(p, x as int, 0) && (#[trigger] board.at(p)).is_some() ==> holds_position(
                    list@,
                    p,
                ),
        decreases SQUARES - x,
    {
        let mut y: i32 = 0;
        while y < SQUARES
            invariant
                0 <= x < SQUARES,
                0 <= y <= SQUARES,
                board.wf(),
                forall|i: int|
                    0 <= i < list.len() ==> board.at((#[trigger] list@[i]).0) == Some(list@[i].1),
                forall|i: int|
                    0 <= i < list.len() ==> walked_before((#[trigger] list@[i]).0, x as int, y as int),
                forall|i: int, j: int|
                    0 <= i < j < list.len() ==> comes_before(
                        (#[trigger] list@[i]).0,
                        (#[trigger] list@[j]).0,
                    ),
                forall|p: Point|
                    walked_before(p, x as int, y as int) && (#[trigger] board.at(p)).is_some()
                        ==> holds_position(list@, p),
            decreases SQUARES - y,
        {
            let here: Point = (x, y);
            let ghost earlier = list@;
            match board.get(here) {
                Some(cell) => {
                    list.push((here, cell));
                    proof {
                        assert(list@[earlier.len() as int].0 == here);
                        assert forall|p: Point|
                            walked_before(p, x as int, y + 1) && (#[trigger] board.at(
                                p,
                            )).is_some() implies holds_position(list@, p) by {
                            if p != here {
                                let i = choose|i: int|
                                    0 <= i < earlier.len() && (#[trigger] earlier[i]).0 == p;
                                assert(list@[i].0 == p);
                            }
                        }
                    }
                },
                None => {},
            }
            y = y + 1;
        }
        x = x + 1;
    }
    proof {
        assert forall|p: Point| (#[trigger] board.at(p)).is_some() implies holds_position(list@, p) by {
            if !in_bounds(p) {
                board.lemma_off_board(p);
            }
        }
    }
    list
}

} // verus!
