//! One tick of the simulation: the scan, the ageing of the board, and the
//! settling of what is pending.

use vstd::prelude::*;
use crate::cell::{aged_slot, BoardCell};
use crate::pending::Pending;
use crate::position::Point;
use crate::resolve::{apply, grow_older, resolved, Board};
use crate::scan::{scan, scan_done, scanned};

verus! {

/// What a tick makes of the square `p`: its occupant grows one tick older,
/// then the queued changes are settled on it in their fixed order.
pub open spec fn settled_at(board: Board, queued: Pending, p: Point) -> Option<BoardCell> {
    resolved(
        aged_slot(board.at(p)),
        queued.to_burning.at(p),
        queued.to_burned.at(p).is_some(),
        queued.to_cleared.at(p).is_some(),
        queued.to_planted.at(p),
    )
}

/// Whether `after` is the board that a tick makes of `board` with `queued`
/// pending at the end of the scan.
pub open spec fn settles(board: Board, queued: Pending, after: Board) -> bool {
    forall|p: Point| #[trigger] after.at(p) == settled_at(board, queued, p)
}

/// Whether `after` is a board that one tick can make of `board` with `before`
/// pending: some scan of `board` queues changes on top of `before`, and
/// `after` is what settling them gives.
pub open spec fn advanced(board: Board, before: Pending, after: Board) -> bool {
    exists|queued: Pending|
        scan_done(board, before, queued) && #[trigger] scanned(board, before, queued) && settles(
            board,
            queued,
            after,
        )
}

/// Runs one tick. The scan reads the board as it stands at the start of the
/// tick and queues every occupant's doings; only then is the board touched:
/// every occupant grows one tick older, and the pending changes are settled in
/// their fixed order. Nothing is pending afterwards.
pub fn advance(board: &mut Board, pending: &mut Pending)
    requires
        old(board).wf(),
        old(pending).wf(),
    ensures
        final(board).wf(),
        final(pending).wf(),
        final(pending).is_empty(),
        advanced(*old(board), *old(pending), *final(board)),
{
    scan(board, pending);
    let ghost queued = *pending;
    grow_older(board);
    apply(board, pending);
    proof {
        assert(settles(*old(board), queued, *board));
    }
}

} // verus!
