//! The changes that wait for the next tick: squares to set alight, to burn
//! out, to clear and to plant.

use vstd::prelude::*;
use crate::cell::{fresh, is_tree_state, BoardCell, TreeState, MAX_BURNED_AGE};
use crate::grid::Grid;
use crate::position::{in_bounds, is_on_board, Point};

verus! {

/// What a slot holds once `value` has been queued for it: the first value
/// queued for a square stays.
pub open spec fn queued<T>(slot: Option<T>, value: T) -> Option<T> {
    if slot.is_some() {
        slot
    } else {
        Some(value)
    }
}

/// What a slot holds once `value` has been queued for the point `p`. A point
/// off the board is dropped.
pub open spec fn queued_at<T>(slot: Option<T>, p: Point, value: T) -> Option<T> {
    if in_bounds(p) {
        queued(slot, value)
    } else {
        slot
    }
}

/// A fire with `age` ticks left.
pub open spec fn flame(age: u32) -> BoardCell {
    BoardCell { age, tree_state: TreeState::Burning }
}

/// The burned ground that a fire leaves.
pub open spec fn ash() -> BoardCell {
    BoardCell { age: MAX_BURNED_AGE, tree_state: TreeState::Burned }
}

/// The kind of the first tree that the list holds for the square `p`, if it
/// holds one. Entries that are no trees are passed over.
pub open spec fn first_tree_for(list: Seq<(Point, BoardCell)>, p: Point) -> Option<TreeState>
    decreases list.len(),
{
    if list.len() == 0 {
        None
    } else {
        let earlier = first_tree_for(list.drop_last(), p);
        if earlier.is_some() {
            earlier
        } else if list.last().0 == p && is_tree_state(list.last().1.tree_state) {
            Some(list.last().1.tree_state)
        } else {
            None
        }
    }
}

/// The age of the first entry that the list holds for the square `p`, if it
/// holds one.
pub open spec fn first_age_for(list: Seq<(Point, BoardCell)>, p: Point) -> Option<u32>
    decreases list.len(),
{
    if list.len() == 0 {
        None
    } else {
        let earlier = first_age_for(list.drop_last(), p);
        if earlier.is_some() {
            earlier
        } else if list.last().0 == p {
            Some(list.last().1.age)
        } else {
            None
        }
    }
}

/// A tree found by [`first_tree_for`] is an entry of the list.
pub proof fn lemma_first_tree_listed(list: Seq<(Point, BoardCell)>, p: Point)
    requires
        first_tree_for(list, p).is_some(),
    ensures
        exists|i: int|
            0 <= i < list.len() && (#[trigger] list[i]).0 == p && list[i].1.tree_state == first_tree_for(
                list,
                p,
            ).unwrap(),
    decreases list.len(),
{
    if first_tree_for(list.drop_last(), p).is_some() {
        lemma_first_tree_listed(list.drop_last(), p);
        let i = choose|i: int|
            0 <= i < list.drop_last().len() && (#[trigger] list.drop_last()[i]).0 == p && list.drop_last()[i].1.tree_state
                == first_tree_for(list.drop_last(), p).unwrap();
        assert(list[i] == list.drop_last()[i]);
    } else {
        assert(list[list.len() - 1] == list.last());
    }
}

/// An age found by [`first_age_for`] is that of an entry of the list.
pub proof fn lemma_first_age_listed(list: Seq<(Point, BoardCell)>, p: Point)
    requires
        first_age_for(list, p).is_some(),
    ensures
        exists|i: int|
            0 <= i < list.len() && (#[trigger] list[i]).0 == p && list[i].1.age == first_age_for(
                list,
                p,
            ).unwrap(),
    decreases list.len(),
{
    if first_age_for(list.drop_last(), p).is_some() {
        lemma_first_age_listed(list.drop_last(), p);
        let i = choose|i: int|
            0 <= i < list.drop_last().len() && (#[trigger] list.drop_last()[i]).0 == p && list.drop_last()[i].1.age
                == first_age_for(list.drop_last(), p).unwrap();
        assert(list[i] == list.drop_last()[i]);
    } else {
        assert(list[list.len() - 1] == list.last());
    }
}

/// The four sets of pending changes, each keyed by the square it is for.
pub struct Pending {
    /// Squares to set alight, each with the fire to write.
    pub to_burning: Grid<BoardCell>,
    /// Squares whose fire burns out.
    pub to_burned: Grid<()>,
    /// Squares to clear.
    pub to_cleared: Grid<()>,
    /// Squares to plant, each with the tree to write.
    pub to_planted: Grid<BoardCell>,
}

/// Whether `after` is `before` with a fire of `age` ticks queued for the point
/// `p`: a point off the board is dropped, and a fire already queued for the
/// square stays.
pub open spec fn with_fire(before: Pending, after: Pending, p: Point, age: u32) -> bool {
    &&& after.to_burning.at(p) == queued_at(before.to_burning.at(p), p, flame(age))
    &&& forall|q: Point| q != p ==> #[trigger] after.to_burning.at(q) == before.to_burning.at(q)
    &&& after.to_burned == before.to_burned
    &&& after.to_cleared == before.to_cleared
    &&& after.to_planted == before.to_planted
}

/// Whether `after` is `before` with the square `p` due to burn out; a point
/// off the board is dropped.
pub open spec fn with_burn_out(before: Pending, after: Pending, p: Point) -> bool {
    &&& after.to_burned.at(p) == if in_bounds(p) {
        Some(())
    } else {
        before.to_burned.at(p)
    }
    &&& forall|q: Point| q != p ==> #[trigger] after.to_burned.at(q) == before.to_burned.at(q)
    &&& after.to_burning == before.to_burning
    &&& after.to_cleared == before.to_cleared
    &&& after.to_planted == before.to_planted
}

/// Whether `after` is `before` with the square `p` due to be cleared; a point
/// off the board is dropped.
pub open spec fn with_clear(before: Pending, after: Pending, p: Point) -> bool {
    &&& after.to_cleared.at(p) == if in_bounds(p) {
        Some(())
    } else {
        before.to_cleared.at(p)
    }
    &&& forall|q: Point| q != p ==> #[trigger] after.to_cleared.at(q) == before.to_cleared.at(q)
    &&& after.to_burning == before.to_burning
    &&& after.to_burned == before.to_burned
    &&& after.to_planted == before.to_planted
}

/// Whether `after` is `before` with a tree of the given kind, at the start of
/// its life, queued for the point `p`: a point off the board and a kind that
/// is no tree are dropped, and a tree already queued for the square stays.
pub open spec fn with_tree(before: Pending, after: Pending, p: Point, tree_state: TreeState) -> bool {
    &&& after.to_planted.at(p) == if is_tree_state(tree_state) {
        queued_at(before.to_planted.at(p), p, fresh(tree_state))
    } else {
        before.to_planted.at(p)
    }
    &&& forall|q: Point| q != p ==> #[trigger] after.to_planted.at(q) == before.to_planted.at(q)
    &&& after.to_burning == before.to_burning
    &&& after.to_burned == before.to_burned
    &&& after.to_cleared == before.to_cleared
}

/// Whether `after` is `before` with every listed tree queued in the order of
/// the list: each square has the tree queued for it before, or else the first
/// tree listed for it, at the start of its life.
pub open spec fn with_saplings(before: Pending, after: Pending, saplings: Seq<(Point, BoardCell)>) -> bool {
    &&& forall|p: Point|
        #[trigger] after.to_planted.at(p) == match first_tree_for(saplings, p) {
            Some(tree_state) => queued_at(before.to_planted.at(p), p, fresh(tree_state)),
            None => before.to_planted.at(p),
        }
    &&& after.to_burning == before.to_burning
    &&& after.to_burned == before.to_burned
    &&& after.to_cleared == before.to_cleared
}

/// Whether `after` is `before` with every listed fire queued in the order of
/// the list: each square has the fire queued for it before, or else a fire
/// with the age of the first entry listed for it.
pub open spec fn with_fires(before: Pending, after: Pending, fires: Seq<(Point, BoardCell)>) -> bool {
    &&& forall|p: Point|
        #[trigger] after.to_burning.at(p) == match first_age_for(fires, p) {
            Some(age) => queued_at(before.to_burning.at(p), p, flame(age)),
            None => before.to_burning.at(p),
        }
    &&& after.to_planted == before.to_planted
    &&& after.to_burned == before.to_burned
    &&& after.to_cleared == before.to_cleared
}

impl Pending {
    /// The four tables are whole, every pending fire is a fire, and every
    /// pending tree is a tree at the start of its life.
    pub open spec fn wf(&self) -> bool {
        &&& self.to_burning.wf()
        &&& self.to_burned.wf()
        &&& self.to_cleared.wf()
        &&& self.to_planted.wf()
        &&& forall|p: Point|
            (#[trigger] self.to_burning.at(p)).is_some() ==> self.to_burning.at(p).unwrap().tree_state
                == TreeState::Burning
        &&& forall|p: Point|
            (#[trigger] self.to_planted.at(p)).is_some() ==> {
                &&& is_tree_state(self.to_planted.at(p).unwrap().tree_state)
                &&& self.to_planted.at(p).unwrap() == fresh(self.to_planted.at(p).unwrap().tree_state)
            }
    }

    /// Whether nothing is pending.
    pub open spec fn is_empty(&self) -> bool {
        &&& self.to_burning.is_empty()
        &&& self.to_burned.is_empty()
        &&& self.to_cleared.is_empty()
        &&& self.to_planted.is_empty()
    }

    /// Nothing pending.
    pub fn new() -> (pending: Pending)
        ensures
            pending.wf(),
            pending.is_empty(),
    {
        Pending {
            to_burning: Grid::new(),
            to_burned: Grid::new(),
            to_cleared: Grid::new(),
            to_planted: Grid::new(),
        }
    }

    /// Queues a fire with `age` ticks left for the square `p`. A point off the
    /// board is dropped, and a fire already queued for the square stays.
    pub fn queue_ignite(&mut self, p: Point, age: u32)
        requires
            old(self).wf(),
        ensures
            final(self).wf(),
            with_fire(*old(self), *final(self), p, age),
    {
        if is_on_board(p) && self.to_burning.get(p).is_none() {
            self.to_burning.set(p, BoardCell::new(age, TreeState::Burning));
        }
    }

    /// Queues the burning out of the square `p`. A point off the board is
    /// dropped.
    pub fn queue_burn_out(&mut self, p: Point)
        requires
            old(self).wf(),
        ensures
            final(self).wf(),
            with_burn_out(*old(self), *final(self), p),
    {
        if is_on_board(p) {
            self.to_burned.set(p, ());
        }
    }

    /// Queues the clearing of the square `p`. A point off the board is dropped.
    pub fn queue_clear(&mut self, p: Point)
        requires
            old(self).wf(),
        ensures
            final(self).wf(),
            with_clear(*old(self), *final(self), p),
    {
        if is_on_board(p) {
            self.to_cleared.set(p, ());
        }
    }

    /// Queues a tree of the given kind, at the start of its life, for the
    /// square `p`. A point off the board is dropped, as is a kind that is no
    /// tree, and a tree already queued for the square stays.
    pub fn queue_plant(&mut self, p: Point, tree_state: TreeState)
        requires
            old(self).wf(),
        ensures
            final(self).wf(),
            with_tree(*old(self), *final(self), p, tree_state),
    {
        if tree_state.is_tree() && is_on_board(p) && self.to_planted.get(p).is_none() {
            self.to_planted.set(p, BoardCell::fresh(tree_state));
        }
    }

    /// Queues the planting of every listed tree, in the order of the list:
    /// each square gets the tree queued for it before, or else the first tree
    /// listed for it, at the start of its life. Entries off the board and
    /// entries that are no trees are dropped.
    pub fn queue_saplings(&mut self, saplings: &Vec<(Point, BoardCell)>)
        requires
            old(self).wf(),
        ensures
            final(self).wf(),
            with_saplings(*old(self), *final(self), saplings@),
    {
        let mut at: usize = 0;
        while at < saplings.len()
            invariant
                at <= saplings.len(),
                self.wf(),
                self.to_burning == old(self).to_burning,
                self.to_burned == old(self).to_burned,
                self.to_cleared == old(self).to_cleared,
                forall|p: Point|
                    #[trigger] self.to_planted.at(p) == match first_tree_for(saplings@.take(at as int), p) {
                        Some(tree_state) => queued_at(old(self).to_planted.at(p), p, fresh(tree_state)),
                        None => old(self).to_planted.at(p),
                    },
            decreases saplings.len() - at,
        {
            let entry: (Point, BoardCell) = saplings[at];
            let ghost before = *self;
            self.queue_plant(entry.0, entry.1.tree_state);
            proof {
                let longer = saplings@.take(at + 1);
                assert(longer.drop_last() =~= saplings@.take(at as int));
                assert(longer.last() == entry);
                assert forall|p: Point|
                    #[trigger] self.to_planted.at(p) == match first_tree_for(longer, p) {
                        Some(tree_state) => queued_at(old(self).to_planted.at(p), p, fresh(tree_state)),
                        None => old(self).to_planted.at(p),
                    } by {
                    if p != entry.0 {
                        assert(self.to_planted.at(p) == before.to_planted.at(p));
                    }
                }
            }
            at = at + 1;
        }
        proof {
            assert(saplings@.take(at as int) =~= saplings@);
        }
    }

    /// Queues every listed fire, in the order of the list: each square gets
    /// the fire queued for it before, or else a fire with the age of the first
    /// entry listed for it. Entries off the board are dropped.
    pub fn queue_fires(&mut self, fires: &Vec<(Point, BoardCell)>)
        requires
            old(self).wf(),
        ensures
            final(self).wf(),
            with_fires(*old(self), *final(self), fires@),
    {
        let mut at: usize = 0;
        while at < fires.len()
            invariant
                at <= fires.len(),
                self.wf(),
                self.to_planted == old(self).to_planted,
                self.to_burned == old(self).to_burned,
                self.to_cleared == old(self).to_cleared,
                forall|p: Point|
                    #[trigger] self.to_burning.at(p) == match first_age_for(fires@.take(at as int), p) {
                        Some(age) => queued_at(old(self).to_burning.at(p), p, flame(age)),
                        None => old(self).to_burning.at(p),
                    },
            decreases fires.len() - at,
        {
            let entry: (Point, BoardCell) = fires[at];
            let ghost before = *self;
            self.queue_ignite(entry.0, entry.1.age);
            proof {
                let longer = fires@.take(at + 1);
                assert(longer.drop_last() =~= fires@.take(at as int));
                assert(longer.last() == entry);
                assert forall|p: Point|
                    #[trigger] self.to_burning.at(p) == match first_age_for(longer, p) {
                        Some(age) => queued_at(old(self).to_burning.at(p), p, flame(age)),
                        None => old(self).to_burning.at(p),
                    } by {
                    if p != entry.0 {
                        assert(self.to_burning.at(p) == before.to_burning.at(p));
                    }
                }
            }
            at = at + 1;
        }
        proof {
            assert(fires@.take(at as int) =~= fires@);
        }
    }

    /// Drops every pending change.
    pub fn drain(&mut self)
        requires
            old(self).wf(),
        ensures
            final(self).wf(),
            final(self).is_empty(),
    {
        self.to_burning.wipe();
        self.to_burned.wipe();
        self.to_cleared.wipe();
        self.to_planted.wipe();
    }
}

} // verus!
