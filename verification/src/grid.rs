//! The fixed square table that the board and the pending changes are kept in.

use vstd::prelude::*;
use crate::cell::SQUARES;
use crate::position::{in_bounds, Point};

verus! {

/// Number of squares on the board.
pub const AREA: usize = 4096;

/// Where a square of the board is kept in the table: column by column.
pub open spec fn slot_index(p: Point) -> int {
    p.0 * SQUARES + p.1
}

/// Every square has a place of its own in the table.
pub proof fn lemma_slot_index(p: Point, q: Point)
    requires
        in_bounds(p),
        in_bounds(q),
    ensures
        0 <= slot_index(p) < AREA,
        slot_index(p) == slot_index(q) ==> p == q,
{
}

/// A table with one slot for each square of the board. A slot is empty or
/// holds one value. The table never grows or shrinks.
pub struct Grid<T> {
    slots: Vec<Option<T>>,
}

impl<T: Copy> Grid<T> {
    /// The table has exactly one slot for each square.
    pub closed spec fn wf(&self) -> bool {
        self.slots.len() == AREA
    }

    /// What the table holds for a square; nothing for a point off the board.
    pub closed spec fn at(&self, p: Point) -> Option<T> {
        if in_bounds(p) {
            self.slots@[slot_index(p)]
        } else {
            None
        }
    }

    /// The occupied squares with what they hold.
    pub open spec fn view(&self) -> Map<Point, T> {
        Map::new(|p: Point| self.at(p).is_some(), |p: Point| self.at(p).unwrap())
    }

    /// Whether no square holds anything.
    pub open spec fn is_empty(&self) -> bool {
        forall|p: Point| (#[trigger] self.at(p)).is_none()
    }

    /// Nothing is held for a point off the board.
    pub proof fn lemma_off_board(&self, p: Point)
        requires
            !in_bounds(p),
        ensures
            self.at(p).is_none(),
    {
    }

    /// A table with every slot empty.
    pub fn new() -> (grid: Grid<T>)
        ensures
            grid.wf(),
            grid.is_empty(),
            grid@ =~= Map::<Point, T>::empty(),
    {
        let mut slots: Vec<Option<T>> = Vec::new();
        let mut filled: usize = 0;
        while filled < AREA
            invariant
                filled <= AREA,
                slots.len() == filled,
                forall|i: int| 0 <= i < filled ==> (#[trigger] slots@[i]).is_none(),
            decreases AREA - filled,
        {
            slots.push(None);
            filled = filled + 1;
        }
        let grid = Grid { slots };
        assert forall|p: Point| (#[trigger] grid.at(p)).is_none() by {
            if in_bounds(p) {
                lemma_slot_index(p, p);
            }
        }
        grid
    }

    /// Point read: what the table holds for a square of the board.
    pub fn get(&self, p: Point) -> (slot: Option<T>)
        requires
            self.wf(),
            in_bounds(p),
        ensures
            slot == self.at(p),
            slot.is_some() <==> self@.dom().contains(p),
            slot.is_some() ==> self@[p] == slot.unwrap(),
    {
        proof {
            lemma_slot_index(p, p);
        }
        let index: usize = (p.0 * SQUARES + p.1) as usize;
        self.slots[index]
    }

    /// Point write: the square now holds `slot`; every other square keeps what
    /// it held.
    pub fn put(&mut self, p: Point, slot: Option<T>)
        requires
            old(self).wf(),
            in_bounds(p),
        ensures
            final(self).wf(),
            final(self).at(p) == slot,
            forall|q: Point| q != p ==> #[trigger] final(self).at(q) == old(self).at(q),
            final(self)@ =~= match slot {
                Some(value) => old(self)@.insert(p, value),
                None => old(self)@.remove(p),
            },
    {
        proof {
            lemma_slot_index(p, p);
        }
        let index: usize = (p.0 * SQUARES + p.1) as usize;
        self.slots.set(index, slot);
        proof {
            assert forall|q: Point| q != p implies #[trigger] self.at(q) == old(self).at(q) by {
                if in_bounds(q) {
                    lemma_slot_index(q, p);
                }
            }
        }
    }

    /// Point write of a value: the square now holds `value`.
    pub fn set(&mut self, p: Point, value: T)
        requires
            old(self).wf(),
            in_bounds(p),
        ensures
            final(self).wf(),
            final(self).at(p) == Some(value),
            forall|q: Point| q != p ==> #[trigger] final(self).at(q) == old(self).at(q),
            final(self)@ =~= old(self)@.insert(p, value),
    {
        self.put(p, Some(value));
    }

    /// Empties every slot.
    pub fn wipe(&mut self)
        requires
            old(self).wf(),
        ensures
            final(self).wf(),
            final(self).is_empty(),
            final(self)@ =~= Map::<Point, T>::empty(),
    {
        let mut done: usize = 0;
        while done < AREA
            invariant
                done <= AREA,
                self.slots.len() == AREA,
                forall|i: int| 0 <= i < done ==> (#[trigger] self.slots@[i]).is_none(),
            decreases AREA - done,
        {
            self.slots.set(done, None);
            done = done + 1;
        }
        proof {
            assert forall|p: Point| (#[trigger] self.at(p)).is_none() by {
                if in_bounds(p) {
                    lemma_slot_index(p, p);
                }
            }
        }
    }

    /// Point clear: the square now holds nothing.
    pub fn clear(&mut self, p: Point)
        requires
            old(self).wf(),
            in_bounds(p),
        ensures
            final(self).wf(),
            final(self).at(p).is_none(),
            forall|q: Point| q != p ==> #[trigger] final(self).at(q) == old(self).at(q),
            final(self)@ =~= old(self)@.remove(p),
    {
        self.put(p, None);
    }
}

} // verus!
