//! What an occupant spawns in one tick: seedlings round a tree, fire round a
//! fire.

use vstd::prelude::*;
use crate::cell::{decremented, fresh, BoardCell, TreeState};
use crate::pending::flame;
use crate::position::{generate_valid_position_in_range, in_bounds, is_find, within_reach, Point};

verus! {

/// How many times an occupant of the given kind tries to spawn in one tick.
pub open spec fn attempts_of(tree_state: TreeState) -> int {
    match tree_state {
        TreeState::SlowGrowing => 1,
        TreeState::FastGrowing => 3,
        TreeState::Burning => 6,
        TreeState::Burned => 0,
    }
}

/// How far from itself an occupant of the given kind spawns.
pub open spec fn reach_of(tree_state: TreeState) -> int {
    match tree_state {
        TreeState::SlowGrowing => 6,
        TreeState::FastGrowing => 10,
        TreeState::Burning => 2,
        TreeState::Burned => 0,
    }
}

/// What an occupant spawns: a tree spawns a tree of its kind at the start of
/// its life, a fire spawns a fire with one tick less than it has left itself.
/// Burned ground makes no attempt, so what stands here for it is never used.
pub open spec fn offspring_of(parent: BoardCell) -> BoardCell {
    match parent.tree_state {
        TreeState::SlowGrowing => fresh(TreeState::SlowGrowing),
        TreeState::FastGrowing => fresh(TreeState::FastGrowing),
        TreeState::Burning => flame(decremented(parent.age)),
        TreeState::Burned => parent,
    }
}

/// Whether some entry of the list is for the square `p`.
pub open spec fn holds_position(list: Seq<(Point, BoardCell)>, p: Point) -> bool {
    exists|i: int| 0 <= i < list.len() && (#[trigger] list[i]).0 == p
}

/// Whether no two entries of the list are for the same square.
pub open spec fn distinct_positions(list: Seq<(Point, BoardCell)>) -> bool {
    forall|i: int, j: int| 0 <= i < j < list.len() ==> (#[trigger] list[i]).0 != (#[trigger] list[j]).0
}

/// The list that successive searches make: each square found is listed with
/// `child`, unless an earlier search found it already.
pub open spec fn gathered(finds: Seq<Option<Point>>, child: BoardCell) -> Seq<(Point, BoardCell)>
    decreases finds.len(),
{
    if finds.len() == 0 {
        Seq::empty()
    } else {
        let earlier = gathered(finds.drop_last(), child);
        match finds.last() {
            Some(p) => if holds_position(earlier, p) {
                earlier
            } else {
                earlier.push((p, child))
            },
            None => earlier,
        }
    }
}

/// Whether `list` can be what `parent`, standing at `position`, spawns in one
/// tick under the oracle `is_space_clear`: its kind's number of searches
/// within its kind's reach, with what they found gathered into the list.
pub open spec fn is_new_gen<F: Fn(Point) -> bool>(
    parent: BoardCell,
    position: Point,
    is_space_clear: F,
    list: Seq<(Point, BoardCell)>,
) -> bool {
    exists|finds: Seq<Option<Point>>|
        {
            &&& finds.len() == attempts_of(parent.tree_state)
            &&& forall|k: int|
                0 <= k < finds.len() ==> is_find(
                    position,
                    reach_of(parent.tree_state),
                    is_space_clear,
                    #[trigger] finds[k],
                )
            &&& list == #[trigger] gathered(finds, offspring_of(parent))
        }
}

/// Whether some entry of the list is for the square `p`.
pub fn has_position(list: &Vec<(Point, BoardCell)>, p: Point) -> (found: bool)
    ensures
        found == holds_position(list@, p),
{
    let mut at: usize = 0;
    while at < list.len()
        invariant
            at <= list.len(),
            forall|i: int| 0 <= i < at ==> (#[trigger] list@[i]).0 != p,
        decreases list.len() - at,
    {
        let entry: (Point, BoardCell) = list[at];
        if entry.0.0 == p.0 && entry.0.1 == p.1 {
            return true;
        }
        at = at + 1;
    }
    false
}

/// Adds the entry `(p, cell)` unless the list already has one for the square
/// `p`: the entry that came first stays.
pub fn insert_offspring(list: &mut Vec<(Point, BoardCell)>, p: Point, cell: BoardCell)
    ensures
        final(list)@ == if holds_position(old(list)@, p) {
            old(list)@
        } else {
            old(list)@.push((p, cell))
        },
        distinct_positions(old(list)@) ==> distinct_positions(final(list)@),
{
    if !has_position(list, p) {
        list.push((p, cell));
    }
}

impl TreeState {
    /// How many times an occupant of this kind tries to spawn in one tick.
    pub fn attempts(self) -> (count: u8)
        ensures
            count == attempts_of(self),
    {
        match self {
            TreeState::SlowGrowing => 1,
            TreeState::FastGrowing => 3,
            TreeState::Burning => 6,
            TreeState::Burned => 0,
        }
    }

    /// How far from itself an occupant of this kind spawns.
    pub fn reach(self) -> (range: u16)
        ensures
            range == reach_of(self),
    {
        match self {
            TreeState::SlowGrowing => 6,
            TreeState::FastGrowing => 10,
            TreeState::Burning => 2,
            TreeState::Burned => 0,
        }
    }
}

impl BoardCell {
    /// What this occupant spawns.
    pub fn offspring(self) -> (child: BoardCell)
        ensures
            child == offspring_of(self),
    {
        match self.tree_state {
            TreeState::SlowGrowing => BoardCell::fresh(TreeState::SlowGrowing),
            TreeState::FastGrowing => BoardCell::fresh(TreeState::FastGrowing),
            TreeState::Burning => BoardCell::new(self.aged().age, TreeState::Burning),
            TreeState::Burned => self,
        }
    }

    /// The new occupants that this one, standing at `position`, spawns in one
    /// tick. It makes as many attempts as its kind has, each a fresh search
    /// within its kind's reach for a square that `is_space_clear` accepts, and
    /// each square found gets the kind's offspring; a square found twice is
    /// listed once ([`is_new_gen`]). What the searches draw is left to chance;
    /// whatever they draw, every square listed lies on the board, is within
    /// reach, is not `position` and was accepted. Burned ground spawns nothing.
    pub fn create_new_gen<F: Fn(Point) -> bool>(&self, position: Point, is_space_clear: &F) -> (next_gen:
        Vec<(Point, BoardCell)>)
        requires
            forall|p: Point| in_bounds(p) ==> #[trigger] call_requires(*is_space_clear, (p,)),
        ensures
            is_new_gen(*self, position, *is_space_clear, next_gen@),
            next_gen.len() <= attempts_of(self.tree_state),
            distinct_positions(next_gen@),
            forall|i: int|
                0 <= i < next_gen.len() ==> {
                    &&& in_bounds((#[trigger] next_gen@[i]).0)
                    &&& within_reach(position, reach_of(self.tree_state), next_gen@[i].0)
                    &&& call_ensures(*is_space_clear, (next_gen@[i].0,), true)
                    &&& next_gen@[i].1 == offspring_of(*self)
                },
    {
        let attempts: u8 = self.tree_state.attempts();
        let range: u16 = self.tree_state.reach();
        let child: BoardCell = self.offspring();
        let mut next_gen: Vec<(Point, BoardCell)> = Vec::new();
        let ghost mut finds: Seq<Option<Point>> = Seq::empty();
        let mut tried: u8 = 0;
        while tried < attempts
            invariant
                finds.len() == tried,
                forall|k: int|
                    0 <= k < finds.len() ==> is_find(
                        position,
                        range as int,
                        *is_space_clear,
                        #[trigger] finds[k],
                    ),
                next_gen@ == gathered(finds, child),
                forall|p: Point| in_bounds(p) ==> #[trigger] call_requires(*is_space_clear, (p,)),
                tried <= attempts,
                attempts == attempts_of(self.tree_state),
                range == reach_of(self.tree_state),
                child == offspring_of(*self),
                next_gen.len() <= tried,
                distinct_positions(next_gen@),
                forall|i: int|
                    0 <= i < next_gen.len() ==> {
                        &&& in_bounds((#[trigger] next_gen@[i]).0)
                        &&& within_reach(position, range as int, next_gen@[i].0)
                        &&& call_ensures(*is_space_clear, (next_gen@[i].0,), true)
                        &&& next_gen@[i].1 == child
                    },
            decreases attempts - tried,
        {
            let found: Option<Point> = generate_valid_position_in_range(position, range, is_space_clear);
            match found {
                Some(p) => {
                    insert_offspring(&mut next_gen, p, child);
                },
                None => {},
            }
            proof {
                let earlier = finds;
                finds = earlier.push(found);
                assert(finds.drop_last() =~= earlier);
                assert(finds.last() == found);
            }
            tried = tried + 1;
        }
        next_gen
    }
}

} // verus!
