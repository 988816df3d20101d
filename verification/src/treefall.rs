//! The fall of a slow-growing tree that has reached the end of its life: it
//! comes down along a line of six squares, seeding some and smothering others.

use vstd::prelude::*;
use crate::cell::{fresh, TreeState, SQUARES};
use crate::pending::{queued, Pending};
use crate::position::{in_bounds, Point};
use crate::rng::gen_range;

verus! {

/// Number of squares that a fallen tree covers.
pub const FALL_LENGTH: u8 = 6;

/// The way a tree falls.
#[derive(Clone, Copy, Debug, PartialEq, Eq, Structural)]
pub enum Direction {
    /// Towards growing rows.
    South,
    /// Towards growing columns.
    East,
    /// Towards shrinking rows.
    North,
    /// Towards shrinking columns.
    West,
}

/// What becomes of a square under a fallen tree.
#[derive(Clone, Copy, Debug, PartialEq, Eq, Structural)]
pub enum Regrowth {
    /// A slow-growing tree is planted.
    Slow,
    /// A fast-growing tree is planted.
    Fast,
    /// The square is cleared.
    Bare,
}

/// The direction that a roll stands for: one to four, in the order south,
/// east, north, west.
pub open spec fn direction_of(roll: int) -> Option<Direction> {
    if roll == 1 {
        Some(Direction::South)
    } else if roll == 2 {
        Some(Direction::East)
    } else if roll == 3 {
        Some(Direction::North)
    } else if roll == 4 {
        Some(Direction::West)
    } else {
        None
    }
}

/// What a roll makes of a square under a fallen tree: below five a slow tree,
/// above eight a fast tree, from five to eight bare ground.
pub open spec fn regrowth_of(roll: int) -> Regrowth {
    if roll < 5 {
        Regrowth::Slow
    } else if roll > 8 {
        Regrowth::Fast
    } else {
        Regrowth::Bare
    }
}

/// The point `step` squares from `origin` in the given direction.
pub open spec fn fall_point(origin: Point, direction: Direction, step: int) -> (int, int) {
    match direction {
        Direction::South => (origin.0 as int, origin.1 + step),
        Direction::East => (origin.0 + step, origin.1 as int),
        Direction::North => (origin.0 as int, origin.1 - step),
        Direction::West => (origin.0 - step, origin.1 as int),
    }
}

/// The square `step` squares from `origin` in the given direction, if the
/// board reaches that far.
pub open spec fn fall_square(origin: Point, direction: Direction, step: int) -> Option<Point> {
    let (x, y) = fall_point(origin, direction, step);
    if 0 <= x < SQUARES && 0 <= y < SQUARES {
        Some((x as i32, y as i32))
    } else {
        None
    }
}

/// Whether `p` is a square of the board that a tree falling from `origin` can
/// cover: in line with it, one to six squares away.
pub open spec fn on_fall_line(origin: Point, p: Point) -> bool {
    &&& in_bounds(p)
    &&& {
        ||| p.0 == origin.0 && 1 <= p.1 - origin.1 <= FALL_LENGTH
        ||| p.0 == origin.0 && 1 <= origin.1 - p.1 <= FALL_LENGTH
        ||| p.1 == origin.1 && 1 <= p.0 - origin.0 <= FALL_LENGTH
        ||| p.1 == origin.1 && 1 <= origin.0 - p.0 <= FALL_LENGTH
    }
}

/// Whether each of the first `steps` squares from `origin` in the given
/// direction, as far as the board reaches, is due to be planted or cleared.
pub open spec fn fall_recorded_along(
    pending: Pending,
    origin: Point,
    direction: Direction,
    steps: int,
) -> bool {
    forall|step: int|
        1 <= step <= steps ==> match #[trigger] fall_square(origin, direction, step) {
            Some(p) => pending.to_planted.at(p).is_some() || pending.to_cleared.at(p).is_some(),
            None => true,
        }
}

/// Whether a whole fall from `origin` is on record: in some direction, each of
/// the six squares on the board is due to be planted or cleared.
pub open spec fn fall_recorded(pending: Pending, origin: Point) -> bool {
    exists|direction: Direction| #[trigger] fall_recorded_along(pending, origin, direction, FALL_LENGTH as int)
}

/// Whether `after` holds all that `before` held: what was queued for a square
/// is still queued for it, unchanged.
pub open spec fn keeps(before: Pending, after: Pending) -> bool {
    &&& forall|p: Point|
        (#[trigger] before.to_burning.at(p)).is_some() ==> after.to_burning.at(p) == before.to_burning.at(p)
    &&& forall|p: Point| (#[trigger] before.to_burned.at(p)).is_some() ==> after.to_burned.at(p).is_some()
    &&& forall|p: Point| (#[trigger] before.to_cleared.at(p)).is_some() ==> after.to_cleared.at(p).is_some()
    &&& forall|p: Point|
        (#[trigger] before.to_planted.at(p)).is_some() ==> after.to_planted.at(p) == before.to_planted.at(p)
}

/// A fall on record stays on record while nothing queued is dropped.
pub proof fn lemma_fall_recorded_kept(before: Pending, after: Pending, origin: Point)
    requires
        fall_recorded(before, origin),
        keeps(before, after),
    ensures
        fall_recorded(after, origin),
{
    let direction = choose|direction: Direction| #[trigger]
        fall_recorded_along(before, origin, direction, FALL_LENGTH as int);
    assert forall|step: int| 1 <= step <= FALL_LENGTH implies match #[trigger] fall_square(
        origin,
        direction,
        step,
    ) {
        Some(p) => after.to_planted.at(p).is_some() || after.to_cleared.at(p).is_some(),
        None => true,
    } by {
        match fall_square(origin, direction, step) {
            Some(p) => {
                assert(before.to_planted.at(p).is_some() || before.to_cleared.at(p).is_some());
            },
            None => {},
        }
    }
    assert(fall_recorded_along(after, origin, direction, FALL_LENGTH as int));
}

impl Direction {
    /// The direction that a roll stands for, if it stands for one.
    pub fn from_roll(roll: i32) -> (direction: Option<Direction>)
        ensures
            direction == direction_of(roll as int),
    {
        if roll == 1 {
            Some(Direction::South)
        } else if roll == 2 {
            Some(Direction::East)
        } else if roll == 3 {
            Some(Direction::North)
        } else if roll == 4 {
            Some(Direction::West)
        } else {
            None
        }
    }
}

/// What a roll makes of a square under a fallen tree.
pub fn regrowth_for(roll: i32) -> (regrowth: Regrowth)
    ensures
        regrowth == regrowth_of(roll as int),
{
    if roll < 5 {
        Regrowth::Slow
    } else if roll > 8 {
        Regrowth::Fast
    } else {
        Regrowth::Bare
    }
}

/// The square `step` squares from `origin` in the given direction, if the
/// board reaches that far.
pub fn fall_target(origin: Point, direction: Direction, step: u8) -> (target: Option<Point>)
    ensures
        target == fall_square(origin, direction, step as int),
{
    let reach: i64 = step as i64;
    let (x, y): (i64, i64) = match direction {
        Direction::South => (origin.0 as i64, origin.1 as i64 + reach),
        Direction::East => (origin.0 as i64 + reach, origin.1 as i64),
        Direction::North => (origin.0 as i64, origin.1 as i64 - reach),
        Direction::West => (origin.0 as i64 - reach, origin.1 as i64),
    };
    if 0 <= x && x < SQUARES as i64 && 0 <= y && y < SQUARES as i64 {
        Some((x as i32, y as i32))
    } else {
        None
    }
}

/// How far the square `p` lies from `origin`, counted in the given direction.
pub open spec fn fall_step(origin: Point, direction: Direction, p: Point) -> int {
    match direction {
        Direction::South => p.1 - origin.1,
        Direction::East => p.0 - origin.0,
        Direction::North => origin.1 - p.1,
        Direction::West => origin.0 - p.0,
    }
}

/// Whether `p` is a square of the board that a tree falling from `origin` in
/// the given direction covers.
pub open spec fn on_fall_path(origin: Point, direction: Direction, p: Point) -> bool {
    &&& in_bounds(p)
    &&& 1 <= fall_step(origin, direction, p) <= FALL_LENGTH
    &&& match direction {
        Direction::South | Direction::North => p.0 == origin.0,
        Direction::East | Direction::West => p.1 == origin.1,
    }
}

/// Whether what is pending for the square `p` changed from `before` to
/// `after` as the roll has it for a square under a fallen tree: a slow or a
/// fast tree is queued unless a tree was queued already, or the square is due
/// to be cleared.
pub open spec fn fallen_by(before: Pending, after: Pending, p: Point, roll: int) -> bool {
    match regrowth_of(roll) {
        Regrowth::Slow => {
            &&& after.to_planted.at(p) == queued(before.to_planted.at(p), fresh(TreeState::SlowGrowing))
            &&& after.to_cleared.at(p) == before.to_cleared.at(p)
        },
        Regrowth::Fast => {
            &&& after.to_planted.at(p) == queued(before.to_planted.at(p), fresh(TreeState::FastGrowing))
            &&& after.to_cleared.at(p) == before.to_cleared.at(p)
        },
        Regrowth::Bare => {
            &&& after.to_planted.at(p) == before.to_planted.at(p)
            &&& after.to_cleared.at(p) == Some(())
        },
    }
}

/// Whether what is pending for the square `p` changed as some roll out of ten
/// has it for a square under a fallen tree.
pub open spec fn fallen_on(before: Pending, after: Pending, p: Point) -> bool {
    exists|roll: int| 0 <= roll < 10 && #[trigger] fallen_by(before, after, p, roll)
}

/// Whether the plantings and clearings of `after` differ from those of
/// `before` by one fall from `origin` in the given direction: every square
/// that the fall covers changed as some roll has it, and no other square
/// changed.
pub open spec fn fell_along(before: Pending, after: Pending, origin: Point, direction: Direction) -> bool {
    &&& forall|p: Point|
        !on_fall_path(origin, direction, p) ==> #[trigger] after.to_planted.at(p) == before.to_planted.at(p)
    &&& forall|p: Point|
        !on_fall_path(origin, direction, p) ==> #[trigger] after.to_cleared.at(p) == before.to_cleared.at(p)
    &&& forall|p: Point| on_fall_path(origin, direction, p) ==> #[trigger] fallen_on(before, after, p)
}

/// Whether `after` differs from `before` by one fall from `origin` and no
/// more: the pending fires and burnings-out are the same, and in one of the
/// four directions the plantings and clearings differ by a fall
/// ([`fell_along`]).
pub open spec fn fell(before: Pending, after: Pending, origin: Point) -> bool {
    &&& after.wf()
    &&& after.to_burning == before.to_burning
    &&& after.to_burned == before.to_burned
    &&& exists|direction: Direction| #[trigger] fell_along(before, after, origin, direction)
}

/// What a fall amounts to: nothing queued before is dropped, nothing changes
/// off the fall line, and a whole fall is on record.
pub proof fn lemma_fell(before: Pending, after: Pending, origin: Point)
    requires
        fell(before, after, origin),
    ensures
        keeps(before, after),
        forall|p: Point|
            !on_fall_line(origin, p) ==> #[trigger] after.to_planted.at(p) == before.to_planted.at(p),
        forall|p: Point|
            !on_fall_line(origin, p) ==> #[trigger] after.to_cleared.at(p) == before.to_cleared.at(p),
        fall_recorded(after, origin),
{
    let direction = choose|direction: Direction| #[trigger] fell_along(before, after, origin, direction);
    assert forall|p: Point| (#[trigger] before.to_planted.at(p)).is_some() implies after.to_planted.at(p)
        == before.to_planted.at(p) by {
        if on_fall_path(origin, direction, p) {
            assert(fallen_on(before, after, p));
        }
    }
    assert forall|p: Point| (#[trigger] before.to_cleared.at(p)).is_some() implies after.to_cleared.at(
        p,
    ).is_some() by {
        if on_fall_path(origin, direction, p) {
            assert(fallen_on(before, after, p));
        }
    }
    assert forall|step: int| 1 <= step <= FALL_LENGTH implies match #[trigger] fall_square(
        origin,
        direction,
        step,
    ) {
        Some(p) => after.to_planted.at(p).is_some() || after.to_cleared.at(p).is_some(),
        None => true,
    } by {
        match fall_square(origin, direction, step) {
            Some(p) => {
                assert(on_fall_path(origin, direction, p));
                assert(fallen_on(before, after, p));
            },
            None => {},
        }
    }
    assert(fall_recorded_along(after, origin, direction, FALL_LENGTH as int));
}

/// Queues what the roll makes of the square `p` under a fallen tree: a tree to
/// plant, or the clearing of the square. A point off the board is dropped.
pub fn queue_fallen(pending: &mut Pending, p: Point, roll: i32)
    requires
        old(pending).wf(),
    ensures
        final(pending).wf(),
        final(pending).to_burning == old(pending).to_burning,
        final(pending).to_burned == old(pending).to_burned,
        forall|q: Point|
            q != p ==> #[trigger] final(pending).to_planted.at(q) == old(pending).to_planted.at(q),
        forall|q: Point|
            q != p ==> #[trigger] final(pending).to_cleared.at(q) == old(pending).to_cleared.at(q),
        !in_bounds(p) ==> final(pending).to_planted.at(p) == old(pending).to_planted.at(p)
            && final(pending).to_cleared.at(p) == old(pending).to_cleared.at(p),
        in_bounds(p) ==> fallen_by(*old(pending), *final(pending), p, roll as int),
{
    match regrowth_for(roll) {
        Regrowth::Slow => {
            pending.queue_plant(p, TreeState::SlowGrowing);
        },
        Regrowth::Fast => {
            pending.queue_plant(p, TreeState::FastGrowing);
        },
        Regrowth::Bare => {
            pending.queue_clear(p);
            assert(in_bounds(p) ==> pending.to_cleared.at(p) == Some(()));
        },
    }
}

/// Lets the tree at `origin` fall: draws one of the four directions, and for
/// each of the six squares along it draws what becomes of the square and
/// queues it with [`queue_fallen`]. Squares off the board are dropped. Which
/// direction and which fates are drawn is left to chance; whatever is drawn,
/// the result satisfies [`fell`].
pub fn tree_fall(pending: &mut Pending, origin: Point)
    requires
        old(pending).wf(),
    ensures
        fell(*old(pending), *final(pending), origin),
{
    let roll: i32 = gen_range(1, 5);
    match Direction::from_roll(roll) {
        Some(direction) => {
            let mut step: u8 = 1;
            while step <= FALL_LENGTH
                invariant
                    1 <= step <= FALL_LENGTH + 1,
                    pending.wf(),
                    pending.to_burning == old(pending).to_burning,
                    pending.to_burned == old(pending).to_burned,
                    forall|p: Point|
                        !(on_fall_path(origin, direction, p) && fall_step(origin, direction, p) < step)
                            ==> #[trigger] pending.to_planted.at(p) == old(pending).to_planted.at(p),
                    forall|p: Point|
                        !(on_fall_path(origin, direction, p) && fall_step(origin, direction, p) < step)
                            ==> #[trigger] pending.to_cleared.at(p) == old(pending).to_cleared.at(p),
                    forall|p: Point|
                        on_fall_path(origin, direction, p) && fall_step(origin, direction, p) < step
                            ==> #[trigger] fallen_on(*old(pending), *pending, p),
                decreases FALL_LENGTH + 1 - step,
            {
                let fate: i32 = gen_range(0, 10);
                let ghost before = *pending;
                match fall_target(origin, direction, step) {
                    Some(target) => {
                        queue_fallen(pending, target, fate);
                        proof {
                            assert(fallen_by(*old(pending), *pending, target, fate as int));
                        }
                    },
                    None => {},
                }
                proof {
                    assert forall|p: Point|
                        on_fall_path(origin, direction, p) && fall_step(origin, direction, p) < step
                            + 1 implies #[trigger] fallen_on(*old(pending), *pending, p) by {
                        if fall_step(origin, direction, p) < step {
                            assert(fallen_on(*old(pending), before, p));
                            let earlier = choose|earlier: int|
                                0 <= earlier < 10 && #[trigger] fallen_by(*old(pending), before, p, earlier);
                            assert(fallen_by(*old(pending), *pending, p, earlier));
                        }
                    }
                }
                step = step + 1;
            }
            assert(fell_along(*old(pending), *pending, origin, direction));
        },
        None => {
            // The roll lies between one and four, which all stand for a direction.
            assert(false);
        },
    }
}

} // verus!
