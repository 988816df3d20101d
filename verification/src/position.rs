//! Positions on the board and the search for a nearby square.

use vstd::prelude::*;
use crate::cell::SQUARES;
use crate::rng::gen_range;

verus! {

/// A square of the board, column first. Candidates may lie off the board.
pub type Point = (i32, i32);

/// Whether the point lies on the board.
pub open spec fn in_bounds(p: Point) -> bool {
    0 <= p.0 < SQUARES && 0 <= p.1 < SQUARES
}

/// Whether moving by `(dx, dy)` from `position` leaves the square and stays on
/// the board.
pub open spec fn offset_lands(position: Point, dx: int, dy: int) -> bool {
    &&& !(dx == 0 && dy == 0)
    &&& 0 <= position.0 + dx < SQUARES
    &&& 0 <= position.1 + dy < SQUARES
}

/// Whether `target` can be reached from `position` by an offset whose two
/// components each lie in `-range <= d < range`, not both zero.
pub open spec fn within_reach(position: Point, range: int, target: Point) -> bool {
    &&& target != position
    &&& -range <= target.0 - position.0 < range
    &&& -range <= target.1 - position.1 < range
}

/// Whether the point lies on the board.
pub fn is_on_board(p: Point) -> (on: bool)
    ensures
        on == in_bounds(p),
{
    0 <= p.0 && p.0 < SQUARES && 0 <= p.1 && p.1 < SQUARES
}

/// Whether `d` can be drawn as one component of an offset within `range`:
/// from `-range` up to, but not including, `range`; with a range of zero,
/// zero alone.
pub open spec fn is_draw(range: int, d: int) -> bool {
    -range <= d <= range && (range > 0 ==> d < range)
}

/// Whether `found` is what the offset `(dx, dy)` from `position` gives under
/// the oracle `is_space_clear`: the square that the offset leads to, if the
/// offset is not zero, the square lies on the board and the oracle accepted
/// it; nothing, if the offset is zero, leads off the board, or the oracle
/// turned the square down.
pub open spec fn found_by_offset<F: Fn(Point) -> bool>(
    position: Point,
    dx: int,
    dy: int,
    is_space_clear: F,
    found: Option<Point>,
) -> bool {
    match found {
        Some(target) => {
            &&& offset_lands(position, dx, dy)
            &&& target.0 == position.0 + dx
            &&& target.1 == position.1 + dy
            &&& call_ensures(is_space_clear, (target,), true)
        },
        None => offset_lands(position, dx, dy) ==> call_ensures(
            is_space_clear,
            (((position.0 + dx) as i32, (position.1 + dy) as i32),),
            false,
        ),
    }
}

/// Whether `found` can come out of one search from `position` within `range`
/// under the oracle `is_space_clear`: it is what some offset gives whose two
/// components can each be drawn within `range`.
pub open spec fn is_find<F: Fn(Point) -> bool>(
    position: Point,
    range: int,
    is_space_clear: F,
    found: Option<Point>,
) -> bool {
    exists|dx: int, dy: int|
        is_draw(range, dx) && is_draw(range, dy) && #[trigger] found_by_offset(
            position,
            dx,
            dy,
            is_space_clear,
            found,
        )
}

/// The square that the offset `(dx, dy)` leads to from `position`, if the
/// offset is not zero, the square lies on the board and `is_space_clear`
/// accepts it. The oracle is asked only about a square on the board that
/// differs from `position`.
pub fn position_from_offset<F: Fn(Point) -> bool>(
    position: Point,
    dx: i32,
    dy: i32,
    is_space_clear: &F,
) -> (found: Option<Point>)
    requires
        forall|p: Point| in_bounds(p) ==> #[trigger] call_requires(*is_space_clear, (p,)),
    ensures
        found_by_offset(position, dx as int, dy as int, *is_space_clear, found),
{
    if dx == 0 && dy == 0 {
        return None;
    }
    let wide_x: i64 = position.0 as i64 + dx as i64;
    let wide_y: i64 = position.1 as i64 + dy as i64;
    if wide_x < 0 || wide_y < 0 {
        return None;
    }
    if wide_x >= SQUARES as i64 || wide_y >= SQUARES as i64 {
        return None;
    }
    let target: Point = (wide_x as i32, wide_y as i32);
    if !is_space_clear(target) {
        return None;
    }
    Some(target)
}

/// One attempt to find a square near `position`: draws an offset with each
/// component from `-range` up to, but not including, `range`, and returns
/// what [`position_from_offset`] makes of it. Which offset is drawn is left
/// to chance. Whatever is drawn, a square that comes back lies on the board,
/// is not `position` itself, is within `range` of it and was accepted by
/// `is_space_clear`. With a `range` of zero nothing comes back.
pub fn generate_valid_position_in_range<F: Fn(Point) -> bool>(
    position: Point,
    range: u16,
    is_space_clear: &F,
) -> (found: Option<Point>)
    requires
        forall|p: Point| in_bounds(p) ==> #[trigger] call_requires(*is_space_clear, (p,)),
    ensures
        is_find(position, range as int, *is_space_clear, found),
        range == 0 ==> found.is_none(),
        match found {
            Some(target) => {
                &&& in_bounds(target)
                &&& within_reach(position, range as int, target)
                &&& call_ensures(*is_space_clear, (target,), true)
            },
            None => true,
        },
{
    let reach: i32 = range as i32;
    let offset_x: i32 = gen_range(-reach, reach);
    let offset_y: i32 = gen_range(-reach, reach);
    let found: Option<Point> = position_from_offset(position, offset_x, offset_y, is_space_clear);
    proof {
        assert(found_by_offset(position, offset_x as int, offset_y as int, *is_space_clear, found));
    }
    found
}

} // verus!
