//! The source of chance that the simulation draws from.

use vstd::prelude::*;

verus! {

/// Largest magnitude of a bound handed to [`gen_range`].
pub const DRAW_LIMIT: i32 = 1_048_576;

/// One draw from macroquad's global generator, `macroquad::rand::gen_range`.
///
/// Nothing here was proved; the contract restates what the generator computes.
/// It scales a 32-bit draw into the real interval from `low` up to, but not
/// including, `high`, and cuts the fraction off towards zero. With both bounds
/// inside `DRAW_LIMIT` that arithmetic is exact in double precision, so the
/// result never falls below `low` nor rises above `high`, and stays below
/// `high` whenever `high` is positive. Which value comes back is left open.
#[verifier::external_body]
pub(crate) fn gen_range(low: i32, high: i32) -> (drawn: i32)
    requires
        -DRAW_LIMIT <= low,
        low <= high,
        high <= DRAW_LIMIT,
    ensures
        low <= drawn,
        drawn <= high,
        low < high && 0 < high ==> drawn < high,
{
    macroquad::rand::gen_range(low, high)
}

} // verus!
