//! The cell rule of the checkerboard texture.
//!
//! The board texture shades a point by the unit cell the point falls in:
//! cells whose coordinates have opposite parities go to one child texture,
//! the others to the second child. The floor that turns a texture-space
//! coordinate into a cell index is taken beside the floating-point shading
//! code; the rule on the integer cell indices stands here.

use vstd::prelude::*;

verus! {

/// A cell is "red" when the sum of its two indices is odd. Neighbouring
/// cells therefore never have the same colour.
pub open spec fn checker_red(x: int, y: int) -> bool {
    (x + y) % 2 == 1
}

/// Pick the child texture for the cell with indices `x`, `y`: true selects
/// the red child, false the black one.
pub fn board_pick(x: i64, y: i64) -> (r: bool)
    ensures
        r == checker_red(x as int, y as int),
{
    let xodd = x % 2 != 0;
    let yodd = y % 2 != 0;
    (xodd != yodd)
}

/// The cell colour flips across every unit boundary, in either direction.
pub proof fn lemma_checker_parity_flips(x: int, y: int)
    ensures
        checker_red(x + 1, y) != checker_red(x, y),
        checker_red(x, y + 1) != checker_red(x, y),
{
    lemma_parity_step(x + y);
}

/// Consecutive integers have different remainders modulo two.
proof fn lemma_parity_step(t: int)
    ensures
        ((t + 1) % 2 == 1) != (t % 2 == 1),
{
    vstd::arithmetic::div_mod::lemma_add_mod_noop_right(1, t, 2);
    vstd::arithmetic::div_mod::lemma_mod_bound(t, 2);
}

} // verus!
