//! The corner mask of rounded rectangles.

use vstd::prelude::*;

verus! {

/// The number of rows that a rounded corner spans at most.
pub const MASK_SIZE: usize = 8;

/// For each corner radius from 0 to 8, eight to a radius: how far each of the
/// first eight rows of a corner stands in from the side of the rectangle.
pub const CORNER_MASK: [u8; 72] = [
    0, 0, 0, 0, 0, 0, 0, 0,
    1, 0, 0, 0, 0, 0, 0, 0,
    2, 1, 0, 0, 0, 0, 0, 0,
    3, 2, 1, 0, 0, 0, 0, 0,
    4, 2, 1, 1, 0, 0, 0, 0,
    5, 3, 2, 1, 1, 0, 0, 0,
    6, 4, 2, 2, 1, 1, 0, 0,
    7, 5, 4, 3, 2, 1, 1, 0,
    8, 6, 4, 3, 2, 2, 1, 1,
];

/// The inset of row `row` of a corner of radius `radius`.
pub open spec fn corner_inset(radius: int, row: int) -> int {
    CORNER_MASK[radius * 8 + row] as int
}

/// Looks up the inset of one row of a corner.
pub fn mask_at(radius: usize, row: usize) -> (inset: u8)
    requires
        radius <= MASK_SIZE,
        row < MASK_SIZE,
    ensures
        inset == corner_inset(radius as int, row as int),
        inset <= radius,
{
    CORNER_MASK[radius * MASK_SIZE + row]
}

} // verus!
