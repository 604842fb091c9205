//! Shared geometry ground: the bit layout of a bitmap row and the
//! integer-point model of polygon lists. A row is sixteen bits wide with
//! bit 15 the leftmost pixel, so column `c` reads bit `15 - c`; coordinates
//! are integers in font design space.

use vstd::prelude::*;

verus! {

/// Column `c` of a bitmap row is lit: bit `15 - c`, the most significant
/// bit standing for the leftmost pixel (meaningful for `0 <= c < 16`).
pub open spec fn row_bit(row: u16, c: int) -> bool {
    (row >> ((15 - c) as u16)) & 1 == 1
}

/// Runtime test matching [`row_bit`].
pub fn bit_at(row: u16, c: usize) -> (r: bool)
    requires
        c < 16,
    ensures
        r == row_bit(row, c as int),
{
    let sh: u16 = (15 - c) as u16;
    assert(sh == (15 - c as int) as u16);
    (row >> sh) & 1 == 1
}

/// The integer points of one polygon held as machine-word pairs.
pub open spec fn points_model(p: Seq<(isize, isize)>) -> Seq<(int, int)> {
    p.map_values(|q: (isize, isize)| (q.0 as int, q.1 as int))
}

/// The integer points of a list of polygons.
pub open spec fn polys_model(v: Seq<Vec<(isize, isize)>>) -> Seq<Seq<(int, int)>> {
    v.map_values(|p: Vec<(isize, isize)>| points_model(p@))
}

} // verus!
