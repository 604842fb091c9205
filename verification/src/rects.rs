//! The rectangle extractor: one closed unit square per lit bitmap bit, in
//! glyph-local coordinates. Row 0 — the top row of the stored bitmap — maps
//! to the highest `y`, so the top-first storage order becomes a bottom-up
//! coordinate convention.

use vstd::prelude::*;

use crate::font::{BDFGlyph, GlyphModel};
use crate::geometry::{bit_at, points_model, polys_model, row_bit};

verus! {

/// The closed unit square at `(x, y)`: five points, the first repeated to
/// close the polygon.
pub open spec fn unit_square(x: int, y: int) -> Seq<(int, int)> {
    seq![(x, y), (x + 1, y), (x + 1, y + 1), (x, y + 1), (x, y)]
}

/// The squares of row `r` from column `c` on, one per lit bit, left to
/// right: the square of column `c` sits at `x = x_offset + c`,
/// `y = y_offset + height - 1 - r`.
pub open spec fn row_rects_from(g: GlyphModel, r: int, c: int) -> Seq<Seq<(int, int)>>
    decreases g.bbx.0 - c,
{
    if c < 0 || c >= g.bbx.0 {
        Seq::empty()
    } else {
        let rest = row_rects_from(g, r, c + 1);
        if row_bit(g.bitmap[r], c) {
            seq![unit_square(g.bbx.2 + c, g.bbx.3 + g.bbx.1 - 1 - r)] + rest
        } else {
            rest
        }
    }
}

/// The squares of the rows from `r` on, top row first.
pub open spec fn glyph_rects_from(g: GlyphModel, r: int) -> Seq<Seq<(int, int)>>
    decreases g.bitmap.len() - r,
{
    if r < 0 || r >= g.bitmap.len() {
        Seq::empty()
    } else {
        row_rects_from(g, r, 0) + glyph_rects_from(g, r + 1)
    }
}

/// Every unit square of the glyph, rows top to bottom, columns left to
/// right.
pub open spec fn spec_glyph_rects(g: GlyphModel) -> Seq<Seq<(int, int)>> {
    glyph_rects_from(g, 0)
}

/// The machine limits the square corners must fit in: rows are sixteen bits
/// wide, and the extreme corner coordinates fit an `isize`.
pub open spec fn rect_bounds_ok(g: GlyphModel) -> bool {
    &&& (g.bitmap.len() > 0 ==> g.bbx.0 <= 16)
    &&& (g.bitmap.len() > 0 && g.bbx.0 > 0 ==> {
        &&& g.bbx.2 + g.bbx.0 <= isize::MAX as int
        &&& g.bbx.3 + g.bbx.1 <= isize::MAX as int
        &&& g.bbx.3 + g.bbx.1 >= isize::MIN as int + g.bitmap.len()
    })
}

/// Runtime test matching [`rect_bounds_ok`], for callers that hold an
/// arbitrary glyph.
pub fn rect_bounds_check(glyph: &BDFGlyph) -> (r: bool)
    ensures
        r == rect_bounds_ok(glyph@),
{
    let (w, h, xo, yo) = glyph.bbx;
    if glyph.bitmap.len() == 0 {
        return true;
    }
    if w > 16 {
        return false;
    }
    if w == 0 {
        return true;
    }
    let wide: i128 = xo as i128 + w as i128;
    let tall: i128 = yo as i128 + h as i128;
    wide <= isize::MAX as i128 && tall <= isize::MAX as i128 && tall >= isize::MIN as i128
        + glyph.bitmap.len() as i128
}

/// One closed five-point unit-square polygon per lit bit of the bitmap, as
/// [`spec_glyph_rects`] lists them.
pub fn bdf_to_rects(glyph: &BDFGlyph) -> (r: Vec<Vec<(isize, isize)>>)
    requires
        rect_bounds_ok(glyph@),
    ensures
        polys_model(r@) == spec_glyph_rects(glyph@),
{
    let ghost g = glyph@;
    let mut out: Vec<Vec<(isize, isize)>> = Vec::new();
    let (width, height, x_off, y_off) = glyph.bbx;
    let mut r: usize = 0;
    proof {
        assert(polys_model(out@) + glyph_rects_from(g, 0) =~= spec_glyph_rects(g));
    }
    while r < glyph.bitmap.len()
        invariant
            rect_bounds_ok(g),
            g == glyph@,
            width == glyph.bbx.0 && x_off == glyph.bbx.2 && y_off == glyph.bbx.3,
            height == glyph.bbx.1,
            r <= g.bitmap.len(),
            spec_glyph_rects(g) == polys_model(out@) + glyph_rects_from(g, r as int),
        decreases g.bitmap.len() - r,
    {
        let row = glyph.bitmap[r];
        let mut c: usize = 0;
        proof {
            assert(glyph_rects_from(g, r as int) == row_rects_from(g, r as int, 0)
                + glyph_rects_from(g, r + 1));
        }
        while c < width
            invariant
                rect_bounds_ok(g),
                g == glyph@,
                width == glyph.bbx.0 && x_off == glyph.bbx.2 && y_off == glyph.bbx.3,
                height == glyph.bbx.1,
                r < g.bitmap.len(),
                row == g.bitmap[r as int],
                c <= width <= 16,
                spec_glyph_rects(g) == polys_model(out@) + row_rects_from(g, r as int, c as int)
                    + glyph_rects_from(g, r + 1),
            decreases width - c,
        {
            let ghost prev = polys_model(out@);
            if bit_at(row, c) {
                let x: isize = x_off + c as isize;
                let y128: i128 = y_off as i128 + height as i128 - 1 - r as i128;
                proof {
                    assert(isize::MIN as i128 <= y128 <= isize::MAX as i128);
                }
                let y: isize = y128 as isize;
                let mut poly: Vec<(isize, isize)> = Vec::new();
                poly.push((x, y));
                poly.push((x + 1, y));
                poly.push((x + 1, y + 1));
                poly.push((x, y + 1));
                poly.push((x, y));
                proof {
                    assert(points_model(poly@) =~= unit_square(x as int, y as int));
                    assert(unit_square(x as int, y as int) == unit_square(
                        g.bbx.2 + c,
                        g.bbx.3 + g.bbx.1 - 1 - r,
                    ));
                }
                out.push(poly);
                proof {
                    assert(polys_model(out@) =~= prev.push(unit_square(
                        g.bbx.2 + c,
                        g.bbx.3 + g.bbx.1 - 1 - r,
                    )));
                    assert(row_rects_from(g, r as int, c as int) == seq![unit_square(
                        g.bbx.2 + c,
                        g.bbx.3 + g.bbx.1 - 1 - r,
                    )] + row_rects_from(g, r as int, c + 1));
                    assert(polys_model(out@) + row_rects_from(g, r as int, c + 1)
                        =~= prev + row_rects_from(g, r as int, c as int));
                    assert(polys_model(out@) + row_rects_from(g, r as int, c + 1)
                        + glyph_rects_from(g, r + 1) =~= prev + row_rects_from(
                        g,
                        r as int,
                        c as int,
                    ) + glyph_rects_from(g, r + 1));
                }
            } else {
                proof {
                    assert(row_rects_from(g, r as int, c as int) == row_rects_from(
                        g,
                        r as int,
                        c + 1,
                    ));
                }
            }
            c += 1;
        }
        proof {
            assert(row_rects_from(g, r as int, c as int) =~= Seq::<Seq<(int, int)>>::empty());
            assert(polys_model(out@) + row_rects_from(g, r as int, c as int)
                + glyph_rects_from(g, r + 1) =~= polys_model(out@) + glyph_rects_from(
                g,
                r + 1,
            ));
        }
        r += 1;
    }
    proof {
        assert(glyph_rects_from(g, r as int) =~= Seq::<Seq<(int, int)>>::empty());
        assert(polys_model(out@) + glyph_rects_from(g, r as int) =~= polys_model(out@));
    }
    out
}

} // verus!
