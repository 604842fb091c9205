//! The curve extractor: per glyph, its encoding as a decimal numeral, its
//! advance width, and one open two-point horizontal segment per maximal run
//! of lit bits in each bitmap row. Rows sit in a baseline-anchored space:
//! row `r` lies at `y = font_ascent - y_offset - height + r`, a different
//! vertical convention from the rectangle extractor, chosen for text layout.

use vstd::prelude::*;

use crate::font::{BDFFont, FontModel, GlyphModel};
use crate::geometry::{bit_at, points_model, polys_model, row_bit};
use crate::numbers::{spec_decimal, to_decimal};

verus! {

/// The open horizontal segment from `(x1, y)` to `(x2, y)`.
pub open spec fn segment(x1: int, x2: int, y: int) -> Seq<(int, int)> {
    seq![(x1, y), (x2, y)]
}

/// The segments of one row from column `c` on, given a run open since
/// column `start` (if one is): a run closes at the first unlit column, or at
/// the row's right edge `x_offset + width`.
pub open spec fn row_segs_from(
    bits: u16,
    width: int,
    x_off: int,
    y: int,
    c: int,
    start: Option<int>,
) -> Seq<Seq<(int, int)>>
    decreases width - c,
{
    if c < 0 {
        Seq::empty()
    } else if c >= width {
        match start {
            Some(s) => seq![segment(x_off + s, x_off + width, y)],
            None => Seq::empty(),
        }
    } else {
        let lit = row_bit(bits, c);
        match start {
            None => {
                if lit {
                    row_segs_from(bits, width, x_off, y, c + 1, Some(c))
                } else {
                    row_segs_from(bits, width, x_off, y, c + 1, None)
                }
            },
            Some(s) => {
                if lit {
                    row_segs_from(bits, width, x_off, y, c + 1, Some(s))
                } else {
                    seq![segment(x_off + s, x_off + c, y)] + row_segs_from(
                        bits,
                        width,
                        x_off,
                        y,
                        c + 1,
                        None,
                    )
                }
            },
        }
    }
}

/// The segments of the rows from `r` on, top row first, each row scanned
/// with no run open.
pub open spec fn glyph_segs_from(g: GlyphModel, ascent: int, r: int) -> Seq<Seq<(int, int)>>
    decreases g.bitmap.len() - r,
{
    if r < 0 || r >= g.bitmap.len() {
        Seq::empty()
    } else {
        row_segs_from(
            g.bitmap[r],
            g.bbx.0,
            g.bbx.2,
            ascent - g.bbx.3 - g.bbx.1 + r,
            0,
            None,
        ) + glyph_segs_from(g, ascent, r + 1)
    }
}

/// Every stroke segment of the glyph, rows top to bottom, runs left to
/// right.
pub open spec fn spec_glyph_segs(g: GlyphModel, ascent: int) -> Seq<Seq<(int, int)>> {
    glyph_segs_from(g, ascent, 0)
}

/// One glyph's entry: its encoding as a decimal numeral, its horizontal
/// advance width, and its stroke segments.
pub open spec fn spec_glyph_curve(g: GlyphModel, ascent: int) -> (
    Seq<u8>,
    int,
    Seq<Seq<(int, int)>>,
) {
    (spec_decimal(g.encoding as nat), g.dwidth.0, spec_glyph_segs(g, ascent))
}

/// The whole font's curve table, one entry per glyph in glyph order.
pub open spec fn spec_font_curves(f: FontModel) -> Seq<(Seq<u8>, int, Seq<Seq<(int, int)>>)> {
    Seq::new(f.glyphs.len(), |i: int| spec_glyph_curve(f.glyphs[i], f.properties.font_ascent))
}

/// The machine limits one glyph's segment coordinates must fit in: rows are
/// sixteen bits wide, and the extreme coordinates fit an `isize`.
pub open spec fn curve_bounds_ok(g: GlyphModel, ascent: int) -> bool {
    &&& (g.bitmap.len() > 0 ==> {
        &&& g.bbx.0 <= 16
        &&& ascent - g.bbx.3 - g.bbx.1 >= isize::MIN as int
        &&& ascent - g.bbx.3 - g.bbx.1 + g.bitmap.len() - 1 <= isize::MAX as int
    })
    &&& (g.bitmap.len() > 0 && g.bbx.0 > 0 ==> g.bbx.2 + g.bbx.0 <= isize::MAX as int)
}

/// The limits of [`curve_bounds_ok`], for every glyph of the font at once.
pub open spec fn font_curve_bounds_ok(f: FontModel) -> bool {
    forall|i: int|
        0 <= i < f.glyphs.len() ==> curve_bounds_ok(
            #[trigger] f.glyphs[i],
            f.properties.font_ascent,
        )
}

/// Runtime test matching [`font_curve_bounds_ok`], for callers that hold an
/// arbitrary document.
pub fn font_curve_bounds_check(bdf: &BDFFont) -> (r: bool)
    ensures
        r == font_curve_bounds_ok(bdf@),
{
    let ascent = bdf.properties.font_ascent;
    let mut i: usize = 0;
    while i < bdf.glyphs.len()
        invariant
            i <= bdf@.glyphs.len(),
            ascent == bdf.properties.font_ascent,
            forall|j: int|
                0 <= j < i ==> curve_bounds_ok(
                    #[trigger] bdf@.glyphs[j],
                    bdf@.properties.font_ascent,
                ),
        decreases bdf@.glyphs.len() - i,
    {
        let g = &bdf.glyphs[i];
        let (w, h, xo, yo) = g.bbx;
        proof {
            assert(bdf@.glyphs[i as int] == g@);
        }
        if g.bitmap.len() > 0 {
            let base: i128 = ascent as i128 - yo as i128 - h as i128;
            if w > 16 {
                return false;
            }
            if base < isize::MIN as i128 {
                return false;
            }
            if base + g.bitmap.len() as i128 - 1 > isize::MAX as i128 {
                return false;
            }
            if w > 0 && xo as i128 + w as i128 > isize::MAX as i128 {
                return false;
            }
        }
        i += 1;
    }
    true
}

/// The value a run-state word stands for.
pub open spec fn run_model(o: Option<usize>) -> Option<int> {
    match o {
        Some(s) => Some(s as int),
        None => None,
    }
}

/// The curve table of the whole font, as [`spec_font_curves`] lists it: per
/// glyph, in glyph order, the decimal numeral of its encoding, its advance
/// width `dwidth.x`, and one segment per maximal run of lit bits per row.
pub fn bdf_to_curves(bdf: &BDFFont) -> (r: Vec<(Vec<u8>, usize, Vec<Vec<(isize, isize)>>)>)
    requires
        font_curve_bounds_ok(bdf@),
    ensures
        curves_model(r@) == spec_font_curves(bdf@),
{
    let ghost f = bdf@;
    let ascent = bdf.properties.font_ascent;
    let mut out: Vec<(Vec<u8>, usize, Vec<Vec<(isize, isize)>>)> = Vec::new();
    let mut gi: usize = 0;
    proof {
        assert(curves_model(out@) =~= spec_font_curves(f).subrange(0, 0));
    }
    while gi < bdf.glyphs.len()
        invariant
            font_curve_bounds_ok(f),
            f == bdf@,
            ascent == bdf.properties.font_ascent,
            gi <= f.glyphs.len(),
            curves_model(out@) == spec_font_curves(f).subrange(0, gi as int),
        decreases f.glyphs.len() - gi,
    {
        let glyph = &bdf.glyphs[gi];
        let ghost g = glyph@;
        proof {
            assert(f.glyphs[gi as int] == g);
            assert(curve_bounds_ok(g, ascent as int));
        }
        let (width, height, x_off, y_off) = glyph.bbx;
        let mut paths: Vec<Vec<(isize, isize)>> = Vec::new();
        let mut r: usize = 0;
        proof {
            assert(polys_model(paths@) + glyph_segs_from(g, ascent as int, 0) =~= spec_glyph_segs(
                g,
                ascent as int,
            ));
        }
        while r < glyph.bitmap.len()
            invariant
                curve_bounds_ok(g, ascent as int),
                g == glyph@,
                width == glyph.bbx.0 && height == glyph.bbx.1,
                x_off == glyph.bbx.2 && y_off == glyph.bbx.3,
                r <= g.bitmap.len(),
                spec_glyph_segs(g, ascent as int) == polys_model(paths@) + glyph_segs_from(
                    g,
                    ascent as int,
                    r as int,
                ),
            decreases g.bitmap.len() - r,
        {
            let ghost row_prefix = polys_model(paths@);
            let bits = glyph.bitmap[r];
            let y128: i128 = ascent as i128 - y_off as i128 - height as i128 + r as i128;
            proof {
                assert(isize::MIN as i128 <= y128 <= isize::MAX as i128);
            }
            let y: isize = y128 as isize;
            let ghost yv = y as int;
            let mut run: Option<usize> = None;
            let mut c: usize = 0;
            while c < width
                invariant
                    curve_bounds_ok(g, ascent as int),
                    g == glyph@,
                    width == glyph.bbx.0 && x_off == glyph.bbx.2,
                    r < g.bitmap.len(),
                    bits == g.bitmap[r as int],
                    yv == y as int,
                    c <= width <= 16,
                    (match run {
                        Some(s) => s < c,
                        None => true,
                    }),
                    row_segs_from(bits as u16, width as int, x_off as int, yv, 0, None)
                        == polys_model(paths@).skip(row_prefix.len() as int) + row_segs_from(
                        bits as u16,
                        width as int,
                        x_off as int,
                        yv,
                        c as int,
                        run_model(run),
                    ),
                    row_prefix.is_prefix_of(polys_model(paths@)),
                decreases width - c,
            {
                let ghost emitted = polys_model(paths@).skip(row_prefix.len() as int);
                let lit = bit_at(bits, c);
                match run {
                    None => {
                        if lit {
                            run = Some(c);
                        }
                    },
                    Some(s) => {
                        if !lit {
                            let x1: isize = x_off + s as isize;
                            let x2: isize = x_off + c as isize;
                            let mut seg: Vec<(isize, isize)> = Vec::new();
                            seg.push((x1, y));
                            seg.push((x2, y));
                            proof {
                                assert(points_model(seg@) =~= segment(
                                    x_off as int + s,
                                    x_off as int + c,
                                    yv,
                                ));
                            }
                            let ghost prev_all = polys_model(paths@);
                            paths.push(seg);
                            proof {
                                assert(polys_model(paths@) =~= prev_all.push(segment(
                                    x_off as int + s,
                                    x_off as int + c,
                                    yv,
                                )));
                                assert(polys_model(paths@).skip(row_prefix.len() as int)
                                    =~= emitted.push(segment(x_off as int + s, x_off as int + c,
                                    yv,
                                )));
                                assert(emitted.push(segment(x_off as int + s, x_off as int + c, yv))
                                    + row_segs_from(bits as u16, width as int, x_off as int, yv,
                                    c + 1, run_model(None),
                                ) =~= emitted + (seq![segment(x_off as int + s, x_off as int + c,
                                    yv,
                                )] + row_segs_from(bits as u16, width as int, x_off as int, yv,
                                    c + 1, run_model(None),
                                )));
                                assert(row_prefix =~= polys_model(paths@).subrange(
                                    0,
                                    row_prefix.len() as int,
                                ));
                            }
                            run = None;
                        }
                    },
                }
                c += 1;
            }
            // Close a run still open at the row's right edge.
            if let Some(s) = run {
                let x1: isize = x_off + s as isize;
                let x2: isize = x_off + width as isize;
                let mut seg: Vec<(isize, isize)> = Vec::new();
                seg.push((x1, y));
                seg.push((x2, y));
                proof {
                    assert(points_model(seg@) =~= segment(
                        x_off as int + s,
                        x_off as int + width,
                        yv,
                    ));
                }
                let ghost emitted = polys_model(paths@).skip(row_prefix.len() as int);
                let ghost prev_all = polys_model(paths@);
                paths.push(seg);
                proof {
                    assert(polys_model(paths@) =~= prev_all.push(segment(
                        x_off as int + s,
                        x_off as int + width,
                        yv,
                    )));
                    assert(polys_model(paths@).skip(row_prefix.len() as int) =~= emitted.push(
                        segment(x_off as int + s, x_off as int + width, yv),
                    ));
                    assert(row_segs_from(bits as u16, width as int, x_off as int, yv, c as int,
                        run_model(Some(s)),
                    ) =~= seq![segment(x_off as int + s, x_off as int + width, yv)]);
                    assert(row_segs_from(bits as u16, width as int, x_off as int, yv, 0, None)
                        =~= polys_model(paths@).skip(row_prefix.len() as int));
                }
            } else {
                proof {
                    assert(row_segs_from(bits as u16, width as int, x_off as int, yv, c as int,
                        run_model(run),
                    ) =~= Seq::<Seq<(int, int)>>::empty());
                    assert(row_segs_from(bits as u16, width as int, x_off as int, yv, 0, None)
                        =~= polys_model(paths@).skip(row_prefix.len() as int));
                }
            }
            proof {
                assert(glyph_segs_from(g, ascent as int, r as int) == row_segs_from(
                    g.bitmap[r as int],
                    g.bbx.0,
                    g.bbx.2,
                    ascent as int - g.bbx.3 - g.bbx.1 + r,
                    0,
                    None,
                ) + glyph_segs_from(g, ascent as int, r + 1));
                assert(yv == ascent as int - g.bbx.3 - g.bbx.1 + r);
                assert(polys_model(paths@) =~= row_prefix + polys_model(paths@).skip(
                    row_prefix.len() as int,
                ));
                assert(row_prefix + glyph_segs_from(g, ascent as int, r as int) =~= polys_model(
                    paths@,
                ) + glyph_segs_from(g, ascent as int, r + 1));
            }
            r += 1;
        }
        proof {
            assert(glyph_segs_from(g, ascent as int, r as int) =~= Seq::<Seq<(int, int)>>::empty());
            assert(polys_model(paths@) + glyph_segs_from(g, ascent as int, r as int)
                =~= polys_model(paths@));
            assert(polys_model(paths@) == spec_glyph_segs(g, ascent as int));
        }
        let id = to_decimal(glyph.encoding);
        let advance = glyph.dwidth.0;
        let ghost prev_out = curves_model(out@);
        out.push((id, advance, paths));
        proof {
            assert(curves_model(out@) =~= prev_out.push(
                (spec_decimal(g.encoding as nat), g.dwidth.0, spec_glyph_segs(g, ascent as int)),
            ));
            assert(spec_font_curves(f)[gi as int] == spec_glyph_curve(g, ascent as int));
            assert(spec_font_curves(f).subrange(0, gi + 1) =~= spec_font_curves(f).subrange(
                0,
                gi as int,
            ).push(spec_font_curves(f)[gi as int]));
        }
        gi += 1;
    }
    proof {
        assert(spec_font_curves(f).subrange(0, gi as int) =~= spec_font_curves(f));
    }
    out
}

/// The entry models of a curve table held in machine words.
pub open spec fn curves_model(v: Seq<(Vec<u8>, usize, Vec<Vec<(isize, isize)>>)>) -> Seq<
    (Seq<u8>, int, Seq<Seq<(int, int)>>),
> {
    v.map_values(
        |t: (Vec<u8>, usize, Vec<Vec<(isize, isize)>>)| (t.0@, t.1 as int, polys_model(t.2@)),
    )
}

} // verus!
