use bdf::curves::{bdf_to_curves, font_curve_bounds_check};
use bdf::font::{BDFFont, BDFGlyph, BDFProperties};
use bdf::parser::load_bdf;
use bdf::rects::{bdf_to_rects, rect_bounds_check};

fn glyph(
    encoding: usize,
    dwidth_x: usize,
    bbx: (usize, usize, isize, isize),
    bitmap: Vec<u16>,
) -> BDFGlyph {
    BDFGlyph {
        startchar: b"g".to_vec(),
        encoding,
        swidth: (0, 0),
        dwidth: (dwidth_x, 0),
        bbx,
        bitmap,
    }
}

fn font_with(ascent: usize, glyphs: Vec<BDFGlyph>) -> BDFFont {
    let mut props = BDFProperties::empty();
    props.font_ascent = ascent;
    BDFFont {
        size: (0, 0, 0),
        font: Vec::new(),
        bounding_box: (0, 0, 0, 0),
        charcount: 0,
        properties: props,
        glyphs,
    }
}

#[test]
fn single_top_left_bit_yields_one_closed_unit_square() {
    let g = glyph(0, 0, (1, 1, 0, 0), vec![0x8000]);
    assert!(rect_bounds_check(&g));
    let rects = bdf_to_rects(&g);
    assert_eq!(rects, vec![vec![(0, 0), (1, 0), (1, 1), (0, 1), (0, 0)]]);
}

#[test]
fn rect_coordinates_follow_the_bbx_offsets() {
    // Bit 14 is column 1; row 0 of a two-row bitmap maps to y = y_off + 1.
    let g = glyph(0, 0, (2, 2, 3, -5), vec![0x4000]);
    assert!(rect_bounds_check(&g));
    let rects = bdf_to_rects(&g);
    assert_eq!(rects, vec![vec![(4, -4), (5, -4), (5, -3), (4, -3), (4, -4)]]);
}

#[test]
fn rects_flip_rows_bottom_up() {
    // Two rows, one bit each in column 0: the top row lands at the higher y.
    let g = glyph(0, 0, (1, 2, 0, 0), vec![0x8000, 0x8000]);
    let rects = bdf_to_rects(&g);
    assert_eq!(rects.len(), 2);
    assert_eq!(rects[0][0], (0, 1));
    assert_eq!(rects[1][0], (0, 0));
}

#[test]
fn padding_bits_beyond_the_declared_width_are_ignored() {
    // All sixteen bits set, but only the declared two columns count.
    let g = glyph(0, 0, (2, 1, 0, 0), vec![0xFFFF]);
    let rects = bdf_to_rects(&g);
    assert_eq!(rects.len(), 2);
}

#[test]
fn empty_bitmap_yields_no_rects() {
    let g = glyph(0, 0, (4, 4, 0, 0), vec![]);
    assert_eq!(bdf_to_rects(&g).len(), 0);
}

#[test]
fn zero_width_glyph_yields_no_rects() {
    let g = glyph(0, 0, (0, 1, 0, 0), vec![0xFFFF]);
    assert_eq!(bdf_to_rects(&g).len(), 0);
}

#[test]
fn contiguous_run_merges_into_one_segment() {
    // Bits 15, 14 and 13 set: three contiguous pixels, one stroke.
    let f = font_with(0, vec![glyph(0, 0, (3, 1, 0, 0), vec![0xE000])]);
    assert!(font_curve_bounds_check(&f));
    let curves = bdf_to_curves(&f);
    assert_eq!(curves.len(), 1);
    let (_, _, paths) = &curves[0];
    assert_eq!(paths, &vec![vec![(0, -1), (3, -1)]]);
}

#[test]
fn separate_runs_yield_separate_segments() {
    // Columns 0 lit, 1 unlit, 2..4 lit: two strokes, the second closed at
    // the row's right edge.
    let f = font_with(0, vec![glyph(0, 0, (4, 1, 0, 0), vec![0xB000])]);
    let curves = bdf_to_curves(&f);
    let (_, _, paths) = &curves[0];
    assert_eq!(paths, &vec![vec![(0, -1), (1, -1)], vec![(2, -1), (4, -1)]]);
}

#[test]
fn curve_rows_sit_below_the_ascent_line() {
    // y = font_ascent - y_offset - height + row.
    let f = font_with(14, vec![glyph(0, 0, (1, 9, 2, -3), vec![0x8000, 0x8000])]);
    let curves = bdf_to_curves(&f);
    let (_, _, paths) = &curves[0];
    assert_eq!(paths, &vec![vec![(2, 8), (3, 8)], vec![(2, 9), (3, 9)]]);
}

#[test]
fn blank_rows_contribute_no_segments() {
    let f = font_with(0, vec![glyph(0, 0, (3, 3, 0, 0), vec![0x0000, 0xE000, 0x0000])]);
    let curves = bdf_to_curves(&f);
    let (_, _, paths) = &curves[0];
    assert_eq!(paths.len(), 1);
}

#[test]
fn curve_id_is_the_decimal_encoding_not_the_name() {
    let mut g = glyph(65, 8, (1, 1, 0, 0), vec![0x8000]);
    g.startchar = b"A".to_vec();
    let f = font_with(0, vec![g]);
    let curves = bdf_to_curves(&f);
    assert_eq!(curves[0].0, b"65".to_vec());
    assert_eq!(curves[0].1, 8);
}

#[test]
fn curve_id_of_encoding_zero_is_one_digit() {
    let f = font_with(0, vec![glyph(0, 0, (1, 1, 0, 0), vec![])]);
    let curves = bdf_to_curves(&f);
    assert_eq!(curves[0].0, b"0".to_vec());
}

#[test]
fn curve_id_renders_large_encodings() {
    let f = font_with(0, vec![glyph(1234567890, 0, (1, 1, 0, 0), vec![])]);
    let curves = bdf_to_curves(&f);
    assert_eq!(curves[0].0, b"1234567890".to_vec());
}

#[test]
fn curves_preserve_glyph_order() {
    let f = font_with(
        0,
        vec![
            glyph(65, 1, (1, 1, 0, 0), vec![]),
            glyph(66, 2, (1, 1, 0, 0), vec![]),
            glyph(67, 3, (1, 1, 0, 0), vec![]),
        ],
    );
    let curves = bdf_to_curves(&f);
    let ids: Vec<&[u8]> = curves.iter().map(|t| t.0.as_slice()).collect();
    assert_eq!(ids, vec![b"65".as_slice(), b"66".as_slice(), b"67".as_slice()]);
}

#[test]
fn extractors_work_on_a_parsed_document() {
    let text = "STARTFONT 2.1\n\
                STARTPROPERTIES 1\nFONT_ASCENT 14\nENDPROPERTIES\n\
                STARTCHAR A\nENCODING 65\nDWIDTH 8 0\nBBX 3 1 0 0\n\
                BITMAP\nE0\nENDCHAR\nENDFONT\n";
    let font = load_bdf(text).unwrap();
    assert!(rect_bounds_check(&font.glyphs[0]));
    let rects = bdf_to_rects(&font.glyphs[0]);
    assert_eq!(
        rects,
        vec![
            vec![(0, 0), (1, 0), (1, 1), (0, 1), (0, 0)],
            vec![(1, 0), (2, 0), (2, 1), (1, 1), (1, 0)],
            vec![(2, 0), (3, 0), (3, 1), (2, 1), (2, 0)],
        ],
    );
    assert!(font_curve_bounds_check(&font));
    let curves = bdf_to_curves(&font);
    assert_eq!(curves[0].0, b"65".to_vec());
    assert_eq!(curves[0].1, 8);
    // y = 14 - 0 - 1 + 0 = 13.
    assert_eq!(curves[0].2, vec![vec![(0, 13), (3, 13)]]);
}

#[test]
fn bounds_check_rejects_rows_wider_than_sixteen() {
    let g = glyph(0, 0, (17, 1, 0, 0), vec![0x8000]);
    assert!(!rect_bounds_check(&g));
    let f = font_with(0, vec![glyph(0, 0, (17, 1, 0, 0), vec![0x8000])]);
    assert!(!font_curve_bounds_check(&f));
}

#[test]
fn bounds_checks_accept_wide_glyphs_without_rows() {
    // A width beyond sixteen is harmless while no bitmap row exists.
    let g = glyph(0, 0, (17, 1, 0, 0), vec![]);
    assert!(rect_bounds_check(&g));
    let f = font_with(0, vec![glyph(0, 0, (17, 1, 0, 0), vec![])]);
    assert!(font_curve_bounds_check(&f));
}

#[test]
fn bounds_check_rejects_corner_overflow() {
    let g = glyph(0, 0, (2, 1, isize::MAX - 1, 0), vec![0x8000]);
    assert!(!rect_bounds_check(&g));
    let f = font_with(0, vec![glyph(0, 0, (2, 1, isize::MAX - 1, 0), vec![0x8000])]);
    assert!(!font_curve_bounds_check(&f));
}
