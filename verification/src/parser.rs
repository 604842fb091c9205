//! The format parser: one forward pass over the lines of a BDF document,
//! driven by a four-mode state machine — top level, property block, glyph
//! block, bitmap body. The machine consumes exactly one line per step;
//! [`spec_step`] is its transition function and [`spec_run`] folds it over
//! the lines, so [`load_bdf`]'s contract pins the whole parse down.

use vstd::prelude::*;
use vstd::string::StringSliceAdditionalSpecFns;

use crate::font::{
    init_font_model, init_glyph_model, BDFFont, BDFGlyph, FontModel, GlyphModel,
    PropertiesModel,
};
use crate::keywords::{
    KW_AVERAGE_WIDTH, KW_BBX, KW_BITMAP, KW_CHARS, KW_CHARSET_ENCODING, KW_CHARSET_REGISTRY,
    KW_DWIDTH, KW_ENCODING, KW_ENDCHAR, KW_ENDFONT, KW_ENDPROPERTIES, KW_FAMILY_NAME, KW_FONT,
    KW_FONTBOUNDINGBOX, KW_FONT_ASCENT, KW_FONT_DESCENT, KW_FOUNDRY, KW_GBDFED_INFO,
    KW_PIXEL_SIZE, KW_POINT_SIZE, KW_RESOLUTION_X, KW_RESOLUTION_Y, KW_SETWIDTH_NAME, KW_SIZE,
    KW_SLANT, KW_SPACING, KW_STARTCHAR, KW_STARTFONT, KW_STARTPROPERTIES, KW_SWIDTH,
    KW_WEIGHT_NAME,
};
use crate::font::glyph_views;
use crate::numbers::{
    lemma_hex_val_short, parse_hex_u16, parse_isize, parse_usize, spec_parse_hex_u16,
    spec_parse_isize, spec_parse_usize,
};
use crate::text::{
    bytes_eq, has_prefix, spec_has_prefix, spec_lines, spec_tokens, split_lines, split_tokens,
    tail_from, views_of,
};

verus! {

/// Why a parse failed.
///
/// `MalformedIntegerField`: a record held fewer whitespace-separated tokens
/// than it needs, or a token that must be an integer is not one.
/// `MalformedHexRow`: a bitmap body line is not a hexadecimal numeral of at
/// most sixteen bits.
/// `UnterminatedGlyph`: the lines ran out inside a glyph block, before an
/// `ENDCHAR` line that follows a `BITMAP` body closed it.
#[derive(Clone, Copy, Debug, PartialEq, Eq, Structural)]
pub enum ParseError {
    MalformedIntegerField,
    MalformedHexRow,
    UnterminatedGlyph,
}

/// Where the machine stands before reading a line.
pub enum ModeModel {
    /// Between records at the top level.
    Top,
    /// Inside a STARTPROPERTIES block.
    Props,
    /// Inside a STARTCHAR block, before its BITMAP body.
    InGlyph(GlyphModel),
    /// Inside a BITMAP body.
    InBitmap(GlyphModel),
}

/// What one step yields: the machine continues, or an ENDFONT line ended the
/// document.
pub enum StepModel {
    Next(FontModel, ModeModel),
    Finished(FontModel),
}

/// The value of a bitmap body line: its hexadecimal value, left-shifted one
/// byte when the line has at most two digits, so that bit 15 is the leftmost
/// pixel whether the row was written as one byte or as two.
pub open spec fn spec_decode_row(l: Seq<u8>) -> Result<int, ParseError> {
    match spec_parse_hex_u16(l) {
        Some(v) => Ok(if l.len() <= 2 { v * 256 } else { v }),
        None => Err(ParseError::MalformedHexRow),
    }
}

/// One step at the top level.
pub open spec fn spec_step_top(font: FontModel, l: Seq<u8>) -> Result<
    StepModel,
    ParseError,
> {
    if spec_has_prefix(l, KW_STARTFONT@) {
        Ok(StepModel::Next(font, ModeModel::Top))
    } else if spec_has_prefix(l, KW_FONT@) {
        Ok(
            StepModel::Next(
                FontModel { font: l.skip(KW_FONT@.len() as int), ..font },
                ModeModel::Top,
            ),
        )
    } else if spec_has_prefix(l, KW_SIZE@) {
        let toks = spec_tokens(l.skip(KW_SIZE@.len() as int));
        if toks.len() < 3 {
            Err(ParseError::MalformedIntegerField)
        } else {
            match (spec_parse_usize(toks[0]), spec_parse_usize(toks[1]), spec_parse_usize(
                toks[2],
            )) {
                (Some(a), Some(b), Some(c)) => Ok(
                    StepModel::Next(FontModel { size: (a, b, c), ..font }, ModeModel::Top),
                ),
                _ => Err(ParseError::MalformedIntegerField),
            }
        }
    } else if spec_has_prefix(l, KW_FONTBOUNDINGBOX@) {
        let toks = spec_tokens(l.skip(KW_FONTBOUNDINGBOX@.len() as int));
        if toks.len() < 4 {
            Err(ParseError::MalformedIntegerField)
        } else {
            match (spec_parse_usize(toks[0]), spec_parse_usize(toks[1]), spec_parse_isize(
                toks[2],
            ), spec_parse_isize(toks[3])) {
                (Some(w), Some(h), Some(x), Some(y)) => Ok(
                    StepModel::Next(
                        FontModel { bounding_box: (w, h, x, y), ..font },
                        ModeModel::Top,
                    ),
                ),
                _ => Err(ParseError::MalformedIntegerField),
            }
        }
    } else if spec_has_prefix(l, KW_STARTPROPERTIES@) {
        match spec_parse_usize(l.skip(KW_STARTPROPERTIES@.len() as int)) {
            Some(_n) => Ok(StepModel::Next(font, ModeModel::Props)),
            None => Err(ParseError::MalformedIntegerField),
        }
    } else if spec_has_prefix(l, KW_CHARS@) {
        match spec_parse_usize(l.skip(KW_CHARS@.len() as int)) {
            Some(n) => Ok(StepModel::Next(FontModel { charcount: n, ..font }, ModeModel::Top)),
            None => Err(ParseError::MalformedIntegerField),
        }
    } else if spec_has_prefix(l, KW_STARTCHAR@) {
        Ok(
            StepModel::Next(
                font,
                ModeModel::InGlyph(init_glyph_model(l.skip(KW_STARTCHAR@.len() as int))),
            ),
        )
    } else if l == KW_ENDFONT@ {
        Ok(StepModel::Finished(font))
    } else {
        Ok(StepModel::Next(font, ModeModel::Top))
    }
}

/// One step inside the property block: the new document and whether the
/// block is still open.
pub open spec fn spec_step_props(font: FontModel, l: Seq<u8>) -> Result<
    (FontModel, ModeModel),
    ParseError,
> {
    let p = font.properties;
    if spec_has_prefix(l, KW_ENDPROPERTIES@) {
        Ok((font, ModeModel::Top))
    } else if spec_has_prefix(l, KW_POINT_SIZE@) {
        match spec_parse_usize(l.skip(KW_POINT_SIZE@.len() as int)) {
            Some(v) => Ok(
                (
                    FontModel {
                        properties: PropertiesModel { point_size: v, ..p },
                        ..font
                    },
                    ModeModel::Props,
                ),
            ),
            None => Err(ParseError::MalformedIntegerField),
        }
    } else if spec_has_prefix(l, KW_PIXEL_SIZE@) {
        match spec_parse_usize(l.skip(KW_PIXEL_SIZE@.len() as int)) {
            Some(v) => Ok(
                (
                    FontModel {
                        properties: PropertiesModel { pixel_size: v, ..p },
                        ..font
                    },
                    ModeModel::Props,
                ),
            ),
            None => Err(ParseError::MalformedIntegerField),
        }
    } else if spec_has_prefix(l, KW_RESOLUTION_X@) {
        match spec_parse_usize(l.skip(KW_RESOLUTION_X@.len() as int)) {
            Some(v) => Ok(
                (
                    FontModel {
                        properties: PropertiesModel { resolution_x: v, ..p },
                        ..font
                    },
                    ModeModel::Props,
                ),
            ),
            None => Err(ParseError::MalformedIntegerField),
        }
    } else if spec_has_prefix(l, KW_RESOLUTION_Y@) {
        match spec_parse_usize(l.skip(KW_RESOLUTION_Y@.len() as int)) {
            Some(v) => Ok(
                (
                    FontModel {
                        properties: PropertiesModel { resolution_y: v, ..p },
                        ..font
                    },
                    ModeModel::Props,
                ),
            ),
            None => Err(ParseError::MalformedIntegerField),
        }
    } else if spec_has_prefix(l, KW_FONT_ASCENT@) {
        match spec_parse_usize(l.skip(KW_FONT_ASCENT@.len() as int)) {
            Some(v) => Ok(
                (
                    FontModel {
                        properties: PropertiesModel { font_ascent: v, ..p },
                        ..font
                    },
                    ModeModel::Props,
                ),
            ),
            None => Err(ParseError::MalformedIntegerField),
        }
    } else if spec_has_prefix(l, KW_FONT_DESCENT@) {
        match spec_parse_usize(l.skip(KW_FONT_DESCENT@.len() as int)) {
            Some(v) => Ok(
                (
                    FontModel {
                        properties: PropertiesModel { font_descent: v, ..p },
                        ..font
                    },
                    ModeModel::Props,
                ),
            ),
            None => Err(ParseError::MalformedIntegerField),
        }
    } else if spec_has_prefix(l, KW_AVERAGE_WIDTH@) {
        match spec_parse_usize(l.skip(KW_AVERAGE_WIDTH@.len() as int)) {
            Some(v) => Ok(
                (
                    FontModel {
                        properties: PropertiesModel { average_width: v, ..p },
                        ..font
                    },
                    ModeModel::Props,
                ),
            ),
            None => Err(ParseError::MalformedIntegerField),
        }
    } else if spec_has_prefix(l, KW_SPACING@) {
        Ok(
            (
                FontModel {
                    properties: PropertiesModel {
                        spacing: l.skip(KW_SPACING@.len() as int),
                        ..p
                    },
                    ..font
                },
                ModeModel::Props,
            ),
        )
    } else if spec_has_prefix(l, KW_GBDFED_INFO@) {
        Ok(
            (
                FontModel {
                    properties: PropertiesModel {
                        gbdfed_info: l.skip(KW_GBDFED_INFO@.len() as int),
                        ..p
                    },
                    ..font
                },
                ModeModel::Props,
            ),
        )
    } else if spec_has_prefix(l, KW_CHARSET_ENCODING@) {
        Ok(
            (
                FontModel {
                    properties: PropertiesModel {
                        charset_encoding: l.skip(KW_CHARSET_ENCODING@.len() as int),
                        ..p
                    },
                    ..font
                },
                ModeModel::Props,
            ),
        )
    } else if spec_has_prefix(l, KW_CHARSET_REGISTRY@) {
        Ok(
            (
                FontModel {
                    properties: PropertiesModel {
                        charset_registry: l.skip(KW_CHARSET_REGISTRY@.len() as int),
                        ..p
                    },
                    ..font
                },
                ModeModel::Props,
            ),
        )
    } else if spec_has_prefix(l, KW_FAMILY_NAME@) {
        Ok(
            (
                FontModel {
                    properties: PropertiesModel {
                        family_name: l.skip(KW_FAMILY_NAME@.len() as int),
                        ..p
                    },
                    ..font
                },
                ModeModel::Props,
            ),
        )
    } else if spec_has_prefix(l, KW_FOUNDRY@) {
        Ok(
            (
                FontModel {
                    properties: PropertiesModel {
                        foundry: l.skip(KW_FOUNDRY@.len() as int),
                        ..p
                    },
                    ..font
                },
                ModeModel::Props,
            ),
        )
    } else if spec_has_prefix(l, KW_SETWIDTH_NAME@) {
        Ok(
            (
                FontModel {
                    properties: PropertiesModel {
                        setwidth_name: l.skip(KW_SETWIDTH_NAME@.len() as int),
                        ..p
                    },
                    ..font
                },
                ModeModel::Props,
            ),
        )
    } else if spec_has_prefix(l, KW_SLANT@) {
        Ok(
            (
                FontModel {
                    properties: PropertiesModel {
                        slant: l.skip(KW_SLANT@.len() as int),
                        ..p
                    },
                    ..font
                },
                ModeModel::Props,
            ),
        )
    } else if spec_has_prefix(l, KW_WEIGHT_NAME@) {
        Ok(
            (
                FontModel {
                    properties: PropertiesModel {
                        weight_name: l.skip(KW_WEIGHT_NAME@.len() as int),
                        ..p
                    },
                    ..font
                },
                ModeModel::Props,
            ),
        )
    } else {
        Ok((font, ModeModel::Props))
    }
}

/// One step inside a glyph block, before its bitmap body.
pub open spec fn spec_step_glyph(g: GlyphModel, l: Seq<u8>) -> Result<
    ModeModel,
    ParseError,
> {
    if spec_has_prefix(l, KW_ENCODING@) {
        match spec_parse_usize(l.skip(KW_ENCODING@.len() as int)) {
            Some(v) => Ok(ModeModel::InGlyph(GlyphModel { encoding: v, ..g })),
            None => Err(ParseError::MalformedIntegerField),
        }
    } else if spec_has_prefix(l, KW_SWIDTH@) {
        let toks = spec_tokens(l.skip(KW_SWIDTH@.len() as int));
        if toks.len() < 2 {
            Err(ParseError::MalformedIntegerField)
        } else {
            match (spec_parse_usize(toks[0]), spec_parse_usize(toks[1])) {
                (Some(a), Some(b)) => Ok(
                    ModeModel::InGlyph(GlyphModel { swidth: (a, b), ..g }),
                ),
                _ => Err(ParseError::MalformedIntegerField),
            }
        }
    } else if spec_has_prefix(l, KW_DWIDTH@) {
        let toks = spec_tokens(l.skip(KW_DWIDTH@.len() as int));
        if toks.len() < 2 {
            Err(ParseError::MalformedIntegerField)
        } else {
            match (spec_parse_usize(toks[0]), spec_parse_usize(toks[1])) {
                (Some(a), Some(b)) => Ok(
                    ModeModel::InGlyph(GlyphModel { dwidth: (a, b), ..g }),
                ),
                _ => Err(ParseError::MalformedIntegerField),
            }
        }
    } else if spec_has_prefix(l, KW_BBX@) {
        let toks = spec_tokens(l.skip(KW_BBX@.len() as int));
        if toks.len() < 4 {
            Err(ParseError::MalformedIntegerField)
        } else {
            match (spec_parse_usize(toks[0]), spec_parse_usize(toks[1]), spec_parse_isize(
                toks[2],
            ), spec_parse_isize(toks[3])) {
                (Some(w), Some(h), Some(x), Some(y)) => Ok(
                    ModeModel::InGlyph(GlyphModel { bbx: (w, h, x, y), ..g }),
                ),
                _ => Err(ParseError::MalformedIntegerField),
            }
        }
    } else if l == KW_BITMAP@ {
        Ok(ModeModel::InBitmap(g))
    } else {
        Ok(ModeModel::InGlyph(g))
    }
}

/// One step inside a bitmap body: an `ENDCHAR` line closes the glyph and
/// appends it to the document, any other line must be a bitmap row.
pub open spec fn spec_step_bitmap(font: FontModel, g: GlyphModel, l: Seq<u8>) -> Result<
    (FontModel, ModeModel),
    ParseError,
> {
    if l == KW_ENDCHAR@ {
        Ok((FontModel { glyphs: font.glyphs.push(g), ..font }, ModeModel::Top))
    } else {
        match spec_decode_row(l) {
            Ok(v) => Ok(
                (
                    font,
                    ModeModel::InBitmap(GlyphModel { bitmap: g.bitmap.push(v as u16), ..g }),
                ),
            ),
            Err(e) => Err(e),
        }
    }
}

/// The transition function of the parser: one line, in the current mode.
pub open spec fn spec_step(font: FontModel, mode: ModeModel, l: Seq<u8>) -> Result<
    StepModel,
    ParseError,
> {
    match mode {
        ModeModel::Top => spec_step_top(font, l),
        ModeModel::Props => match spec_step_props(font, l) {
            Ok((f, m)) => Ok(StepModel::Next(f, m)),
            Err(e) => Err(e),
        },
        ModeModel::InGlyph(g) => match spec_step_glyph(g, l) {
            Ok(m) => Ok(StepModel::Next(font, m)),
            Err(e) => Err(e),
        },
        ModeModel::InBitmap(g) => match spec_step_bitmap(font, g, l) {
            Ok((f, m)) => Ok(StepModel::Next(f, m)),
            Err(e) => Err(e),
        },
    }
}

/// What the parse yields when the lines run out: the document as built, or
/// a failure when a glyph block is still open.
pub open spec fn spec_finish(font: FontModel, mode: ModeModel) -> Result<
    FontModel,
    ParseError,
> {
    match mode {
        ModeModel::Top => Ok(font),
        ModeModel::Props => Ok(font),
        ModeModel::InGlyph(_) => Err(ParseError::UnterminatedGlyph),
        ModeModel::InBitmap(_) => Err(ParseError::UnterminatedGlyph),
    }
}

/// Folds [`spec_step`] over `lines` from index `i` in the given state.
pub open spec fn spec_run(
    lines: Seq<Seq<u8>>,
    i: int,
    font: FontModel,
    mode: ModeModel,
) -> Result<FontModel, ParseError>
    decreases lines.len() - i,
{
    if i < 0 || i >= lines.len() {
        spec_finish(font, mode)
    } else {
        match spec_step(font, mode, lines[i]) {
            Ok(StepModel::Next(f, m)) => spec_run(lines, i + 1, f, m),
            Ok(StepModel::Finished(f)) => Ok(f),
            Err(e) => Err(e),
        }
    }
}

/// The whole parse of a byte text: its lines, run from the empty document at
/// the top level.
pub open spec fn spec_parse(s: Seq<u8>) -> Result<FontModel, ParseError> {
    spec_run(spec_lines(s), 0, init_font_model(), ModeModel::Top)
}

/// The runtime state matching [`ModeModel`].
enum Mode {
    Top,
    Props,
    InGlyph(BDFGlyph),
    InBitmap(BDFGlyph),
}

impl View for Mode {
    type V = ModeModel;

    closed spec fn view(&self) -> ModeModel {
        match self {
            Mode::Top => ModeModel::Top,
            Mode::Props => ModeModel::Props,
            Mode::InGlyph(g) => ModeModel::InGlyph(g@),
            Mode::InBitmap(g) => ModeModel::InBitmap(g@),
        }
    }
}

/// One step at the top level, as [`spec_step_top`] describes it.
fn step_top(font: &mut BDFFont, line: &[u8]) -> (r: Result<Option<Mode>, ParseError>)
    ensures
        (match r {
            Ok(Some(m)) => spec_step_top(old(font)@, line@) == Ok::<StepModel, ParseError>(
                StepModel::Next(final(font)@, m@),
            ),
            Ok(None) => spec_step_top(old(font)@, line@) == Ok::<StepModel, ParseError>(
                StepModel::Finished(final(font)@),
            ),
            Err(e) => spec_step_top(old(font)@, line@) == Err::<StepModel, ParseError>(e),
        }),
{
    if has_prefix(line, KW_STARTFONT.as_slice()) {
        Ok(Some(Mode::Top))
    } else if has_prefix(line, KW_FONT.as_slice()) {
        font.font = tail_from(line, KW_FONT.as_slice().len());
        proof {
            assert(font@ =~~= (FontModel {
                font: line@.skip(KW_FONT@.len() as int),
                ..old(font)@
            }));
        }
        Ok(Some(Mode::Top))
    } else if has_prefix(line, KW_SIZE.as_slice()) {
        let k = KW_SIZE.as_slice().len();
        let rest = vstd::slice::slice_subrange(line, k, line.len());
        assert(rest@ =~= line@.skip(KW_SIZE@.len() as int));
        let toks = split_tokens(rest);
        if toks.len() < 3 {
            return Err(ParseError::MalformedIntegerField);
        }
        match (parse_usize(toks[0].as_slice()), parse_usize(toks[1].as_slice()), parse_usize(
            toks[2].as_slice(),
        )) {
            (Some(a), Some(b), Some(c)) => {
                font.size = (a, b, c);
                proof {
                    assert(font@ =~~= (FontModel {
                        size: (a as int, b as int, c as int),
                        ..old(font)@
                    }));
                }
                Ok(Some(Mode::Top))
            },
            _ => Err(ParseError::MalformedIntegerField),
        }
    } else if has_prefix(line, KW_FONTBOUNDINGBOX.as_slice()) {
        let k = KW_FONTBOUNDINGBOX.as_slice().len();
        let rest = vstd::slice::slice_subrange(line, k, line.len());
        assert(rest@ =~= line@.skip(KW_FONTBOUNDINGBOX@.len() as int));
        let toks = split_tokens(rest);
        if toks.len() < 4 {
            return Err(ParseError::MalformedIntegerField);
        }
        match (parse_usize(toks[0].as_slice()), parse_usize(toks[1].as_slice()), parse_isize(
            toks[2].as_slice(),
        ), parse_isize(toks[3].as_slice())) {
            (Some(w), Some(h), Some(x), Some(y)) => {
                font.bounding_box = (w, h, x, y);
                proof {
                    assert(font@ =~~= (FontModel {
                        bounding_box: (w as int, h as int, x as int, y as int),
                        ..old(font)@
                    }));
                }
                Ok(Some(Mode::Top))
            },
            _ => Err(ParseError::MalformedIntegerField),
        }
    } else if has_prefix(line, KW_STARTPROPERTIES.as_slice()) {
        let k = KW_STARTPROPERTIES.as_slice().len();
        let rest = vstd::slice::slice_subrange(line, k, line.len());
        assert(rest@ =~= line@.skip(KW_STARTPROPERTIES@.len() as int));
        match parse_usize(rest) {
            Some(_n) => Ok(Some(Mode::Props)),
            None => Err(ParseError::MalformedIntegerField),
        }
    } else if has_prefix(line, KW_CHARS.as_slice()) {
        let k = KW_CHARS.as_slice().len();
        let rest = vstd::slice::slice_subrange(line, k, line.len());
        assert(rest@ =~= line@.skip(KW_CHARS@.len() as int));
        match parse_usize(rest) {
            Some(n) => {
                font.charcount = n;
                proof {
                    assert(font@ =~~= (FontModel { charcount: n as int, ..old(font)@ }));
                }
                Ok(Some(Mode::Top))
            },
            None => Err(ParseError::MalformedIntegerField),
        }
    } else if has_prefix(line, KW_STARTCHAR.as_slice()) {
        let name = tail_from(line, KW_STARTCHAR.as_slice().len());
        Ok(Some(Mode::InGlyph(BDFGlyph::with_name(name))))
    } else if bytes_eq(line, KW_ENDFONT.as_slice()) {
        Ok(None)
    } else {
        Ok(Some(Mode::Top))
    }
}

/// One step inside the property block, as [`spec_step_props`] describes it;
/// the result says whether the block is still open.
fn step_props(font: &mut BDFFont, line: &[u8]) -> (r: Result<bool, ParseError>)
    ensures
        (match r {
            Ok(stay) => spec_step_props(old(font)@, line@) == Ok::<
                (FontModel, ModeModel),
                ParseError,
            >((final(font)@, if stay {
                ModeModel::Props
            } else {
                ModeModel::Top
            })),
            Err(e) => spec_step_props(old(font)@, line@) == Err::<
                (FontModel, ModeModel),
                ParseError,
            >(e),
        }),
{
    let ghost fpre = font@;
    if has_prefix(line, KW_ENDPROPERTIES.as_slice()) {
        return Ok(false);
    }
    if has_prefix(line, KW_POINT_SIZE.as_slice()) {
        let rest = vstd::slice::slice_subrange(line, KW_POINT_SIZE.as_slice().len(), line.len());
        assert(rest@ =~= line@.skip(KW_POINT_SIZE@.len() as int));
        match parse_usize(rest) {
            Some(v) => {
                font.properties.point_size = v;
                proof {
                    assert(font@ =~~= (FontModel {
                        properties: PropertiesModel { point_size: v as int, ..fpre.properties },
                        ..fpre
                    }));
                }
                Ok(true)
            },
            None => Err(ParseError::MalformedIntegerField),
        }
    } else if has_prefix(line, KW_PIXEL_SIZE.as_slice()) {
        let rest = vstd::slice::slice_subrange(line, KW_PIXEL_SIZE.as_slice().len(), line.len());
        assert(rest@ =~= line@.skip(KW_PIXEL_SIZE@.len() as int));
        match parse_usize(rest) {
            Some(v) => {
                font.properties.pixel_size = v;
                proof {
                    assert(font@ =~~= (FontModel {
                        properties: PropertiesModel { pixel_size: v as int, ..fpre.properties },
                        ..fpre
                    }));
                }
                Ok(true)
            },
            None => Err(ParseError::MalformedIntegerField),
        }
    } else if has_prefix(line, KW_RESOLUTION_X.as_slice()) {
        let rest = vstd::slice::slice_subrange(
            line,
            KW_RESOLUTION_X.as_slice().len(),
            line.len(),
        );
        assert(rest@ =~= line@.skip(KW_RESOLUTION_X@.len() as int));
        match parse_usize(rest) {
            Some(v) => {
                font.properties.resolution_x = v;
                proof {
                    assert(font@ =~~= (FontModel {
                        properties: PropertiesModel {
                            resolution_x: v as int,
                            ..fpre.properties
                        },
                        ..fpre
                    }));
                }
                Ok(true)
            },
            None => Err(ParseError::MalformedIntegerField),
        }
    } else if has_prefix(line, KW_RESOLUTION_Y.as_slice()) {
        let rest = vstd::slice::slice_subrange(
            line,
            KW_RESOLUTION_Y.as_slice().len(),
            line.len(),
        );
        assert(rest@ =~= line@.skip(KW_RESOLUTION_Y@.len() as int));
        match parse_usize(rest) {
            Some(v) => {
                font.properties.resolution_y = v;
                proof {
                    assert(font@ =~~= (FontModel {
                        properties: PropertiesModel {
                            resolution_y: v as int,
                            ..fpre.properties
                        },
                        ..fpre
                    }));
                }
                Ok(true)
            },
            None => Err(ParseError::MalformedIntegerField),
        }
    } else if has_prefix(line, KW_FONT_ASCENT.as_slice()) {
        let rest = vstd::slice::slice_subrange(line, KW_FONT_ASCENT.as_slice().len(), line.len());
        assert(rest@ =~= line@.skip(KW_FONT_ASCENT@.len() as int));
        match parse_usize(rest) {
            Some(v) => {
                font.properties.font_ascent = v;
                proof {
                    assert(font@ =~~= (FontModel {
                        properties: PropertiesModel { font_ascent: v as int, ..fpre.properties },
                        ..fpre
                    }));
                }
                Ok(true)
            },
            None => Err(ParseError::MalformedIntegerField),
        }
    } else if has_prefix(line, KW_FONT_DESCENT.as_slice()) {
        let rest = vstd::slice::slice_subrange(
            line,
            KW_FONT_DESCENT.as_slice().len(),
            line.len(),
        );
        assert(rest@ =~= line@.skip(KW_FONT_DESCENT@.len() as int));
        match parse_usize(rest) {
            Some(v) => {
                font.properties.font_descent = v;
                proof {
                    assert(font@ =~~= (FontModel {
                        properties: PropertiesModel {
                            font_descent: v as int,
                            ..fpre.properties
                        },
                        ..fpre
                    }));
                }
                Ok(true)
            },
            None => Err(ParseError::MalformedIntegerField),
        }
    } else if has_prefix(line, KW_AVERAGE_WIDTH.as_slice()) {
        let rest = vstd::slice::slice_subrange(
            line,
            KW_AVERAGE_WIDTH.as_slice().len(),
            line.len(),
        );
        assert(rest@ =~= line@.skip(KW_AVERAGE_WIDTH@.len() as int));
        match parse_usize(rest) {
            Some(v) => {
                font.properties.average_width = v;
                proof {
                    assert(font@ =~~= (FontModel {
                        properties: PropertiesModel {
                            average_width: v as int,
                            ..fpre.properties
                        },
                        ..fpre
                    }));
                }
                Ok(true)
            },
            None => Err(ParseError::MalformedIntegerField),
        }
    } else if has_prefix(line, KW_SPACING.as_slice()) {
        font.properties.spacing = tail_from(line, KW_SPACING.as_slice().len());
        proof {
            assert(font@ =~~= (FontModel {
                properties: PropertiesModel {
                    spacing: line@.skip(KW_SPACING@.len() as int),
                    ..fpre.properties
                },
                ..fpre
            }));
        }
        Ok(true)
    } else if has_prefix(line, KW_GBDFED_INFO.as_slice()) {
        font.properties.gbdfed_info = tail_from(line, KW_GBDFED_INFO.as_slice().len());
        proof {
            assert(font@ =~~= (FontModel {
                properties: PropertiesModel {
                    gbdfed_info: line@.skip(KW_GBDFED_INFO@.len() as int),
                    ..fpre.properties
                },
                ..fpre
            }));
        }
        Ok(true)
    } else if has_prefix(line, KW_CHARSET_ENCODING.as_slice()) {
        font.properties.charset_encoding = tail_from(line, KW_CHARSET_ENCODING.as_slice().len());
        proof {
            assert(font@ =~~= (FontModel {
                properties: PropertiesModel {
                    charset_encoding: line@.skip(KW_CHARSET_ENCODING@.len() as int),
                    ..fpre.properties
                },
                ..fpre
            }));
        }
        Ok(true)
    } else if has_prefix(line, KW_CHARSET_REGISTRY.as_slice()) {
        font.properties.charset_registry = tail_from(line, KW_CHARSET_REGISTRY.as_slice().len());
        proof {
            assert(font@ =~~= (FontModel {
                properties: PropertiesModel {
                    charset_registry: line@.skip(KW_CHARSET_REGISTRY@.len() as int),
                    ..fpre.properties
                },
                ..fpre
            }));
        }
        Ok(true)
    } else if has_prefix(line, KW_FAMILY_NAME.as_slice()) {
        font.properties.family_name = tail_from(line, KW_FAMILY_NAME.as_slice().len());
        proof {
            assert(font@ =~~= (FontModel {
                properties: PropertiesModel {
                    family_name: line@.skip(KW_FAMILY_NAME@.len() as int),
                    ..fpre.properties
                },
                ..fpre
            }));
        }
        Ok(true)
    } else if has_prefix(line, KW_FOUNDRY.as_slice()) {
        font.properties.foundry = tail_from(line, KW_FOUNDRY.as_slice().len());
        proof {
            assert(font@ =~~= (FontModel {
                properties: PropertiesModel {
                    foundry: line@.skip(KW_FOUNDRY@.len() as int),
                    ..fpre.properties
                },
                ..fpre
            }));
        }
        Ok(true)
    } else if has_prefix(line, KW_SETWIDTH_NAME.as_slice()) {
        font.properties.setwidth_name = tail_from(line, KW_SETWIDTH_NAME.as_slice().len());
        proof {
            assert(font@ =~~= (FontModel {
                properties: PropertiesModel {
                    setwidth_name: line@.skip(KW_SETWIDTH_NAME@.len() as int),
                    ..fpre.properties
                },
                ..fpre
            }));
        }
        Ok(true)
    } else if has_prefix(line, KW_SLANT.as_slice()) {
        font.properties.slant = tail_from(line, KW_SLANT.as_slice().len());
        proof {
            assert(font@ =~~= (FontModel {
                properties: PropertiesModel {
                    slant: line@.skip(KW_SLANT@.len() as int),
                    ..fpre.properties
                },
                ..fpre
            }));
        }
        Ok(true)
    } else if has_prefix(line, KW_WEIGHT_NAME.as_slice()) {
        font.properties.weight_name = tail_from(line, KW_WEIGHT_NAME.as_slice().len());
        proof {
            assert(font@ =~~= (FontModel {
                properties: PropertiesModel {
                    weight_name: line@.skip(KW_WEIGHT_NAME@.len() as int),
                    ..fpre.properties
                },
                ..fpre
            }));
        }
        Ok(true)
    } else {
        Ok(true)
    }
}

/// One step inside a glyph block, as [`spec_step_glyph`] describes it.
fn step_glyph(g: BDFGlyph, line: &[u8]) -> (r: Result<Mode, ParseError>)
    ensures
        (match r {
            Ok(m) => spec_step_glyph(g@, line@) == Ok::<ModeModel, ParseError>(m@),
            Err(e) => spec_step_glyph(g@, line@) == Err::<ModeModel, ParseError>(e),
        }),
{
    let ghost gpre = g@;
    let mut cur = g;
    if has_prefix(line, KW_ENCODING.as_slice()) {
        let rest = vstd::slice::slice_subrange(line, KW_ENCODING.as_slice().len(), line.len());
        assert(rest@ =~= line@.skip(KW_ENCODING@.len() as int));
        match parse_usize(rest) {
            Some(v) => {
                cur.encoding = v;
                proof {
                    assert(cur@ =~~= (GlyphModel { encoding: v as int, ..gpre }));
                }
                Ok(Mode::InGlyph(cur))
            },
            None => Err(ParseError::MalformedIntegerField),
        }
    } else if has_prefix(line, KW_SWIDTH.as_slice()) {
        let rest = vstd::slice::slice_subrange(line, KW_SWIDTH.as_slice().len(), line.len());
        assert(rest@ =~= line@.skip(KW_SWIDTH@.len() as int));
        let toks = split_tokens(rest);
        if toks.len() < 2 {
            return Err(ParseError::MalformedIntegerField);
        }
        match (parse_usize(toks[0].as_slice()), parse_usize(toks[1].as_slice())) {
            (Some(a), Some(b)) => {
                cur.swidth = (a, b);
                proof {
                    assert(cur@ =~~= (GlyphModel { swidth: (a as int, b as int), ..gpre }));
                }
                Ok(Mode::InGlyph(cur))
            },
            _ => Err(ParseError::MalformedIntegerField),
        }
    } else if has_prefix(line, KW_DWIDTH.as_slice()) {
        let rest = vstd::slice::slice_subrange(line, KW_DWIDTH.as_slice().len(), line.len());
        assert(rest@ =~= line@.skip(KW_DWIDTH@.len() as int));
        let toks = split_tokens(rest);
        if toks.len() < 2 {
            return Err(ParseError::MalformedIntegerField);
        }
        match (parse_usize(toks[0].as_slice()), parse_usize(toks[1].as_slice())) {
            (Some(a), Some(b)) => {
                cur.dwidth = (a, b);
                proof {
                    assert(cur@ =~~= (GlyphModel { dwidth: (a as int, b as int), ..gpre }));
                }
                Ok(Mode::InGlyph(cur))
            },
            _ => Err(ParseError::MalformedIntegerField),
        }
    } else if has_prefix(line, KW_BBX.as_slice()) {
        let rest = vstd::slice::slice_subrange(line, KW_BBX.as_slice().len(), line.len());
        assert(rest@ =~= line@.skip(KW_BBX@.len() as int));
        let toks = split_tokens(rest);
        if toks.len() < 4 {
            return Err(ParseError::MalformedIntegerField);
        }
        match (parse_usize(toks[0].as_slice()), parse_usize(toks[1].as_slice()), parse_isize(
            toks[2].as_slice(),
        ), parse_isize(toks[3].as_slice())) {
            (Some(w), Some(h), Some(x), Some(y)) => {
                cur.bbx = (w, h, x, y);
                proof {
                    assert(cur@ =~~= (GlyphModel {
                        bbx: (w as int, h as int, x as int, y as int),
                        ..gpre
                    }));
                }
                Ok(Mode::InGlyph(cur))
            },
            _ => Err(ParseError::MalformedIntegerField),
        }
    } else if bytes_eq(line, KW_BITMAP.as_slice()) {
        Ok(Mode::InBitmap(cur))
    } else {
        Ok(Mode::InGlyph(cur))
    }
}

/// One step inside a bitmap body, as [`spec_step_bitmap`] describes it.
fn step_bitmap(font: &mut BDFFont, g: BDFGlyph, line: &[u8]) -> (r: Result<Mode, ParseError>)
    ensures
        (match r {
            Ok(m) => spec_step_bitmap(old(font)@, g@, line@) == Ok::<
                (FontModel, ModeModel),
                ParseError,
            >((final(font)@, m@)),
            Err(e) => spec_step_bitmap(old(font)@, g@, line@) == Err::<
                (FontModel, ModeModel),
                ParseError,
            >(e),
        }),
{
    let ghost gpre = g@;
    if bytes_eq(line, KW_ENDCHAR.as_slice()) {
        let ghost pre_glyphs = font.glyphs@;
        font.glyphs.push(g);
        proof {
            assert(glyph_views(font.glyphs@) =~= glyph_views(pre_glyphs).push(gpre));
            assert(font@ =~~= (FontModel {
                glyphs: old(font)@.glyphs.push(gpre),
                ..old(font)@
            }));
        }
        Ok(Mode::Top)
    } else {
        match parse_hex_u16(line) {
            Some(v) => {
                let row: u16 = if line.len() <= 2 {
                    proof {
                        lemma_hex_val_short(line@);
                    }
                    v * 256
                } else {
                    v
                };
                let mut cur = g;
                cur.bitmap.push(row);
                proof {
                    assert(cur@ =~~= (GlyphModel {
                        bitmap: gpre.bitmap.push(row),
                        ..gpre
                    }));
                }
                Ok(Mode::InBitmap(cur))
            },
            None => Err(ParseError::MalformedHexRow),
        }
    }
}

/// Parses the bytes of a BDF document, as [`spec_parse`] describes the
/// result: the structured document on success, and the first failure —
/// a malformed integer field, a malformed bitmap row, or a glyph block the
/// input ends inside of — otherwise.
pub fn load_bdf_bytes(bytes: &[u8]) -> (r: Result<BDFFont, ParseError>)
    ensures
        (match r {
            Ok(f) => spec_parse(bytes@) == Ok::<FontModel, ParseError>(f@),
            Err(e) => spec_parse(bytes@) == Err::<FontModel, ParseError>(e),
        }),
{
    let lines = split_lines(bytes);
    let ghost lns = views_of(lines@);
    let mut font = BDFFont::empty();
    let mut mode = Mode::Top;
    let mut i: usize = 0;
    while i < lines.len()
        invariant
            i <= lines@.len(),
            lns == views_of(lines@),
            spec_parse(bytes@) == spec_run(lns, i as int, font@, mode@),
        decreases lines@.len() - i,
    {
        let ghost fpre = font@;
        let ghost mpre = mode@;
        let line = lines[i].as_slice();
        proof {
            assert(line@ == lns[i as int]);
        }
        let cur = mode;
        match cur {
            Mode::Top => match step_top(&mut font, line) {
                Ok(Some(m)) => {
                    mode = m;
                },
                Ok(None) => {
                    return Ok(font);
                },
                Err(e) => {
                    return Err(e);
                },
            },
            Mode::Props => match step_props(&mut font, line) {
                Ok(stay) => {
                    mode = if stay {
                        Mode::Props
                    } else {
                        Mode::Top
                    };
                },
                Err(e) => {
                    return Err(e);
                },
            },
            Mode::InGlyph(g) => match step_glyph(g, line) {
                Ok(m) => {
                    mode = m;
                },
                Err(e) => {
                    return Err(e);
                },
            },
            Mode::InBitmap(g) => match step_bitmap(&mut font, g, line) {
                Ok(m) => {
                    mode = m;
                },
                Err(e) => {
                    return Err(e);
                },
            },
        }
        proof {
            assert(spec_run(lns, i as int, fpre, mpre) == spec_run(
                lns,
                i + 1,
                font@,
                mode@,
            ));
        }
        i += 1;
    }
    match mode {
        Mode::Top => Ok(font),
        Mode::Props => Ok(font),
        Mode::InGlyph(_) => Err(ParseError::UnterminatedGlyph),
        Mode::InBitmap(_) => Err(ParseError::UnterminatedGlyph),
    }
}

/// Parses a BDF document given as text; the lines are read as bytes, as
/// [`load_bdf_bytes`] has them.
pub fn load_bdf(contents: &str) -> (r: Result<BDFFont, ParseError>)
    ensures
        (match r {
            Ok(f) => spec_parse(contents.spec_bytes()) == Ok::<FontModel, ParseError>(f@),
            Err(e) => spec_parse(contents.spec_bytes()) == Err::<FontModel, ParseError>(e),
        }),
{
    load_bdf_bytes(contents.as_bytes())
}

} // verus!
