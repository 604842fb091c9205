//! Laws of the parser, stated over the spec-level machine of
//! [`crate::parser`] and proved once for all inputs: glyph order is
//! append-only, an `ENDFONT` line at the top level ends the parse and makes
//! every later line irrelevant, a parse with no property block keeps the
//! property defaults, a short SIZE record fails, and a one-byte bitmap row
//! decodes as its two-byte zero-padded form does.

use vstd::prelude::*;

use crate::font::FontModel;
use crate::keywords::{KW_ENDFONT, KW_FONT, KW_SIZE, KW_STARTPROPERTIES};
use crate::numbers::{all_hex_digits, hex_val, lemma_hex_val_short, spec_parse_hex_u16};
use crate::parser::{
    spec_decode_row, spec_run, spec_step, spec_step_top, ModeModel, ParseError, StepModel,
};
use crate::text::{spec_has_prefix, spec_tokens};

verus! {

/// One step never removes or reorders glyphs: the glyphs after the step
/// begin with the glyphs before it, and an ENDFONT line returns them as
/// they stand.
pub proof fn lemma_step_extends_glyphs(font: FontModel, mode: ModeModel, l: Seq<u8>)
    ensures
        (match spec_step(font, mode, l) {
            Ok(StepModel::Next(f2, _m2)) => f2.glyphs.is_prefix_of(font.glyphs)
                || f2.glyphs == font.glyphs.push(f2.glyphs.last()),
            Ok(StepModel::Finished(f2)) => f2.glyphs == font.glyphs,
            Err(_e) => true,
        }),
        (match spec_step(font, mode, l) {
            Ok(StepModel::Next(f2, _m2)) => font.glyphs.is_prefix_of(f2.glyphs),
            Ok(StepModel::Finished(f2)) => font.glyphs.is_prefix_of(f2.glyphs),
            Err(_e) => true,
        }),
{
    match spec_step(font, mode, l) {
        Ok(StepModel::Next(f2, _m2)) => {
            if f2.glyphs == font.glyphs.push(f2.glyphs.last()) {
                assert(font.glyphs =~= f2.glyphs.subrange(0, font.glyphs.len() as int));
            } else {
                assert(f2.glyphs == font.glyphs);
                assert(font.glyphs =~= f2.glyphs.subrange(0, font.glyphs.len() as int));
            }
        },
        Ok(StepModel::Finished(f2)) => {
            assert(font.glyphs =~= f2.glyphs.subrange(0, font.glyphs.len() as int));
        },
        Err(_e) => {},
    }
}

/// Sequence prefixes compose.
pub proof fn lemma_prefix_trans<T>(a: Seq<T>, b: Seq<T>, c: Seq<T>)
    requires
        a.is_prefix_of(b),
        b.is_prefix_of(c),
    ensures
        a.is_prefix_of(c),
{
    assert(a =~= c.subrange(0, a.len() as int)) by {
        assert(forall|i: int| 0 <= i < a.len() ==> a[i] == #[trigger] b[i]);
        assert(forall|i: int| 0 <= i < b.len() ==> b[i] == #[trigger] c[i]);
    }
}

/// Glyph order is preserved: whatever glyphs stand parsed when the machine
/// is at line `i`, a successful parse returns them first, unchanged and in
/// order, with every glyph the remaining lines open appended after them in
/// order of appearance.
pub proof fn lemma_run_extends_glyphs(
    lines: Seq<Seq<u8>>,
    i: int,
    font: FontModel,
    mode: ModeModel,
)
    ensures
        (match spec_run(lines, i, font, mode) {
            Ok(f) => font.glyphs.is_prefix_of(f.glyphs),
            Err(_e) => true,
        }),
    decreases lines.len() - i,
{
    if i < 0 || i >= lines.len() {
        match spec_run(lines, i, font, mode) {
            Ok(f) => {
                assert(font.glyphs =~= f.glyphs.subrange(0, font.glyphs.len() as int));
            },
            Err(_e) => {},
        }
    } else {
        lemma_step_extends_glyphs(font, mode, lines[i]);
        match spec_step(font, mode, lines[i]) {
            Ok(StepModel::Next(f2, m2)) => {
                lemma_run_extends_glyphs(lines, i + 1, f2, m2);
                match spec_run(lines, i + 1, f2, m2) {
                    Ok(f) => {
                        lemma_prefix_trans(font.glyphs, f2.glyphs, f.glyphs);
                    },
                    Err(_e) => {},
                }
            },
            Ok(StepModel::Finished(_f)) => {},
            Err(_e) => {},
        }
    }
}

/// The parse ends strictly before the lines run out: a step from line `i`
/// fails, finishes the document, or leads to a state from which the rest of
/// `lines` still ends early.
pub open spec fn run_halts_early(
    lines: Seq<Seq<u8>>,
    i: int,
    font: FontModel,
    mode: ModeModel,
) -> bool
    decreases lines.len() - i,
{
    if i < 0 || i >= lines.len() {
        false
    } else {
        match spec_step(font, mode, lines[i]) {
            Ok(StepModel::Next(f, m)) => run_halts_early(lines, i + 1, f, m),
            Ok(StepModel::Finished(_f)) => true,
            Err(_e) => true,
        }
    }
}

/// Lines beyond an early end of the parse are never read: when the parse of
/// `lines` ends before their last line, appending anything changes nothing.
pub proof fn lemma_suffix_irrelevant(
    lines: Seq<Seq<u8>>,
    extra: Seq<Seq<u8>>,
    i: int,
    font: FontModel,
    mode: ModeModel,
)
    requires
        0 <= i,
        run_halts_early(lines, i, font, mode),
    ensures
        spec_run(lines + extra, i, font, mode) == spec_run(lines, i, font, mode),
        run_halts_early(lines + extra, i, font, mode),
    decreases lines.len() - i,
{
    assert(i < lines.len());
    assert((lines + extra)[i] == lines[i]);
    match spec_step(font, mode, lines[i]) {
        Ok(StepModel::Next(f, m)) => {
            lemma_suffix_irrelevant(lines, extra, i + 1, f, m);
        },
        Ok(StepModel::Finished(_f)) => {},
        Err(_e) => {},
    }
}

/// A line that is exactly `ENDFONT`, read at the top level, ends the parse
/// at once: the result is the document as it stands, whatever lines follow.
pub proof fn lemma_endfont_ends_parse(lines: Seq<Seq<u8>>, i: int, font: FontModel)
    requires
        0 <= i < lines.len(),
        lines[i] == KW_ENDFONT@,
    ensures
        spec_run(lines, i, font, ModeModel::Top) == Ok::<FontModel, ParseError>(font),
        run_halts_early(lines, i, font, ModeModel::Top),
{
    let l = lines[i];
    assert(l.len() == 7);
    assert(l[0] == 'E' as u8);
    assert(!spec_has_prefix(l, KW_FONT@)) by {
        if spec_has_prefix(l, KW_FONT@) {
            assert(l.subrange(0, 5)[0] == KW_FONT@[0]);
        }
    }
    assert(!spec_has_prefix(l, KW_SIZE@)) by {
        if spec_has_prefix(l, KW_SIZE@) {
            assert(l.subrange(0, 5)[0] == KW_SIZE@[0]);
        }
    }
    assert(!spec_has_prefix(l, crate::keywords::KW_CHARS@)) by {
        if spec_has_prefix(l, crate::keywords::KW_CHARS@) {
            assert(l.subrange(0, 6)[0] == crate::keywords::KW_CHARS@[0]);
        }
    }
    assert(spec_step_top(font, l) == Ok::<StepModel, ParseError>(StepModel::Finished(font)));
}

/// A SIZE record with fewer than three arguments fails the parse with
/// `MalformedIntegerField`, at the step that reads it.
pub proof fn lemma_short_size_record_fails(font: FontModel, l: Seq<u8>)
    requires
        spec_has_prefix(l, KW_SIZE@),
        spec_tokens(l.skip(KW_SIZE@.len() as int)).len() < 3,
    ensures
        spec_step_top(font, l) == Err::<StepModel, ParseError>(
            ParseError::MalformedIntegerField,
        ),
        spec_step(font, ModeModel::Top, l) == Err::<StepModel, ParseError>(
            ParseError::MalformedIntegerField,
        ),
{
    assert(l.subrange(0, 5)[0] == KW_SIZE@[0]);
    assert(l.subrange(0, 5)[1] == KW_SIZE@[1]);
    assert(l[0] == 'S' as u8 && l[1] == 'I' as u8);
    assert(!spec_has_prefix(l, crate::keywords::KW_STARTFONT@)) by {
        if spec_has_prefix(l, crate::keywords::KW_STARTFONT@) {
            assert(l.subrange(0, 10)[1] == crate::keywords::KW_STARTFONT@[1]);
        }
    }
    assert(!spec_has_prefix(l, KW_FONT@)) by {
        if spec_has_prefix(l, KW_FONT@) {
            assert(l.subrange(0, 5)[0] == KW_FONT@[0]);
        }
    }
}

/// A mode other than the property block.
pub open spec fn mode_outside_properties(mode: ModeModel) -> bool {
    !(mode is Props)
}

/// Property defaults: while no remaining line opens a property block, the
/// parse never touches the properties, so a successful parse returns them as
/// they stand — for a whole document, at their defaults.
pub proof fn lemma_no_property_block_keeps_properties(
    lines: Seq<Seq<u8>>,
    i: int,
    font: FontModel,
    mode: ModeModel,
)
    requires
        mode_outside_properties(mode),
        forall|j: int|
            i <= j < lines.len() ==> !spec_has_prefix(#[trigger] lines[j], KW_STARTPROPERTIES@),
    ensures
        (match spec_run(lines, i, font, mode) {
            Ok(f) => f.properties == font.properties,
            Err(_e) => true,
        }),
    decreases lines.len() - i,
{
    if 0 <= i < lines.len() {
        match spec_step(font, mode, lines[i]) {
            Ok(StepModel::Next(f2, m2)) => {
                assert(f2.properties == font.properties && mode_outside_properties(m2)) by {
                    assert(!spec_has_prefix(lines[i], KW_STARTPROPERTIES@));
                }
                lemma_no_property_block_keeps_properties(lines, i + 1, f2, m2);
            },
            Ok(StepModel::Finished(_f)) => {},
            Err(_e) => {},
        }
    }
}

/// Row decoding is one convention, written two ways: a row of at most two
/// hexadecimal digits decodes to the same sixteen-bit value as the same row
/// padded with two zero digits, so its bits land in the high byte either
/// way.
pub proof fn lemma_row_padding_equivalent(t: Seq<u8>)
    requires
        all_hex_digits(t),
        1 <= t.len() <= 2,
    ensures
        spec_decode_row(t + seq!['0' as u8, '0' as u8]) == spec_decode_row(t),
{
    let z: u8 = '0' as u8;
    let padded = t + seq![z, z];
    lemma_hex_val_short(t);
    assert(all_hex_digits(padded)) by {
        assert(forall|i: int| 0 <= i < t.len() ==> padded[i] == #[trigger] t[i]);
        assert(padded[t.len() as int] == z && padded[t.len() as int + 1] == z);
    }
    assert(padded.drop_last() =~= t.push(z));
    assert(t.push(z).drop_last() =~= t);
    assert(hex_val(t.push(z)) == hex_val(t) * 16);
    assert(hex_val(padded) == hex_val(t) * 16 * 16);
    assert(hex_val(padded) == hex_val(t) * 256);
    assert(spec_parse_hex_u16(padded) == Some(hex_val(t) * 256));
    assert(spec_parse_hex_u16(t) == Some(hex_val(t)));
    assert(padded.len() > 2);
}

} // verus!
