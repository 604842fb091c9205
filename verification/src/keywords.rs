//! The record keywords of the format, as byte arrays usable both at
//! runtime and in specifications. A keyword that ends in a space is matched
//! as a line prefix; the others are matched against a whole line.

use vstd::prelude::*;

verus! {

/// `"STARTFONT "` — Opens the file; the record is recognised and skipped.
pub const KW_STARTFONT: [u8; 10] = ['S' as u8, 'T' as u8, 'A' as u8, 'R' as u8, 'T' as u8, 'F' as u8, 'O' as u8, 'N' as u8, 'T' as u8, ' ' as u8];

/// `"FONT "` — The font name record.
pub const KW_FONT: [u8; 5] = ['F' as u8, 'O' as u8, 'N' as u8, 'T' as u8, ' ' as u8];

/// `"SIZE "` — The point-size / resolution record.
pub const KW_SIZE: [u8; 5] = ['S' as u8, 'I' as u8, 'Z' as u8, 'E' as u8, ' ' as u8];

/// `"FONTBOUNDINGBOX "` — The global bounding-box record.
pub const KW_FONTBOUNDINGBOX: [u8; 16] = ['F' as u8, 'O' as u8, 'N' as u8, 'T' as u8, 'B' as u8, 'O' as u8, 'U' as u8, 'N' as u8, 'D' as u8, 'I' as u8, 'N' as u8, 'G' as u8, 'B' as u8, 'O' as u8, 'X' as u8, ' ' as u8];

/// `"STARTPROPERTIES "` — Opens the property block.
pub const KW_STARTPROPERTIES: [u8; 16] = ['S' as u8, 'T' as u8, 'A' as u8, 'R' as u8, 'T' as u8, 'P' as u8, 'R' as u8, 'O' as u8, 'P' as u8, 'E' as u8, 'R' as u8, 'T' as u8, 'I' as u8, 'E' as u8, 'S' as u8, ' ' as u8];

/// `"CHARS "` — The declared glyph count.
pub const KW_CHARS: [u8; 6] = ['C' as u8, 'H' as u8, 'A' as u8, 'R' as u8, 'S' as u8, ' ' as u8];

/// `"STARTCHAR "` — Opens a glyph block.
pub const KW_STARTCHAR: [u8; 10] = ['S' as u8, 'T' as u8, 'A' as u8, 'R' as u8, 'T' as u8, 'C' as u8, 'H' as u8, 'A' as u8, 'R' as u8, ' ' as u8];

/// `"ENDFONT"` — Ends the document at once (matched as a whole line).
pub const KW_ENDFONT: [u8; 7] = ['E' as u8, 'N' as u8, 'D' as u8, 'F' as u8, 'O' as u8, 'N' as u8, 'T' as u8];

/// `"ENDPROPERTIES"` — Closes the property block.
pub const KW_ENDPROPERTIES: [u8; 13] = ['E' as u8, 'N' as u8, 'D' as u8, 'P' as u8, 'R' as u8, 'O' as u8, 'P' as u8, 'E' as u8, 'R' as u8, 'T' as u8, 'I' as u8, 'E' as u8, 'S' as u8];

/// `"POINT_SIZE "` — Property: point size.
pub const KW_POINT_SIZE: [u8; 11] = ['P' as u8, 'O' as u8, 'I' as u8, 'N' as u8, 'T' as u8, '_' as u8, 'S' as u8, 'I' as u8, 'Z' as u8, 'E' as u8, ' ' as u8];

/// `"PIXEL_SIZE "` — Property: pixel size.
pub const KW_PIXEL_SIZE: [u8; 11] = ['P' as u8, 'I' as u8, 'X' as u8, 'E' as u8, 'L' as u8, '_' as u8, 'S' as u8, 'I' as u8, 'Z' as u8, 'E' as u8, ' ' as u8];

/// `"RESOLUTION_X "` — Property: horizontal resolution.
pub const KW_RESOLUTION_X: [u8; 13] = ['R' as u8, 'E' as u8, 'S' as u8, 'O' as u8, 'L' as u8, 'U' as u8, 'T' as u8, 'I' as u8, 'O' as u8, 'N' as u8, '_' as u8, 'X' as u8, ' ' as u8];

/// `"RESOLUTION_Y "` — Property: vertical resolution.
pub const KW_RESOLUTION_Y: [u8; 13] = ['R' as u8, 'E' as u8, 'S' as u8, 'O' as u8, 'L' as u8, 'U' as u8, 'T' as u8, 'I' as u8, 'O' as u8, 'N' as u8, '_' as u8, 'Y' as u8, ' ' as u8];

/// `"FONT_ASCENT "` — Property: ascent above the baseline.
pub const KW_FONT_ASCENT: [u8; 12] = ['F' as u8, 'O' as u8, 'N' as u8, 'T' as u8, '_' as u8, 'A' as u8, 'S' as u8, 'C' as u8, 'E' as u8, 'N' as u8, 'T' as u8, ' ' as u8];

/// `"FONT_DESCENT "` — Property: descent below the baseline.
pub const KW_FONT_DESCENT: [u8; 13] = ['F' as u8, 'O' as u8, 'N' as u8, 'T' as u8, '_' as u8, 'D' as u8, 'E' as u8, 'S' as u8, 'C' as u8, 'E' as u8, 'N' as u8, 'T' as u8, ' ' as u8];

/// `"AVERAGE_WIDTH "` — Property: average advance width.
pub const KW_AVERAGE_WIDTH: [u8; 14] = ['A' as u8, 'V' as u8, 'E' as u8, 'R' as u8, 'A' as u8, 'G' as u8, 'E' as u8, '_' as u8, 'W' as u8, 'I' as u8, 'D' as u8, 'T' as u8, 'H' as u8, ' ' as u8];

/// `"SPACING "` — Property: spacing class string.
pub const KW_SPACING: [u8; 8] = ['S' as u8, 'P' as u8, 'A' as u8, 'C' as u8, 'I' as u8, 'N' as u8, 'G' as u8, ' ' as u8];

/// `"_GBDFED_INFO "` — Property: opaque editor-info string.
pub const KW_GBDFED_INFO: [u8; 13] = ['_' as u8, 'G' as u8, 'B' as u8, 'D' as u8, 'F' as u8, 'E' as u8, 'D' as u8, '_' as u8, 'I' as u8, 'N' as u8, 'F' as u8, 'O' as u8, ' ' as u8];

/// `"CHARSET_ENCODING "` — Property: charset encoding string.
pub const KW_CHARSET_ENCODING: [u8; 17] = ['C' as u8, 'H' as u8, 'A' as u8, 'R' as u8, 'S' as u8, 'E' as u8, 'T' as u8, '_' as u8, 'E' as u8, 'N' as u8, 'C' as u8, 'O' as u8, 'D' as u8, 'I' as u8, 'N' as u8, 'G' as u8, ' ' as u8];

/// `"CHARSET_REGISTRY "` — Property: charset registry string.
pub const KW_CHARSET_REGISTRY: [u8; 17] = ['C' as u8, 'H' as u8, 'A' as u8, 'R' as u8, 'S' as u8, 'E' as u8, 'T' as u8, '_' as u8, 'R' as u8, 'E' as u8, 'G' as u8, 'I' as u8, 'S' as u8, 'T' as u8, 'R' as u8, 'Y' as u8, ' ' as u8];

/// `"FAMILY_NAME "` — Property: family name string.
pub const KW_FAMILY_NAME: [u8; 12] = ['F' as u8, 'A' as u8, 'M' as u8, 'I' as u8, 'L' as u8, 'Y' as u8, '_' as u8, 'N' as u8, 'A' as u8, 'M' as u8, 'E' as u8, ' ' as u8];

/// `"FOUNDRY "` — Property: foundry string.
pub const KW_FOUNDRY: [u8; 8] = ['F' as u8, 'O' as u8, 'U' as u8, 'N' as u8, 'D' as u8, 'R' as u8, 'Y' as u8, ' ' as u8];

/// `"SETWIDTH_NAME "` — Property: setwidth name string.
pub const KW_SETWIDTH_NAME: [u8; 14] = ['S' as u8, 'E' as u8, 'T' as u8, 'W' as u8, 'I' as u8, 'D' as u8, 'T' as u8, 'H' as u8, '_' as u8, 'N' as u8, 'A' as u8, 'M' as u8, 'E' as u8, ' ' as u8];

/// `"SLANT "` — Property: slant string.
pub const KW_SLANT: [u8; 6] = ['S' as u8, 'L' as u8, 'A' as u8, 'N' as u8, 'T' as u8, ' ' as u8];

/// `"WEIGHT_NAME "` — Property: weight name string.
pub const KW_WEIGHT_NAME: [u8; 12] = ['W' as u8, 'E' as u8, 'I' as u8, 'G' as u8, 'H' as u8, 'T' as u8, '_' as u8, 'N' as u8, 'A' as u8, 'M' as u8, 'E' as u8, ' ' as u8];

/// `"ENCODING "` — Glyph record: codepoint.
pub const KW_ENCODING: [u8; 9] = ['E' as u8, 'N' as u8, 'C' as u8, 'O' as u8, 'D' as u8, 'I' as u8, 'N' as u8, 'G' as u8, ' ' as u8];

/// `"SWIDTH "` — Glyph record: scalable width pair.
pub const KW_SWIDTH: [u8; 7] = ['S' as u8, 'W' as u8, 'I' as u8, 'D' as u8, 'T' as u8, 'H' as u8, ' ' as u8];

/// `"DWIDTH "` — Glyph record: device width pair.
pub const KW_DWIDTH: [u8; 7] = ['D' as u8, 'W' as u8, 'I' as u8, 'D' as u8, 'T' as u8, 'H' as u8, ' ' as u8];

/// `"BBX "` — Glyph record: local bounding box.
pub const KW_BBX: [u8; 4] = ['B' as u8, 'B' as u8, 'X' as u8, ' ' as u8];

/// `"BITMAP"` — Opens the bitmap body (matched as a whole line).
pub const KW_BITMAP: [u8; 6] = ['B' as u8, 'I' as u8, 'T' as u8, 'M' as u8, 'A' as u8, 'P' as u8];

/// `"ENDCHAR"` — Closes a glyph block (matched as a whole line).
pub const KW_ENDCHAR: [u8; 7] = ['E' as u8, 'N' as u8, 'D' as u8, 'C' as u8, 'H' as u8, 'A' as u8, 'R' as u8];

} // verus!
