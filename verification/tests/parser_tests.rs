use bdf::parser::{load_bdf, load_bdf_bytes, ParseError};

#[test]
fn minimal_document_keeps_property_defaults() {
    let font = load_bdf("STARTFONT 2.1\nENDFONT\n").unwrap();
    assert_eq!(font.properties.font_ascent, 0);
    assert_eq!(font.properties.font_descent, 0);
    assert_eq!(font.properties.point_size, 0);
    assert_eq!(font.properties.family_name, Vec::<u8>::new());
    assert_eq!(font.properties.spacing, Vec::<u8>::new());
    assert_eq!(font.size, (0, 0, 0));
    assert_eq!(font.charcount, 0);
    assert_eq!(font.glyphs.len(), 0);
}

#[test]
fn empty_input_yields_empty_document() {
    let font = load_bdf("").unwrap();
    assert_eq!(font.glyphs.len(), 0);
    assert_eq!(font.font, Vec::<u8>::new());
}

#[test]
fn size_record_sets_the_triple() {
    let font = load_bdf("SIZE 17 75 75\n").unwrap();
    assert_eq!(font.size, (17, 75, 75));
}

#[test]
fn short_size_record_fails_as_malformed_integer() {
    let r = load_bdf("STARTFONT 2.1\nSIZE 17 75\nENDFONT\n");
    assert!(matches!(r, Err(ParseError::MalformedIntegerField)));
}

#[test]
fn non_numeric_size_token_fails() {
    let r = load_bdf("SIZE 17 seventyfive 75\n");
    assert!(matches!(r, Err(ParseError::MalformedIntegerField)));
}

#[test]
fn fontboundingbox_takes_signed_offsets() {
    let font = load_bdf("FONTBOUNDINGBOX 6 17 -1 -4\n").unwrap();
    assert_eq!(font.bounding_box, (6, 17, -1, -4));
}

#[test]
fn font_record_keeps_the_whole_remainder() {
    let font = load_bdf("FONT -misc-haxor narrow-17\n").unwrap();
    assert_eq!(font.font, b"-misc-haxor narrow-17".to_vec());
}

#[test]
fn chars_record_sets_declared_count() {
    let font = load_bdf("CHARS 97\n").unwrap();
    assert_eq!(font.charcount, 97);
}

#[test]
fn properties_block_fills_known_fields() {
    let text = "STARTPROPERTIES 8\n\
                POINT_SIZE 170\n\
                PIXEL_SIZE 17\n\
                FONT_ASCENT 14\n\
                FONT_DESCENT 3\n\
                FAMILY_NAME Haxor Narrow\n\
                SPACING C\n\
                SLANT R\n\
                _GBDFED_INFO Edited with gbdfed 1.6.\n\
                ENDPROPERTIES\n\
                ENDFONT\n";
    let font = load_bdf(text).unwrap();
    assert_eq!(font.properties.point_size, 170);
    assert_eq!(font.properties.pixel_size, 17);
    assert_eq!(font.properties.font_ascent, 14);
    assert_eq!(font.properties.font_descent, 3);
    assert_eq!(font.properties.family_name, b"Haxor Narrow".to_vec());
    assert_eq!(font.properties.spacing, b"C".to_vec());
    assert_eq!(font.properties.slant, b"R".to_vec());
    assert_eq!(font.properties.gbdfed_info, b"Edited with gbdfed 1.6.".to_vec());
    // Fields no property line set keep their defaults.
    assert_eq!(font.properties.foundry, Vec::<u8>::new());
    assert_eq!(font.properties.average_width, 0);
}

#[test]
fn unknown_property_lines_are_skipped() {
    let text = "STARTPROPERTIES 2\nNOT_A_PROPERTY 12\nWEIGHT_NAME Medium\nENDPROPERTIES\n";
    let font = load_bdf(text).unwrap();
    assert_eq!(font.properties.weight_name, b"Medium".to_vec());
}

#[test]
fn malformed_integer_property_fails() {
    let r = load_bdf("STARTPROPERTIES 1\nFONT_ASCENT fourteen\nENDPROPERTIES\n");
    assert!(matches!(r, Err(ParseError::MalformedIntegerField)));
}

#[test]
fn startproperties_count_must_be_an_integer() {
    let r = load_bdf("STARTPROPERTIES x\nENDPROPERTIES\n");
    assert!(matches!(r, Err(ParseError::MalformedIntegerField)));
}

#[test]
fn glyph_block_fills_every_field() {
    let text = "STARTCHAR A\n\
                ENCODING 65\n\
                SWIDTH 500 0\n\
                DWIDTH 8 0\n\
                BBX 6 9 1 -2\n\
                BITMAP\n\
                78\n\
                CC\n\
                ENDCHAR\n\
                ENDFONT\n";
    let font = load_bdf(text).unwrap();
    assert_eq!(font.glyphs.len(), 1);
    let g = &font.glyphs[0];
    assert_eq!(g.startchar, b"A".to_vec());
    assert_eq!(g.encoding, 65);
    assert_eq!(g.swidth, (500, 0));
    assert_eq!(g.dwidth, (8, 0));
    assert_eq!(g.bbx, (6, 9, 1, -2));
    assert_eq!(g.bitmap, vec![0x7800, 0xCC00]);
}

#[test]
fn one_byte_hex_row_lands_in_the_high_byte() {
    let text = "STARTCHAR a\nBITMAP\nFF\nENDCHAR\n";
    let font = load_bdf(text).unwrap();
    assert_eq!(font.glyphs[0].bitmap, vec![0xFF00]);
}

#[test]
fn two_byte_hex_row_is_stored_unshifted() {
    let text = "STARTCHAR a\nBITMAP\nFF00\nENDCHAR\n";
    let font = load_bdf(text).unwrap();
    assert_eq!(font.glyphs[0].bitmap, vec![0xFF00]);
}

#[test]
fn single_digit_hex_row_is_shifted_too() {
    let text = "STARTCHAR a\nBITMAP\n8\nENDCHAR\n";
    let font = load_bdf(text).unwrap();
    assert_eq!(font.glyphs[0].bitmap, vec![0x0800]);
}

#[test]
fn three_digit_hex_row_is_stored_unshifted() {
    let text = "STARTCHAR a\nBITMAP\nF00\nENDCHAR\n";
    let font = load_bdf(text).unwrap();
    assert_eq!(font.glyphs[0].bitmap, vec![0x0F00]);
}

#[test]
fn glyph_order_follows_the_source_text() {
    let text = "STARTCHAR A\nBITMAP\nENDCHAR\n\
                STARTCHAR B\nBITMAP\nENDCHAR\n\
                STARTCHAR C\nBITMAP\nENDCHAR\n\
                ENDFONT\n";
    let font = load_bdf(text).unwrap();
    let names: Vec<&[u8]> = font.glyphs.iter().map(|g| g.startchar.as_slice()).collect();
    assert_eq!(names, vec![b"A".as_slice(), b"B".as_slice(), b"C".as_slice()]);
}

#[test]
fn lines_after_endfont_are_never_read() {
    let text = "STARTCHAR A\nBITMAP\nENDCHAR\n\
                ENDFONT\n\
                STARTCHAR B\nBITMAP\nENDCHAR\n";
    let font = load_bdf(text).unwrap();
    assert_eq!(font.glyphs.len(), 1);
    assert_eq!(font.glyphs[0].startchar, b"A".to_vec());
}

#[test]
fn malformed_lines_after_endfont_do_not_fail_the_parse() {
    let text = "ENDFONT\nSIZE 1\nSTARTCHAR x\nBITMAP\nZZ\n";
    let font = load_bdf(text).unwrap();
    assert_eq!(font.glyphs.len(), 0);
}

#[test]
fn endfont_needs_the_whole_line() {
    // A line that merely begins with the word is not the terminator.
    let font = load_bdf("ENDFONT extra\nCHARS 3\n").unwrap();
    assert_eq!(font.charcount, 3);
}

#[test]
fn non_hex_bitmap_row_fails() {
    let r = load_bdf("STARTCHAR a\nBITMAP\nGG\nENDCHAR\n");
    assert!(matches!(r, Err(ParseError::MalformedHexRow)));
}

#[test]
fn oversized_hex_row_fails() {
    let r = load_bdf("STARTCHAR a\nBITMAP\n12345\nENDCHAR\n");
    assert!(matches!(r, Err(ParseError::MalformedHexRow)));
}

#[test]
fn empty_bitmap_row_line_fails() {
    let r = load_bdf("STARTCHAR a\nBITMAP\n\nENDCHAR\n");
    assert!(matches!(r, Err(ParseError::MalformedHexRow)));
}

#[test]
fn glyph_block_without_endchar_fails() {
    let r = load_bdf("STARTCHAR a\nENCODING 65\n");
    assert!(matches!(r, Err(ParseError::UnterminatedGlyph)));
}

#[test]
fn bitmap_body_without_endchar_fails() {
    let r = load_bdf("STARTCHAR a\nBITMAP\nFF\n");
    assert!(matches!(r, Err(ParseError::UnterminatedGlyph)));
}

#[test]
fn bad_encoding_record_fails() {
    let r = load_bdf("STARTCHAR a\nENCODING sixty\nBITMAP\nENDCHAR\n");
    assert!(matches!(r, Err(ParseError::MalformedIntegerField)));
}

#[test]
fn short_bbx_record_fails() {
    let r = load_bdf("STARTCHAR a\nBBX 6 9\nBITMAP\nENDCHAR\n");
    assert!(matches!(r, Err(ParseError::MalformedIntegerField)));
}

#[test]
fn short_dwidth_record_fails() {
    let r = load_bdf("STARTCHAR a\nDWIDTH 8\nBITMAP\nENDCHAR\n");
    assert!(matches!(r, Err(ParseError::MalformedIntegerField)));
}

#[test]
fn unknown_lines_inside_a_glyph_block_are_skipped() {
    let text = "STARTCHAR a\nNOT_A_RECORD 1 2 3\nBITMAP\nENDCHAR\nENDFONT\n";
    let font = load_bdf(text).unwrap();
    assert_eq!(font.glyphs.len(), 1);
}

#[test]
fn carriage_return_line_endings_are_accepted() {
    let text = "SIZE 17 75 75\r\nSTARTCHAR A\r\nENCODING 65\r\nBITMAP\r\nFF\r\nENDCHAR\r\nENDFONT\r\n";
    let font = load_bdf(text).unwrap();
    assert_eq!(font.size, (17, 75, 75));
    assert_eq!(font.glyphs.len(), 1);
    assert_eq!(font.glyphs[0].encoding, 65);
    assert_eq!(font.glyphs[0].bitmap, vec![0xFF00]);
}

#[test]
fn startfont_record_is_skipped() {
    let font = load_bdf("STARTFONT 2.1\nCHARS 1\nENDFONT\n").unwrap();
    assert_eq!(font.charcount, 1);
}

#[test]
fn unrecognised_top_level_lines_are_skipped() {
    let font = load_bdf("COMMENT anything at all\nCHARS 2\nENDFONT\n").unwrap();
    assert_eq!(font.charcount, 2);
}

#[test]
fn byte_and_text_entry_points_agree() {
    let text = "STARTCHAR A\nENCODING 65\nBITMAP\nFF\nENDCHAR\nENDFONT\n";
    let a = load_bdf(text).unwrap();
    let b = load_bdf_bytes(text.as_bytes()).unwrap();
    assert_eq!(a.glyphs.len(), b.glyphs.len());
    assert_eq!(a.glyphs[0].encoding, b.glyphs[0].encoding);
    assert_eq!(a.glyphs[0].bitmap, b.glyphs[0].bitmap);
}

#[test]
fn size_record_accepts_extra_tokens() {
    let font = load_bdf("SIZE 17 75 75 99\n").unwrap();
    assert_eq!(font.size, (17, 75, 75));
}

#[test]
fn trailing_space_in_integer_property_fails() {
    // The property value is the raw remainder of the line; it must be
    // exactly a numeral.
    let r = load_bdf("STARTPROPERTIES 1\nFONT_ASCENT 14 \nENDPROPERTIES\n");
    assert!(matches!(r, Err(ParseError::MalformedIntegerField)));
}

#[test]
fn remaining_property_fields_are_parsed() {
    let text = "STARTPROPERTIES 8\n\
                RESOLUTION_X 75\n\
                RESOLUTION_Y 76\n\
                AVERAGE_WIDTH 50\n\
                CHARSET_ENCODING 1\n\
                CHARSET_REGISTRY ISO8859\n\
                FOUNDRY misc\n\
                SETWIDTH_NAME Normal\n\
                ENDPROPERTIES\n";
    let font = load_bdf(text).unwrap();
    assert_eq!(font.properties.resolution_x, 75);
    assert_eq!(font.properties.resolution_y, 76);
    assert_eq!(font.properties.average_width, 50);
    assert_eq!(font.properties.charset_encoding, b"1".to_vec());
    assert_eq!(font.properties.charset_registry, b"ISO8859".to_vec());
    assert_eq!(font.properties.foundry, b"misc".to_vec());
    assert_eq!(font.properties.setwidth_name, b"Normal".to_vec());
}

#[test]
fn endproperties_closes_the_block_as_a_prefix() {
    // The terminator is matched as a line prefix, not as a whole line.
    let text = "STARTPROPERTIES 0\nENDPROPERTIES 0\nCHARS 5\n";
    let font = load_bdf(text).unwrap();
    assert_eq!(font.charcount, 5);
}

#[test]
fn startchar_inside_an_open_glyph_block_is_absorbed() {
    // A glyph block ends only at an ENDCHAR that follows a BITMAP body, so
    // a second STARTCHAR line inside it is ordinary skipped text.
    let text = "STARTCHAR a\nSTARTCHAR b\nBITMAP\nENDCHAR\nENDFONT\n";
    let font = load_bdf(text).unwrap();
    assert_eq!(font.glyphs.len(), 1);
    assert_eq!(font.glyphs[0].startchar, b"a".to_vec());
}

#[test]
fn endchar_without_a_bitmap_body_does_not_close_the_glyph() {
    // Even an ENDFONT line is absorbed by the open glyph block, so the
    // input ends inside it.
    let r = load_bdf("STARTCHAR a\nENDCHAR\nENDFONT\n");
    assert!(matches!(r, Err(ParseError::UnterminatedGlyph)));
}

#[test]
fn bitmap_needs_the_whole_line() {
    // A line that merely begins with the word is ordinary skipped text.
    let r = load_bdf("STARTCHAR a\nBITMAP x\nENDFONT\n");
    assert!(matches!(r, Err(ParseError::UnterminatedGlyph)));
}

#[test]
fn lowercase_hex_rows_are_accepted() {
    let font = load_bdf("STARTCHAR a\nBITMAP\nab\nENDCHAR\n").unwrap();
    assert_eq!(font.glyphs[0].bitmap, vec![0xAB00]);
}
