//! The font document: glyphs, font-level properties and the document head,
//! together with their spec-level models. Strings are byte strings — BDF is
//! a line-oriented ASCII format — and every field defaults to zero or empty
//! until a record of the source text sets it.

use vstd::prelude::*;

verus! {

/// One glyph: its STARTCHAR label, encoding, widths, local bounding box and
/// packed bitmap rows (top row first, bit 15 the leftmost pixel).
pub struct BDFGlyph {
    pub startchar: Vec<u8>,
    pub encoding: usize,
    pub swidth: (usize, usize),
    pub dwidth: (usize, usize),
    pub bbx: (usize, usize, isize, isize),
    pub bitmap: Vec<u16>,
}

/// Font-level metadata from the STARTPROPERTIES block.
pub struct BDFProperties {
    pub point_size: usize,
    pub pixel_size: usize,
    pub resolution_x: usize,
    pub resolution_y: usize,
    pub font_ascent: usize,
    pub font_descent: usize,
    pub average_width: usize,
    pub spacing: Vec<u8>,
    pub gbdfed_info: Vec<u8>,
    pub charset_encoding: Vec<u8>,
    pub charset_registry: Vec<u8>,
    pub family_name: Vec<u8>,
    pub foundry: Vec<u8>,
    pub setwidth_name: Vec<u8>,
    pub slant: Vec<u8>,
    pub weight_name: Vec<u8>,
}

/// A parsed font document: the SIZE triple, the FONT name, the global
/// bounding box, the declared glyph count, the properties and the glyphs in
/// their order of appearance.
pub struct BDFFont {
    pub size: (usize, usize, usize),
    pub font: Vec<u8>,
    pub bounding_box: (usize, usize, isize, isize),
    pub charcount: usize,
    pub properties: BDFProperties,
    pub glyphs: Vec<BDFGlyph>,
}

/// The mathematical value of a [`BDFGlyph`].
#[verifier::ext_equal]
pub struct GlyphModel {
    pub startchar: Seq<u8>,
    pub encoding: int,
    pub swidth: (int, int),
    pub dwidth: (int, int),
    pub bbx: (int, int, int, int),
    pub bitmap: Seq<u16>,
}

/// The mathematical value of a [`BDFProperties`].
#[verifier::ext_equal]
pub struct PropertiesModel {
    pub point_size: int,
    pub pixel_size: int,
    pub resolution_x: int,
    pub resolution_y: int,
    pub font_ascent: int,
    pub font_descent: int,
    pub average_width: int,
    pub spacing: Seq<u8>,
    pub gbdfed_info: Seq<u8>,
    pub charset_encoding: Seq<u8>,
    pub charset_registry: Seq<u8>,
    pub family_name: Seq<u8>,
    pub foundry: Seq<u8>,
    pub setwidth_name: Seq<u8>,
    pub slant: Seq<u8>,
    pub weight_name: Seq<u8>,
}

/// The mathematical value of a [`BDFFont`].
#[verifier::ext_equal]
pub struct FontModel {
    pub size: (int, int, int),
    pub font: Seq<u8>,
    pub bounding_box: (int, int, int, int),
    pub charcount: int,
    pub properties: PropertiesModel,
    pub glyphs: Seq<GlyphModel>,
}

impl View for BDFGlyph {
    type V = GlyphModel;

    open spec fn view(&self) -> GlyphModel {
        GlyphModel {
            startchar: self.startchar@,
            encoding: self.encoding as int,
            swidth: (self.swidth.0 as int, self.swidth.1 as int),
            dwidth: (self.dwidth.0 as int, self.dwidth.1 as int),
            bbx: (self.bbx.0 as int, self.bbx.1 as int, self.bbx.2 as int, self.bbx.3 as int),
            bitmap: self.bitmap@,
        }
    }
}

impl View for BDFProperties {
    type V = PropertiesModel;

    open spec fn view(&self) -> PropertiesModel {
        PropertiesModel {
            point_size: self.point_size as int,
            pixel_size: self.pixel_size as int,
            resolution_x: self.resolution_x as int,
            resolution_y: self.resolution_y as int,
            font_ascent: self.font_ascent as int,
            font_descent: self.font_descent as int,
            average_width: self.average_width as int,
            spacing: self.spacing@,
            gbdfed_info: self.gbdfed_info@,
            charset_encoding: self.charset_encoding@,
            charset_registry: self.charset_registry@,
            family_name: self.family_name@,
            foundry: self.foundry@,
            setwidth_name: self.setwidth_name@,
            slant: self.slant@,
            weight_name: self.weight_name@,
        }
    }
}

/// The glyph models of a sequence of glyphs.
pub open spec fn glyph_views(v: Seq<BDFGlyph>) -> Seq<GlyphModel> {
    v.map_values(|g: BDFGlyph| g@)
}

impl View for BDFFont {
    type V = FontModel;

    open spec fn view(&self) -> FontModel {
        FontModel {
            size: (self.size.0 as int, self.size.1 as int, self.size.2 as int),
            font: self.font@,
            bounding_box: (
                self.bounding_box.0 as int,
                self.bounding_box.1 as int,
                self.bounding_box.2 as int,
                self.bounding_box.3 as int,
            ),
            charcount: self.charcount as int,
            properties: self.properties@,
            glyphs: glyph_views(self.glyphs@),
        }
    }
}

/// A glyph as a STARTCHAR line opens it: the given label, every number zero,
/// no bitmap rows.
pub open spec fn init_glyph_model(name: Seq<u8>) -> GlyphModel {
    GlyphModel {
        startchar: name,
        encoding: 0,
        swidth: (0, 0),
        dwidth: (0, 0),
        bbx: (0, 0, 0, 0),
        bitmap: Seq::empty(),
    }
}

/// The property defaults: zero for each number, empty for each string.
pub open spec fn init_properties_model() -> PropertiesModel {
    PropertiesModel {
        point_size: 0,
        pixel_size: 0,
        resolution_x: 0,
        resolution_y: 0,
        font_ascent: 0,
        font_descent: 0,
        average_width: 0,
        spacing: Seq::empty(),
        gbdfed_info: Seq::empty(),
        charset_encoding: Seq::empty(),
        charset_registry: Seq::empty(),
        family_name: Seq::empty(),
        foundry: Seq::empty(),
        setwidth_name: Seq::empty(),
        slant: Seq::empty(),
        weight_name: Seq::empty(),
    }
}

/// The document before any line is read: defaults everywhere, no glyphs.
pub open spec fn init_font_model() -> FontModel {
    FontModel {
        size: (0, 0, 0),
        font: Seq::empty(),
        bounding_box: (0, 0, 0, 0),
        charcount: 0,
        properties: init_properties_model(),
        glyphs: Seq::empty(),
    }
}

impl BDFGlyph {
    /// A glyph holding only its STARTCHAR label, as [`init_glyph_model`]
    /// describes it.
    pub fn with_name(name: Vec<u8>) -> (g: BDFGlyph)
        ensures
            g@ == init_glyph_model(name@),
    {
        let g = BDFGlyph {
            startchar: name,
            encoding: 0,
            swidth: (0, 0),
            dwidth: (0, 0),
            bbx: (0, 0, 0, 0),
            bitmap: Vec::new(),
        };
        proof {
            assert(g@ =~~= init_glyph_model(name@));
        }
        g
    }
}

impl BDFProperties {
    /// The property defaults, as [`init_properties_model`] describes them.
    pub fn empty() -> (p: BDFProperties)
        ensures
            p@ == init_properties_model(),
    {
        let p = BDFProperties {
            point_size: 0,
            pixel_size: 0,
            resolution_x: 0,
            resolution_y: 0,
            font_ascent: 0,
            font_descent: 0,
            average_width: 0,
            spacing: Vec::new(),
            gbdfed_info: Vec::new(),
            charset_encoding: Vec::new(),
            charset_registry: Vec::new(),
            family_name: Vec::new(),
            foundry: Vec::new(),
            setwidth_name: Vec::new(),
            slant: Vec::new(),
            weight_name: Vec::new(),
        };
        proof {
            assert(p@ =~~= init_properties_model());
        }
        p
    }
}

impl BDFFont {
    /// The empty document, as [`init_font_model`] describes it.
    pub fn empty() -> (f: BDFFont)
        ensures
            f@ == init_font_model(),
    {
        let f = BDFFont {
            size: (0, 0, 0),
            font: Vec::new(),
            bounding_box: (0, 0, 0, 0),
            charcount: 0,
            properties: BDFProperties::empty(),
            glyphs: Vec::new(),
        };
        proof {
            assert(glyph_views(f.glyphs@) =~= Seq::<GlyphModel>::empty());
            assert(f@ =~~= init_font_model());
        }
        f
    }
}

} // verus!
