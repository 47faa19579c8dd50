//! Fonts and shaping: a run of text turned into placed glyphs.

use crate::exact::{computes_closely_wide, near_wide};
use crate::number::Double;
use crate::outline::{outline_view, Outline, PathEl, Point};
use crate::policy::GlyphProbe;
use crate::unit::{FloatUnit, Op};
use read_fonts::model::glyph::outline::PathElement;
use read_fonts::model::glyph::outline::PathElement::{Close, CurveTo, LineTo, MoveTo, QuadTo};
use read_fonts::model::glyph::outline::{DrawMemory, DrawOptions};
use read_fonts::TableProvider;
use vstd::prelude::*;

verus! {

/// What can go wrong with a font or a text.
#[derive(Debug)]
pub enum ShapeError {
    /// The font cannot be read; the reader's own words.
    FontLoad(String),
    /// The text cannot be shaped.
    ShapingFailed,
}

impl ShapeError {
    /// The error in words.
    pub open spec fn words(self) -> Seq<char> {
        match self {
            ShapeError::FontLoad(reason) => "Font loading failed: "@ + reason@,
            ShapeError::ShapingFailed => "Shaping failed for text"@,
        }
    }

    /// The error in words.
    pub fn message(&self) -> (r: String)
        ensures
            r@ == self.words(),
    {
        match self {
            ShapeError::FontLoad(reason) => {
                let mut message = "Font loading failed: ".to_string();
                message.append(reason.as_str());
                message
            },
            ShapeError::ShapingFailed => "Shaping failed for text".to_string(),
        }
    }
}

/// A glyph as the shaper places it, in font units.
#[derive(Clone, Copy, Debug, PartialEq, Eq, Structural)]
pub struct Placement {
    pub glyph_id: u32,
    pub x_advance: i32,
    pub y_advance: i32,
    pub x_offset: i32,
    pub y_offset: i32,
}

/// What is wrong with the first font of a file, in words, if anything is.
pub uninterp spec fn font_fault_of(data: Seq<u8>) -> Option<Seq<char>>;

/// The characters of a string, if there is one.
pub open spec fn text_of(text: Option<String>) -> Option<Seq<char>> {
    match text {
        Some(text) => Some(text@),
        None => None,
    }
}

/// Calls `read_fonts::FontRef::from_index` for the first font of a file. There is a
/// fault where the call fails, and it is the error's own text. An empty file is too
/// short for the header of a font or of a collection, so there is a fault.
#[verifier::external_body]
fn font_fault(data: &[u8]) -> (r: Option<String>)
    ensures
        text_of(r) == font_fault_of(data@),
        data@.len() == 0 ==> r is Some,
{
    match read_fonts::FontRef::from_index(data, 0) {
        Ok(_) => None,
        Err(fault) => Some(fault.to_string()),
    }
}

/// The glyphs of a text that is set from left to right in the first font of a file;
/// nothing if it cannot be shaped.
pub uninterp spec fn placements_of(data: Seq<u8>, text: Seq<char>) -> Option<Seq<Placement>>;

/// The placements that a vector holds, if there is one.
pub open spec fn placed(glyphs: Option<Vec<Placement>>) -> Option<Seq<Placement>> {
    match glyphs {
        Some(glyphs) => Some(glyphs@),
        None => None,
    }
}

/// Calls `harfrust::shape` on a buffer that holds the text with its direction set
/// from left to right, for the first font of a file as `harfrust::Font::new` makes
/// it. Gives the glyph of each entry of the buffer with its position, or nothing
/// where a call fails.
#[verifier::external_body]
fn place(data: &[u8], text: &str) -> (r: Option<Vec<Placement>>)
    ensures
        placed(r) == placements_of(data@, text@),
{
    let font = harfrust::Font::new(data.to_vec(), 0)?;
    let mut buffer = harfrust::Buffer::new();
    buffer.push_str(text);
    buffer.set_direction(harfrust::Direction::LeftToRight);
    let shaper = harfrust::ShaperFont::new(&font);
    harfrust::shape(&shaper, &mut buffer, harfrust::ShapeOptions::new()).ok()?;
    let entries = buffer.glyph_infos().iter().zip(buffer.glyph_positions());
    Some(entries.map(|(info, at)| Placement {
        glyph_id: info.glyph_id,
        x_advance: at.x_advance,
        y_advance: at.y_advance,
        x_offset: at.x_offset,
        y_offset: at.y_offset,
    }).collect())
}

/// One command of an outline as `read_fonts` draws it.
#[verifier::external_type_specification]
#[verifier::external_body]
pub struct ExPathElement(PathElement);

/// The steps of the commands that a vector of `read_fonts` holds, in order, with their
/// coordinates in double precision.
pub uninterp spec fn steps_of(path: Vec<PathElement>) -> Seq<PathEl>;

/// The outline of a glyph of the first font of a file in font units, if it has one.
pub uninterp spec fn outline_of(data: Seq<u8>, glyph_id: u32) -> Option<Seq<PathEl>>;

/// Calls `read_fonts::model::glyph::outline::OutlineGlyphs::get` for a glyph of the
/// first font of a file, as `harfrust::Font::new` makes it, and draws the glyph in font
/// units into a vector. There is no outline where the font, the glyph or its drawing
/// cannot be had.
#[verifier::external_body]
fn draw(data: &[u8], glyph_id: u32) -> (r: Option<Vec<PathElement>>)
    ensures
        match r {
            Some(path) => outline_of(data@, glyph_id) == Some(steps_of(path)),
            None => outline_of(data@, glyph_id) is None,
        },
{
    let font = harfrust::Font::new(data.to_vec(), 0)?;
    let glyph = font.outline_glyphs().get(harfrust::GlyphId::new(glyph_id))?;
    let mut path: Vec<PathElement> = Vec::new();
    glyph.draw(&DrawOptions::new(), DrawMemory::Scratch, &mut path).ok()?;
    Some(path)
}

/// Copies the commands out of a vector of `read_fonts`, one step each.
/// `kurbo::Point::from` widens a pair of single-precision coordinates, which loses
/// nothing.
#[verifier::external_body]
fn steps(path: &Vec<PathElement>) -> (r: Vec<PathEl>)
    ensures
        r@ == steps_of(*path),
{
    let at = |x, y| {
        let p = kurbo::Point::from((x, y));
        Point::of_bits(p.x.to_bits(), p.y.to_bits())
    };
    path.iter().map(|e| match *e {
        MoveTo { x, y } => PathEl::MoveTo(at(x, y)),
        LineTo { x, y } => PathEl::LineTo(at(x, y)),
        QuadTo { cx0, cy0, x, y } => PathEl::QuadTo(at(cx0, cy0), at(x, y)),
        CurveTo { cx0, cy0, cx1, cy1, x, y } =>
            PathEl::CurveTo(at(cx0, cy0), at(cx1, cy1), at(x, y)),
        Close => PathEl::ClosePath,
    }).collect()
}

/// The advance width of a glyph in the horizontal metrics of the first font of a
/// file, in font units, if they have one.
pub uninterp spec fn width_of(data: Seq<u8>, glyph_id: u32) -> Option<u16>;

/// Calls `read_fonts::tables::hmtx::Hmtx::advance` for a glyph of the first font of a
/// file. There is no width where the font or its metrics cannot be read.
#[verifier::external_body]
fn measure(data: &[u8], glyph_id: u32) -> (r: Option<u16>)
    ensures
        r == width_of(data@, glyph_id),
{
    let font = read_fonts::FontRef::from_index(data, 0).ok()?;
    font.hmtx().ok()?.advance(read_fonts::types::GlyphId::new(glyph_id))
}

/// A source of glyphs: outlines where there are any, bitmaps otherwise.
pub trait GlyphSource {
    /// The outline of a glyph.
    spec fn outline(&self, glyph_id: u32) -> Option<Seq<PathEl>>;

    /// Whether a glyph has a vector outline.
    spec fn vector(&self, glyph_id: u32) -> bool;

    /// The bitmap of a glyph.
    spec fn bitmap(&self, glyph_id: u32) -> Option<Seq<u8>>;

    /// The advance width of a glyph, in font units.
    spec fn width(&self, glyph_id: u32) -> u32;

    /// The outline of a glyph in font units, if there is one.
    fn get_outline(&self, glyph_id: u32) -> (r: Option<Outline>)
        ensures
            outline_view(r) == self.outline(glyph_id),
    ;

    /// Whether a glyph has a vector outline.
    fn has_vector_outline(&self, glyph_id: u32) -> (r: bool)
        ensures
            r == self.vector(glyph_id),
    ;

    /// The bitmap of a glyph, if there is one.
    fn get_bitmap(&self, glyph_id: u32) -> (r: Option<&[u8]>)
        ensures
            match r {
                Some(bytes) => self.bitmap(glyph_id) == Some(bytes@),
                None => self.bitmap(glyph_id) is None,
            },
    ;

    /// The advance width of a glyph, in font units.
    fn get_advance<F: Fn(Op, u64, u64) -> u64>(&self, unit: &FloatUnit<F>, glyph_id: u32) -> (r:
        Double)
        ensures
            r == unit.counted(self.width(glyph_id)),
    ;
}

/// A font that shapes text. It measures glyphs and hands out their outlines; it has no
/// bitmaps.
#[derive(Debug)]
pub struct HarfBuzzGlyphSource {
    data: Vec<u8>,
}

/// A shaped glyph: where it stands and what it looks like.
#[derive(Clone, Debug)]
pub struct ShapedGlyph {
    pub glyph_id: u32,
    pub x_advance: Double,
    pub y_advance: Double,
    pub x_offset: Double,
    pub y_offset: Double,
    pub outline: Option<Outline>,
    pub advance_font_units: Double,
}

/// What a shaped glyph says.
#[verifier::ext_equal]
pub struct GlyphView {
    pub glyph_id: u32,
    pub x_advance: Double,
    pub y_advance: Double,
    pub x_offset: Double,
    pub y_offset: Double,
    pub outline: Option<Seq<PathEl>>,
    pub advance_font_units: Double,
}

impl View for ShapedGlyph {
    type V = GlyphView;

    open spec fn view(&self) -> GlyphView {
        GlyphView {
            glyph_id: self.glyph_id,
            x_advance: self.x_advance,
            y_advance: self.y_advance,
            x_offset: self.x_offset,
            y_offset: self.y_offset,
            outline: outline_view(self.outline),
            advance_font_units: self.advance_font_units,
        }
    }
}

/// What several shaped glyphs say.
pub open spec fn glyph_views(glyphs: Seq<ShapedGlyph>) -> Seq<GlyphView> {
    Seq::new(glyphs.len(), |i: int| glyphs[i]@)
}

impl<'a> GlyphProbe<'a> {
    /// What a policy is shown of a shaped glyph.
    pub fn from_glyph_info(glyph: &'a ShapedGlyph) -> (r: GlyphProbe<'a>)
        ensures
            r.steps() == glyph@.outline,
    {
        GlyphProbe { outline: glyph.outline.as_ref() }
    }
}

/// The glyph of a placement in the first font of a file.
pub open spec fn shaped_glyph<F: Fn(Op, u64, u64) -> u64>(
    unit: FloatUnit<F>,
    data: Seq<u8>,
    at: Placement,
) -> GlyphView {
    GlyphView {
        glyph_id: at.glyph_id,
        x_advance: unit.as_double(at.x_advance),
        y_advance: unit.as_double(at.y_advance),
        x_offset: unit.as_double(at.x_offset),
        y_offset: unit.as_double(at.y_offset),
        outline: outline_of(data, at.glyph_id),
        advance_font_units: unit.counted(advance_width(data, at.glyph_id)),
    }
}

/// The glyphs of placements in the first font of a file.
pub open spec fn shaped_glyphs<F: Fn(Op, u64, u64) -> u64>(
    unit: FloatUnit<F>,
    data: Seq<u8>,
    at: Seq<Placement>,
) -> Seq<GlyphView> {
    Seq::new(at.len(), |i: int| shaped_glyph(unit, data, at[i]))
}

/// The advance width of a glyph; zero where the font has none.
pub open spec fn advance_width(data: Seq<u8>, glyph_id: u32) -> u32 {
    match width_of(data, glyph_id) {
        Some(width) => width as u32,
        None => 0,
    }
}

impl HarfBuzzGlyphSource {
    /// The file that the font was read from.
    pub closed spec fn font(self) -> Seq<u8> {
        self.data@
    }

    /// Reads the first font of a file.
    pub fn from_bytes(data: &[u8]) -> (r: Result<HarfBuzzGlyphSource, ShapeError>)
        ensures
            match r {
                Ok(source) => {
                    &&& source.font() == data@
                    &&& font_fault_of(data@) is None
                    &&& data@.len() > 0
                },
                Err(ShapeError::FontLoad(reason)) => font_fault_of(data@) == Some(reason@),
                Err(ShapeError::ShapingFailed) => false,
            },
    {
        match font_fault(data) {
            Some(reason) => Err(ShapeError::FontLoad(reason)),
            None => Ok(HarfBuzzGlyphSource { data: vstd::slice::slice_to_vec(data) }),
        }
    }

    /// Shapes a text, from left to right.
    pub fn shape_text<F: Fn(Op, u64, u64) -> u64>(&self, unit: &FloatUnit<F>, text: &str) -> (r:
        Result<Vec<ShapedGlyph>, ShapeError>)
        ensures
            match r {
                Ok(glyphs) => placements_of(self.font(), text@) matches Some(at) && glyph_views(
                    glyphs@,
                ) == shaped_glyphs(*unit, self.font(), at),
                Err(error) => error is ShapingFailed && placements_of(self.font(), text@) is None,
            },
    {
        match place(self.data.as_slice(), text) {
            Some(at) => Ok(self.describe(unit, &at)),
            None => Err(ShapeError::ShapingFailed),
        }
    }

    /// The glyphs of placements.
    pub fn describe<F: Fn(Op, u64, u64) -> u64>(
        &self,
        unit: &FloatUnit<F>,
        at: &Vec<Placement>,
    ) -> (r: Vec<ShapedGlyph>)
        ensures
            glyph_views(r@) == shaped_glyphs(*unit, self.font(), at@),
    {
        let mut glyphs: Vec<ShapedGlyph> = Vec::new();
        let mut i: usize = 0;
        while i < at.len()
            invariant
                i <= at@.len(),
                glyph_views(glyphs@) == shaped_glyphs(*unit, self.font(), at@.take(i as int)),
            decreases at@.len() - i,
        {
            let ghost before = glyphs@;
            let glyph = at[i];
            let outline = self.get_outline(glyph.glyph_id);
            let advance = self.get_advance(unit, glyph.glyph_id);
            glyphs.push(
                ShapedGlyph {
                    glyph_id: glyph.glyph_id,
                    x_advance: unit.integer(glyph.x_advance),
                    y_advance: unit.integer(glyph.y_advance),
                    x_offset: unit.integer(glyph.x_offset),
                    y_offset: unit.integer(glyph.y_offset),
                    outline,
                    advance_font_units: advance,
                },
            );
            assert(glyph_views(glyphs@) == glyph_views(before).push(
                shaped_glyph(*unit, self.font(), glyph),
            ));
            assert(shaped_glyphs(*unit, self.font(), at@.take(i + 1)) == shaped_glyphs(
                *unit,
                self.font(),
                at@.take(i as int),
            ).push(shaped_glyph(*unit, self.font(), glyph)));
            i += 1;
        }
        assert(at@.take(i as int) == at@);
        glyphs
    }
}

impl GlyphSource for HarfBuzzGlyphSource {
    open spec fn outline(&self, glyph_id: u32) -> Option<Seq<PathEl>> {
        outline_of(self.font(), glyph_id)
    }

    open spec fn vector(&self, glyph_id: u32) -> bool {
        outline_of(self.font(), glyph_id) is Some
    }

    open spec fn bitmap(&self, glyph_id: u32) -> Option<Seq<u8>> {
        None
    }

    open spec fn width(&self, glyph_id: u32) -> u32 {
        advance_width(self.font(), glyph_id)
    }

    fn get_outline(&self, glyph_id: u32) -> (r: Option<Outline>)
        ensures
            r is Some <==> self.vector(glyph_id),
    {
        match draw(self.data.as_slice(), glyph_id) {
            Some(path) => Some(Outline { elements: steps(&path) }),
            None => None,
        }
    }

    fn has_vector_outline(&self, glyph_id: u32) -> (r: bool) {
        draw(self.data.as_slice(), glyph_id).is_some()
    }

    fn get_bitmap(&self, glyph_id: u32) -> (r: Option<&[u8]>) {
        None
    }

    fn get_advance<F: Fn(Op, u64, u64) -> u64>(&self, unit: &FloatUnit<F>, glyph_id: u32) -> (r:
        Double) {
        let width: u32 = match measure(self.data.as_slice(), glyph_id) {
            Some(width) => width as u32,
            None => 0,
        };
        unit.count(width)
    }
}

/// Each placement becomes a glyph, in its place: the same glyph of the font, with the
/// advances and the offsets of the placement as exact numbers, its outline as the font has
/// it and the width that the font gives it, which is zero where it gives none.
pub proof fn glyphs_stand_where_they_are_placed<F: Fn(Op, u64, u64) -> u64>(
    unit: FloatUnit<F>,
    data: Seq<u8>,
    at: Seq<Placement>,
    i: int,
)
    requires
        computes_closely_wide(unit),
        0 <= i < at.len(),
    ensures
        shaped_glyphs(unit, data, at).len() == at.len(),
        ({
            let glyph = shaped_glyphs(unit, data, at)[i];
            &&& glyph.glyph_id == at[i].glyph_id
            &&& near_wide(glyph.x_advance, at[i].x_advance as real, 0 as real)
            &&& near_wide(glyph.y_advance, at[i].y_advance as real, 0 as real)
            &&& near_wide(glyph.x_offset, at[i].x_offset as real, 0 as real)
            &&& near_wide(glyph.y_offset, at[i].y_offset as real, 0 as real)
            &&& glyph.outline == outline_of(data, at[i].glyph_id)
            &&& near_wide(
                glyph.advance_font_units,
                match width_of(data, at[i].glyph_id) {
                    Some(width) => width as real,
                    None => 0 as real,
                },
                0 as real,
            )
        }),
{
    let glyph = shaped_glyphs(unit, data, at)[i];
    assert(near_wide(unit.as_double(at[i].x_advance), at[i].x_advance as real, 0 as real));
    assert(near_wide(unit.as_double(at[i].y_advance), at[i].y_advance as real, 0 as real));
    assert(near_wide(unit.as_double(at[i].x_offset), at[i].x_offset as real, 0 as real));
    assert(near_wide(unit.as_double(at[i].y_offset), at[i].y_offset as real, 0 as real));
    let width = advance_width(data, at[i].glyph_id);
    assert(near_wide(unit.counted(width), width as real, 0 as real));
}

/// The errors in words: a font that cannot be read gives the reader's reason after the
/// words for it, a text that cannot be shaped gives no reason.
pub proof fn shape_errors_in_words(reason: String)
    ensures
        ShapeError::FontLoad(reason).words() == "Font loading failed: "@ + reason@,
        ShapeError::ShapingFailed.words() == "Shaping failed for text"@,
{
}

/// A font has a vector outline of a glyph exactly where it has an outline, never a bitmap,
/// and a width of zero for a glyph that it does not measure.
pub proof fn a_font_hands_out_outlines(source: HarfBuzzGlyphSource, glyph_id: u32)
    ensures
        source.vector(glyph_id) <==> source.outline(glyph_id) is Some,
        source.outline(glyph_id) == outline_of(source.font(), glyph_id),
        source.bitmap(glyph_id) is None,
        source.width(glyph_id) == match width_of(source.font(), glyph_id) {
            Some(width) => width as u32,
            None => 0u32,
        },
{
}

} // verus!
