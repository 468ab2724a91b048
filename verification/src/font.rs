//! The font capability: glyph lookup, metrics at a scale, and outlines.

use crate::units::{Glyph, Point, Scale};
use vstd::prelude::*;

verus! {

/// The rasterised form of a glyph: a pixel bounding box and row-major
/// coverage samples; a sample the vector does not hold counts as no ink.
#[derive(Debug, PartialEq, Eq)]
pub struct Outline {
    pub min_x: i32,
    pub min_y: i32,
    pub width: u32,
    pub height: u32,
    pub coverage: Vec<u8>,
}

/// What an `Outline` stands for.
pub struct Ink {
    pub min_x: int,
    pub min_y: int,
    pub width: nat,
    pub height: nat,
    pub coverage: Seq<u8>,
}

impl View for Outline {
    type V = Ink;

    open spec fn view(&self) -> Ink {
        Ink {
            min_x: self.min_x as int,
            min_y: self.min_y as int,
            width: self.width as nat,
            height: self.height as nat,
            coverage: self.coverage@,
        }
    }
}

/// A font engine. Each answer is a fixed function of the font and the
/// question: the executable method returns what the spec method of the same
/// question says. Lengths are in sub-pixel units.
pub trait Font {
    /// The glyph that draws `c`.
    spec fn glyph_id_of(&self, c: char) -> u16;

    /// The ascent at `scale`.
    spec fn ascent_of(&self, scale: Scale) -> i64;

    /// The line height at `scale`.
    spec fn height_of(&self, scale: Scale) -> i64;

    /// The line gap at `scale`.
    spec fn line_gap_of(&self, scale: Scale) -> i64;

    /// The horizontal advance of glyph `id` at `scale`.
    spec fn h_advance_of(&self, scale: Scale, id: u16) -> i64;

    /// The kerning between two glyphs at `scale`.
    spec fn kern_of(&self, scale: Scale, first: u16, second: u16) -> i64;

    /// The outline of a positioned, scaled glyph, if it has visible ink.
    spec fn outline_of(&self, glyph: Glyph) -> Option<Ink>;

    /// The glyph that draws `c`.
    fn glyph_id(&self, c: char) -> (id: u16)
        ensures
            id == self.glyph_id_of(c),
    ;

    /// Height of the tallest glyph above the baseline.
    fn ascent(&self, scale: Scale) -> (v: i64)
        ensures
            v == self.ascent_of(scale),
    ;

    /// Distance from the lowest descent to the highest ascent.
    fn height(&self, scale: Scale) -> (v: i64)
        ensures
            v == self.height_of(scale),
    ;

    /// Recommended extra space between two lines.
    fn line_gap(&self, scale: Scale) -> (v: i64)
        ensures
            v == self.line_gap_of(scale),
    ;

    /// How far the caret moves past the glyph.
    fn h_advance(&self, scale: Scale, id: u16) -> (v: i64)
        ensures
            v == self.h_advance_of(scale, id),
    ;

    /// Spacing adjustment between two neighbouring glyphs.
    fn kern(&self, scale: Scale, first: u16, second: u16) -> (v: i64)
        ensures
            v == self.kern_of(scale, first, second),
    ;

    /// The glyph's outline, or `None` where it has no visible ink.
    fn outline_glyph(&self, glyph: Glyph) -> (outline: Option<Outline>)
        ensures
            outline.is_some() == self.outline_of(glyph).is_some(),
            outline matches Some(o) ==> self.outline_of(glyph) == Some(o@),
    ;
}

/// A font seen at one scale.
pub struct ScaledFont<'a, F: Font> {
    pub font: &'a F,
    pub scale: Scale,
}

impl<'a, F: Font> ScaledFont<'a, F> {
    /// The font `font` at `scale`.
    pub fn new(font: &'a F, scale: Scale) -> (scaled: Self)
        ensures
            scaled.font == font,
            scaled.scale == scale,
    {
        ScaledFont { font, scale }
    }

    /// The scaled ascent.
    pub fn ascent(&self) -> (v: i64)
        ensures
            v == self.font.ascent_of(self.scale),
    {
        self.font.ascent(self.scale)
    }

    /// The scaled height.
    pub fn height(&self) -> (v: i64)
        ensures
            v == self.font.height_of(self.scale),
    {
        self.font.height(self.scale)
    }

    /// The scaled line gap.
    pub fn line_gap(&self) -> (v: i64)
        ensures
            v == self.font.line_gap_of(self.scale),
    {
        self.font.line_gap(self.scale)
    }

    /// The scaled horizontal advance of a glyph.
    pub fn h_advance(&self, id: u16) -> (v: i64)
        ensures
            v == self.font.h_advance_of(self.scale, id),
    {
        self.font.h_advance(self.scale, id)
    }

    /// The scaled kerning between two glyphs.
    pub fn kern(&self, first: u16, second: u16) -> (v: i64)
        ensures
            v == self.font.kern_of(self.scale, first, second),
    {
        self.font.kern(self.scale, first, second)
    }

    /// The glyph for `c` at this scale, with its origin at zero.
    pub fn scaled_glyph(&self, c: char) -> (glyph: Glyph)
        ensures
            glyph == (Glyph {
                id: self.font.glyph_id_of(c),
                scale: self.scale,
                position: Point { x: 0, y: 0 },
            }),
    {
        Glyph { id: self.font.glyph_id(c), scale: self.scale, position: Point { x: 0, y: 0 } }
    }
}

} // verus!
