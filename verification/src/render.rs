//! Render-and-fit: lay the text out, shrink it horizontally once if it is
//! too wide, then blend every glyph's coverage into the canvas. Samples that
//! fall off the canvas are clipped.

use crate::blend::{blend, blended, lemma_blend_endpoints, Color};
use crate::canvas::{
    buffer_get, buffer_put, canvas_dims, canvas_pixels, on_canvas, pixel_at, Canvas,
};
use crate::font::{Font, Ink, Outline, ScaledFont};
use crate::layout::{laid_out, layout_paragraph, lemma_layout_scale};
use crate::units::{add_lengths, pixels_to_units, saturate, units_of_pixels, Glyph, Point, Scale};
use vstd::prelude::*;

verus! {

/// The text has no character that produces a glyph, so there is no width to
/// measure.
#[derive(Clone, Copy, Debug, PartialEq, Eq)]
pub struct EmptyRenderableText;

/// The rendered width of a layout: the right edge of its last glyph's layout
/// box.
pub open spec fn layout_width(glyphs: Seq<Glyph>) -> int
    recommends
        glyphs.len() > 0,
{
    saturate(glyphs.last().position.x + glyphs.last().scale.x)
}

/// `x` divided by `width / max_units`, rounded towards zero.
pub open spec fn shrunk(x: int, width: int, max_units: int) -> int
    recommends
        0 <= max_units < width,
{
    if x >= 0 {
        (x * max_units) / width
    } else {
        -(((-x) * max_units) / width)
    }
}

/// The scale that the text is finally laid out at: compressed horizontally
/// where the width exceeds the limit, unchanged where it does not.
pub open spec fn fitted_scale(scale: Scale, width: int, max_units: int) -> Scale {
    if width > max_units {
        Scale { x: shrunk(scale.x as int, width, max_units) as i64, y: scale.y }
    } else {
        scale
    }
}

/// Shrinking moves a length towards zero, and a length that is not zero
/// strictly so.
pub proof fn lemma_shrunk_bounds(x: int, width: int, max_units: int)
    requires
        0 <= max_units < width,
    ensures
        x >= 0 ==> 0 <= shrunk(x, width, max_units) <= x,
        x > 0 ==> shrunk(x, width, max_units) < x,
        x <= 0 ==> x <= shrunk(x, width, max_units) <= 0,
        x < 0 ==> x < shrunk(x, width, max_units),
{
    lemma_scaled_quotient(if x >= 0 { x } else { -x }, width, max_units);
}

proof fn lemma_scaled_quotient(m: int, width: int, max_units: int)
    requires
        0 <= m,
        0 <= max_units < width,
    ensures
        0 <= (m * max_units) / width <= m,
        m > 0 ==> (m * max_units) / width < m,
{
    let p = m * max_units;
    assert(0 <= p <= m * width && (m > 0 ==> p < m * width)) by (nonlinear_arith)
        requires
            p == m * max_units,
            0 <= m,
            0 <= max_units < width,
    ;
    assert(0 <= p / width <= m && (p < m * width ==> p / width < m)) by (nonlinear_arith)
        requires
            0 <= p <= m * width,
            0 < width,
    ;
}

/// Where the limit is below the width and the horizontal scale is positive,
/// the fitted scale is strictly narrower and exactly as tall.
pub proof fn lemma_shrink_narrows(scale: Scale, width: int, max_width: u32)
    requires
        pixels_to_units(max_width) < width,
        scale.x > 0,
    ensures
        fitted_scale(scale, width, pixels_to_units(max_width)).x < scale.x,
        fitted_scale(scale, width, pixels_to_units(max_width)).y == scale.y,
{
    lemma_shrunk_bounds(scale.x as int, width, pixels_to_units(max_width));
}

/// The scale for a layout of the given width under a limit of `max_width`
/// pixels: compressed horizontally where the layout is wider, else unchanged.
pub fn fit_scale(scale: Scale, width: i64, max_width: u32) -> (fitted: Scale)
    ensures
        fitted == fitted_scale(scale, width as int, pixels_to_units(max_width)),
{
    let max_units = units_of_pixels(max_width);
    if width > max_units {
        proof {
            lemma_shrunk_bounds(scale.x as int, width as int, max_units as int);
        }
        let magnitude: u128 = if scale.x >= 0 {
            scale.x as u128
        } else {
            (-(scale.x as i128)) as u128
        };
        assert(magnitude * max_units <= magnitude * 0x8000_0000_0000_0000) by (nonlinear_arith)
            requires
                0 <= max_units <= 0x8000_0000_0000_0000,
                0 <= magnitude,
        ;
        assert(magnitude * 0x8000_0000_0000_0000 <= 0x8000_0000_0000_0000
            * 0x8000_0000_0000_0000) by (nonlinear_arith)
            requires
                0 <= magnitude <= 0x8000_0000_0000_0000,
        ;
        let quotient: u128 = (magnitude * (max_units as u128)) / (width as u128);
        let x: i64 = if scale.x >= 0 {
            quotient as i64
        } else {
            -(quotient as i64)
        };
        Scale { x, y: scale.y }
    } else {
        scale
    }
}

/// The glyphs that are drawn: those of the layout at the given scale, or,
/// where that layout is wider than the limit, those of a second layout at
/// the fitted scale.
pub open spec fn fitted_layout<F: Font>(
    font: &F,
    scale: Scale,
    position: Point,
    max_units: int,
    text: Seq<char>,
) -> Seq<Glyph> {
    let first = laid_out(font, scale, position, text);
    laid_out(font, fitted_scale(scale, layout_width(first), max_units), position, text)
}

/// Where the limit is no less than the width of the first layout, there is no
/// second pass: the glyphs drawn are those of the layout at the given scale.
pub proof fn lemma_no_shrink_when_fits<F: Font>(
    font: &F,
    scale: Scale,
    position: Point,
    max_units: int,
    text: Seq<char>,
)
    requires
        layout_width(laid_out(font, scale, position, text)) <= max_units,
    ensures
        fitted_layout(font, scale, position, max_units, text) == laid_out(
            font,
            scale,
            position,
            text,
        ),
{
}

/// Where the first layout is wider than the limit and the horizontal scale
/// is positive, every glyph that is drawn is strictly narrower than asked
/// for and exactly as tall.
pub proof fn lemma_shrunk_glyphs_narrower<F: Font>(
    font: &F,
    scale: Scale,
    position: Point,
    max_width: u32,
    text: Seq<char>,
    i: int,
)
    requires
        layout_width(laid_out(font, scale, position, text)) > pixels_to_units(max_width),
        scale.x > 0,
        0 <= i < fitted_layout(font, scale, position, pixels_to_units(max_width), text).len(),
    ensures
        fitted_layout(font, scale, position, pixels_to_units(max_width), text)[i].scale.x
            < scale.x,
        fitted_layout(font, scale, position, pixels_to_units(max_width), text)[i].scale.y
            == scale.y,
{
    let width = layout_width(laid_out(font, scale, position, text));
    lemma_shrink_narrows(scale, width, max_width);
    lemma_layout_scale(
        font,
        fitted_scale(scale, width, pixels_to_units(max_width)),
        position,
        text,
        i,
    );
}

/// Whether column `x`, row `y` lies in the outline's bounding box.
pub open spec fn covered(ink: Ink, x: int, y: int) -> bool {
    ink.min_x <= x < ink.min_x + ink.width && ink.min_y <= y < ink.min_y + ink.height
}

/// The coverage of the outline at column `x`, row `y` of the canvas.
pub open spec fn coverage_at(ink: Ink, x: int, y: int) -> u8 {
    let index = (y - ink.min_y) * ink.width + (x - ink.min_x);
    if 0 <= index < ink.coverage.len() {
        ink.coverage[index]
    } else {
        0
    }
}

/// The pixels after one outline was blended in with the given colour.
pub open spec fn painted(raster: Map<(int, int), Color>, color: Color, ink: Ink) -> Map<
    (int, int),
    Color,
> {
    Map::total(
        |at: (int, int)|
            if covered(ink, at.0, at.1) {
                blended(raster[at], color, coverage_at(ink, at.0, at.1))
            } else {
                raster[at]
            },
    )
}

/// The pixels after the outlines of all the glyphs were blended in, in order.
pub open spec fn rendered<F: Font>(
    font: &F,
    raster: Map<(int, int), Color>,
    color: Color,
    glyphs: Seq<Glyph>,
) -> Map<(int, int), Color>
    decreases glyphs.len(),
{
    if glyphs.len() == 0 {
        raster
    } else {
        let before = rendered(font, raster, color, glyphs.drop_last());
        match font.outline_of(glyphs.last()) {
            Some(ink) => painted(before, color, ink),
            None => before,
        }
    }
}

/// Whether every pixel on the canvas is the one that `raster` has there.
pub open spec fn shows(canvas: Canvas, raster: Map<(int, int), Color>) -> bool {
    forall|x: int, y: int| on_canvas(canvas, x, y) ==> #[trigger] pixel_at(canvas, x, y) == raster[(x, y)]
}

/// Whether the sample at `(x, y)` comes before the sample `(lx, ly)` of the
/// outline in row-major order.
pub open spec fn visited(ink: Ink, x: int, y: int, lx: int, ly: int) -> bool {
    covered(ink, x, y) && (y - ink.min_y < ly || (y - ink.min_y == ly && x - ink.min_x < lx))
}

/// Blends one outline into the canvas. Samples off the canvas are skipped.
pub fn draw_outline(canvas: &mut Canvas, color: Color, outline: &Outline)
    ensures
        canvas_dims(*final(canvas)) == canvas_dims(*old(canvas)),
        shows(*final(canvas), painted(canvas_pixels(*old(canvas)), color, outline@)),
{
    let ghost before = canvas_pixels(*canvas);
    let ghost ink = outline@;
    let ghost after = painted(before, color, ink);
    let w = canvas.width();
    let h = canvas.height();
    let mut ly: u32 = 0;
    while ly < outline.height
        invariant
            ly <= outline.height,
            ink == outline@,
            after == painted(before, color, ink),
            canvas_dims(*canvas) == canvas_dims(*old(canvas)),
            w == canvas_dims(*canvas).0,
            h == canvas_dims(*canvas).1,
            forall|x: int, y: int|
                on_canvas(*canvas, x, y) ==> #[trigger] pixel_at(*canvas, x, y) == if visited(
                    ink,
                    x,
                    y,
                    0,
                    ly as int,
                ) {
                    after[(x, y)]
                } else {
                    before[(x, y)]
                },
        decreases outline.height - ly,
    {
        let mut lx: u32 = 0;
        while lx < outline.width
            invariant
                ly < outline.height,
                lx <= outline.width,
                ink == outline@,
                after == painted(before, color, ink),
                canvas_dims(*canvas) == canvas_dims(*old(canvas)),
                w == canvas_dims(*canvas).0,
                h == canvas_dims(*canvas).1,
                forall|x: int, y: int|
                    on_canvas(*canvas, x, y) ==> #[trigger] pixel_at(*canvas, x, y) == if visited(
                        ink,
                        x,
                        y,
                        lx as int,
                        ly as int,
                    ) {
                        after[(x, y)]
                    } else {
                        before[(x, y)]
                    },
            decreases outline.width - lx,
        {
            let px: i64 = outline.min_x as i64 + lx as i64;
            let py: i64 = outline.min_y as i64 + ly as i64;
            let ghost earlier = *canvas;
            if 0 <= px && px < w as i64 && 0 <= py && py < h as i64 {
                assert(ly * outline.width <= 0xffff_ffff * 0xffff_ffff) by (nonlinear_arith)
                    requires
                        0 <= ly <= 0xffff_ffff,
                        0 <= outline.width <= 0xffff_ffff,
                ;
                let index: u64 = ly as u64 * outline.width as u64 + lx as u64;
                if index < outline.coverage.len() as u64 {
                    let v = outline.coverage[index as usize];
                    let under = buffer_get(canvas, px as u32, py as u32);
                    buffer_put(canvas, px as u32, py as u32, blend(under, color, v));
                    assert(coverage_at(ink, px as int, py as int) == v);
                } else {
                    proof {
                        assert(coverage_at(ink, px as int, py as int) == 0);
                        lemma_blend_endpoints(before[(px as int, py as int)], color);
                    }
                }
            }
            lx += 1;
            assert forall|x: int, y: int| on_canvas(*canvas, x, y) implies #[trigger] pixel_at(
                *canvas,
                x,
                y,
            ) == if visited(ink, x, y, lx as int, ly as int) {
                after[(x, y)]
            } else {
                before[(x, y)]
            } by {
                assert(on_canvas(earlier, x, y));
                let was = pixel_at(earlier, x, y);
                if x == px && y == py {
                    assert(visited(ink, x, y, lx as int, ly as int));
                    assert(!visited(ink, x, y, lx - 1, ly as int));
                } else {
                    assert(pixel_at(*canvas, x, y) == was);
                    assert(visited(ink, x, y, lx as int, ly as int) == visited(
                        ink,
                        x,
                        y,
                        lx - 1,
                        ly as int,
                    ));
                }
            }
        }
        ly += 1;
        assert forall|x: int, y: int| on_canvas(*canvas, x, y) implies #[trigger] pixel_at(
            *canvas,
            x,
            y,
        ) == if visited(ink, x, y, 0, ly as int) {
            after[(x, y)]
        } else {
            before[(x, y)]
        } by {
            assert(visited(ink, x, y, 0, ly as int) == visited(
                ink,
                x,
                y,
                outline.width as int,
                ly - 1,
            ));
        }
    }
    assert forall|x: int, y: int| on_canvas(*canvas, x, y) implies #[trigger] pixel_at(
        *canvas,
        x,
        y,
    ) == after[(x, y)] by {
        if !covered(ink, x, y) {
            assert(!visited(ink, x, y, 0, ly as int));
        } else {
            assert(visited(ink, x, y, 0, ly as int));
        }
    }
}

/// Blends the outline of every glyph into the canvas, in order. A glyph
/// without an outline writes nothing.
pub fn draw_glyphs<F: Font>(canvas: &mut Canvas, color: Color, font: &F, glyphs: &Vec<Glyph>)
    ensures
        canvas_dims(*final(canvas)) == canvas_dims(*old(canvas)),
        shows(*final(canvas), rendered(font, canvas_pixels(*old(canvas)), color, glyphs@)),
{
    let ghost before = canvas_pixels(*canvas);
    let mut i: usize = 0;
    while i < glyphs.len()
        invariant
            i <= glyphs.len(),
            canvas_dims(*canvas) == canvas_dims(*old(canvas)),
            shows(*canvas, rendered(font, before, color, glyphs@.take(i as int))),
        decreases glyphs.len() - i,
    {
        let glyph = glyphs[i];
        let ghost earlier = *canvas;
        let ghost so_far = rendered(font, before, color, glyphs@.take(i as int));
        proof {
            assert(glyphs@.take(i + 1).drop_last() == glyphs@.take(i as int));
            assert(glyphs@.take(i + 1).last() == glyph);
        }
        if let Some(outline) = font.outline_glyph(glyph) {
            draw_outline(canvas, color, &outline);
            proof {
                let next = painted(so_far, color, outline@);
                assert forall|x: int, y: int| on_canvas(*canvas, x, y) implies #[trigger] pixel_at(
                    *canvas,
                    x,
                    y,
                ) == next[(x, y)] by {
                    assert(on_canvas(earlier, x, y));
                    assert(pixel_at(earlier, x, y) == so_far[(x, y)]);
                }
            }
        }
        i += 1;
    }
    proof {
        assert(glyphs@.take(glyphs.len() as int) == glyphs@);
    }
}

/// Where the paragraph starts: the pixel `(x, y)` in sub-pixel units.
pub open spec fn origin(x: u32, y: u32) -> Point {
    Point { x: pixels_to_units(x) as i64, y: pixels_to_units(y) as i64 }
}

/// Draws `text` in `color` onto the canvas, with the top left of the first
/// line at pixel `(x, y)`, compressed horizontally once if its layout is
/// wider than `max_width` pixels. A text without any glyph is refused and
/// the canvas left as it was.
pub fn draw_text_mut<F: Font>(
    canvas: &mut Canvas,
    color: Color,
    x: u32,
    y: u32,
    scale: Scale,
    max_width: u32,
    font: &F,
    text: &str,
) -> (done: Result<(), EmptyRenderableText>)
    ensures
        canvas_dims(*final(canvas)) == canvas_dims(*old(canvas)),
        done.is_err() <==> laid_out(font, scale, origin(x, y), text@).len() == 0,
        done.is_err() ==> *final(canvas) == *old(canvas),
        done.is_ok() ==> shows(
            *final(canvas),
            rendered(
                font,
                canvas_pixels(*old(canvas)),
                color,
                fitted_layout(font, scale, origin(x, y), pixels_to_units(max_width), text@),
            ),
        ),
{
    let position = Point { x: units_of_pixels(x), y: units_of_pixels(y) };
    let scaled_font = ScaledFont::new(font, scale);
    let mut glyphs: Vec<Glyph> = Vec::new();
    layout_paragraph(&scaled_font, position, text, &mut glyphs);
    assert(glyphs@ == laid_out(font, scale, position, text@));
    if glyphs.len() == 0 {
        return Err(EmptyRenderableText);
    }
    let last_glyph = glyphs[glyphs.len() - 1];
    let actual_width = add_lengths(last_glyph.position.x, last_glyph.scale.x);
    if actual_width > units_of_pixels(max_width) {
        let new_scale = fit_scale(scale, actual_width, max_width);
        glyphs.clear();
        let rescaled_font = ScaledFont::new(font, new_scale);
        layout_paragraph(&rescaled_font, position, text, &mut glyphs);
        assert(glyphs@ == laid_out(font, new_scale, position, text@));
    }
    draw_glyphs(canvas, color, font, &glyphs);
    Ok(())
}

/// Draws `text` onto a copy of `image` and returns the copy; `image` itself
/// is left as it was.
pub fn draw_text<F: Font>(
    image: &Canvas,
    color: Color,
    x: u32,
    y: u32,
    scale: Scale,
    max_width: u32,
    font: &F,
    text: &str,
) -> (drawn: Result<Canvas, EmptyRenderableText>)
    ensures
        drawn.is_err() <==> laid_out(font, scale, origin(x, y), text@).len() == 0,
        drawn matches Ok(out) ==> canvas_dims(out) == canvas_dims(*image) && shows(
            out,
            rendered(
                font,
                canvas_pixels(*image),
                color,
                fitted_layout(font, scale, origin(x, y), pixels_to_units(max_width), text@),
            ),
        ),
{
    let mut out = image.duplicate();
    match draw_text_mut(&mut out, color, x, y, scale, max_width, font, text) {
        Ok(()) => Ok(out),
        Err(e) => Err(e),
    }
}

/// Whether column `x`, row `y` lies in the bounding box of some glyph's
/// outline.
pub open spec fn in_some_box<F: Font>(font: &F, glyphs: Seq<Glyph>, x: int, y: int) -> bool {
    exists|i: int|
        0 <= i < glyphs.len() && inked(font, #[trigger] glyphs[i], x, y)
}

/// Whether the glyph has an outline whose bounding box holds `(x, y)`.
pub open spec fn inked<F: Font>(font: &F, glyph: Glyph, x: int, y: int) -> bool {
    match font.outline_of(glyph) {
        Some(ink) => covered(ink, x, y),
        None => false,
    }
}

/// Whether every sample in the outline's bounding box is fully covered.
pub open spec fn solid(ink: Ink) -> bool {
    forall|x: int, y: int| covered(ink, x, y) ==> #[trigger] coverage_at(ink, x, y) == 255
}

/// Whether the glyph has no outline or a solid one.
pub open spec fn solid_glyph<F: Font>(font: &F, glyph: Glyph) -> bool {
    match font.outline_of(glyph) {
        Some(ink) => solid(ink),
        None => true,
    }
}

/// Whether every outline of the glyphs is solid.
pub open spec fn all_solid<F: Font>(font: &F, glyphs: Seq<Glyph>) -> bool {
    forall|i: int| 0 <= i < glyphs.len() ==> solid_glyph(font, #[trigger] glyphs[i])
}

proof fn lemma_box_of_front<F: Font>(font: &F, glyphs: Seq<Glyph>, x: int, y: int)
    requires
        glyphs.len() > 0,
    ensures
        in_some_box(font, glyphs, x, y) == (in_some_box(font, glyphs.drop_last(), x, y) || inked(
            font,
            glyphs.last(),
            x,
            y,
        )),
{
    let front = glyphs.drop_last();
    if in_some_box(font, front, x, y) {
        let i = choose|i: int| 0 <= i < front.len() && inked(font, #[trigger] front[i], x, y);
        assert(glyphs[i] == front[i]);
    }
    if inked(font, glyphs.last(), x, y) {
        assert(glyphs[glyphs.len() - 1] == glyphs.last());
    }
    if in_some_box(font, glyphs, x, y) {
        let i = choose|i: int| 0 <= i < glyphs.len() && inked(font, #[trigger] glyphs[i], x, y);
        if i < front.len() {
            assert(glyphs[i] == front[i]);
        }
    }
}

/// Rendering leaves every pixel outside all the glyphs' bounding boxes as it
/// was.
pub proof fn lemma_untouched_outside_boxes<F: Font>(
    font: &F,
    raster: Map<(int, int), Color>,
    color: Color,
    glyphs: Seq<Glyph>,
    x: int,
    y: int,
)
    requires
        !in_some_box(font, glyphs, x, y),
    ensures
        rendered(font, raster, color, glyphs)[(x, y)] == raster[(x, y)],
    decreases glyphs.len(),
{
    if glyphs.len() > 0 {
        lemma_box_of_front(font, glyphs, x, y);
        lemma_untouched_outside_boxes(font, raster, color, glyphs.drop_last(), x, y);
    }
}

/// A canvas that shows the rendering of `glyphs` over `image` has, at every
/// place outside all the glyphs' bounding boxes, the pixel that `image` has
/// there.
pub proof fn lemma_drawn_canvas_keeps_outside<F: Font>(
    font: &F,
    image: Canvas,
    drawn: Canvas,
    color: Color,
    glyphs: Seq<Glyph>,
    x: int,
    y: int,
)
    requires
        canvas_dims(drawn) == canvas_dims(image),
        shows(drawn, rendered(font, canvas_pixels(image), color, glyphs)),
        on_canvas(image, x, y),
        !in_some_box(font, glyphs, x, y),
    ensures
        pixel_at(drawn, x, y) == pixel_at(image, x, y),
{
    lemma_untouched_outside_boxes(font, canvas_pixels(image), color, glyphs, x, y);
    assert(on_canvas(drawn, x, y));
}

/// With full coverage everywhere, rendering overwrites: a pixel in some
/// glyph's bounding box becomes the colour, and every other pixel stays.
pub proof fn lemma_solid_render_overwrites<F: Font>(
    font: &F,
    raster: Map<(int, int), Color>,
    color: Color,
    glyphs: Seq<Glyph>,
    x: int,
    y: int,
)
    requires
        all_solid(font, glyphs),
    ensures
        rendered(font, raster, color, glyphs)[(x, y)] == if in_some_box(font, glyphs, x, y) {
            color
        } else {
            raster[(x, y)]
        },
    decreases glyphs.len(),
{
    if glyphs.len() > 0 {
        let front = glyphs.drop_last();
        lemma_box_of_front(font, glyphs, x, y);
        assert(all_solid(font, front)) by {
            assert forall|i: int| 0 <= i < front.len() implies solid_glyph(
                font,
                #[trigger] front[i],
            ) by {
                assert(glyphs[i] == front[i]);
            }
        }
        lemma_solid_render_overwrites(font, raster, color, front, x, y);
        if inked(font, glyphs.last(), x, y) {
            assert(glyphs[glyphs.len() - 1] == glyphs.last());
            lemma_blend_endpoints(rendered(font, raster, color, front)[(x, y)], color);
        }
    }
}

/// Idempotence: with full coverage everywhere, rendering the same glyphs in
/// the same colour a second time changes no pixel.
pub proof fn lemma_solid_render_twice<F: Font>(
    font: &F,
    raster: Map<(int, int), Color>,
    color: Color,
    glyphs: Seq<Glyph>,
    x: int,
    y: int,
)
    requires
        all_solid(font, glyphs),
    ensures
        rendered(font, rendered(font, raster, color, glyphs), color, glyphs)[(x, y)] == rendered(
            font,
            raster,
            color,
            glyphs,
        )[(x, y)],
{
    let once = rendered(font, raster, color, glyphs);
    lemma_solid_render_overwrites(font, raster, color, glyphs, x, y);
    lemma_solid_render_overwrites(font, once, color, glyphs, x, y);
}


} // verus!
