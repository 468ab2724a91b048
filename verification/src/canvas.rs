//! The canvas: an RGBA image buffer of the `image` crate, read and written
//! one pixel at a time. Reads and writes off the canvas are refused, never
//! a panic.

use crate::blend::Color;
use vstd::prelude::*;

verus! {

/// A mutable pixel buffer, kept in an `image::RgbaImage`.
#[verifier::external_body]
pub struct Canvas {
    buffer: image::RgbaImage,
}

/// Width and height of a canvas, in pixels.
pub uninterp spec fn canvas_dims(canvas: Canvas) -> (nat, nat);

/// The pixels of a canvas, by column and row.
pub uninterp spec fn canvas_pixels(canvas: Canvas) -> Map<(int, int), Color>;

/// Whether column `x`, row `y` lies on the canvas.
pub open spec fn on_canvas(canvas: Canvas, x: int, y: int) -> bool {
    0 <= x < canvas_dims(canvas).0 && 0 <= y < canvas_dims(canvas).1
}

/// The pixel at column `x`, row `y`.
pub open spec fn pixel_at(canvas: Canvas, x: int, y: int) -> Color {
    canvas_pixels(canvas)[(x, y)]
}

/// Whether a buffer of this size, at four bytes a pixel, can be allocated:
/// a vector holds at most `isize::MAX` bytes.
pub open spec fn fits_in_memory(width: u32, height: u32) -> bool {
    4 * (width * height) <= isize::MAX
}

/// `ImageBuffer::new`: a buffer of the given size whose channels are all
/// zero. It panics when the buffer's length in bytes is more than a vector
/// can hold, so the size must fit.
#[verifier::external_body]
fn buffer_new(width: u32, height: u32) -> (canvas: Canvas)
    requires
        fits_in_memory(width, height),
    ensures
        canvas_dims(canvas) == (width as nat, height as nat),
        forall|x: int, y: int|
            on_canvas(canvas, x, y) ==> #[trigger] pixel_at(canvas, x, y) == (Color {
                r: 0,
                g: 0,
                b: 0,
                a: 0,
            }),
{
    Canvas { buffer: image::RgbaImage::new(width, height) }
}

/// `ImageBuffer::width`: the width in pixels.
#[verifier::external_body]
fn buffer_width(canvas: &Canvas) -> (w: u32)
    ensures
        w == canvas_dims(*canvas).0,
{
    canvas.buffer.width()
}

/// `ImageBuffer::height`: the height in pixels.
#[verifier::external_body]
fn buffer_height(canvas: &Canvas) -> (h: u32)
    ensures
        h == canvas_dims(*canvas).1,
{
    canvas.buffer.height()
}

/// `ImageBuffer::get_pixel`: the four channels stored at column `x`, row
/// `y`. It panics off the image, so the coordinates must lie on it.
#[verifier::external_body]
pub(crate) fn buffer_get(canvas: &Canvas, x: u32, y: u32) -> (p: Color)
    requires
        on_canvas(*canvas, x as int, y as int),
    ensures
        p == pixel_at(*canvas, x as int, y as int),
{
    let p = canvas.buffer.get_pixel(x, y);
    Color { r: p.0[0], g: p.0[1], b: p.0[2], a: p.0[3] }
}

/// `ImageBuffer::put_pixel`: stores the four channels at column `x`, row
/// `y` and leaves the size and every other pixel as they were. It panics
/// off the image, so the coordinates must lie on it.
#[verifier::external_body]
pub(crate) fn buffer_put(canvas: &mut Canvas, x: u32, y: u32, p: Color)
    requires
        on_canvas(*old(canvas), x as int, y as int),
    ensures
        canvas_dims(*final(canvas)) == canvas_dims(*old(canvas)),
        canvas_pixels(*final(canvas)) == canvas_pixels(*old(canvas)).insert(
            (x as int, y as int),
            p,
        ),
{
    canvas.buffer.put_pixel(x, y, image::Rgba([p.r, p.g, p.b, p.a]));
}

/// `ImageBuffer::clone`: a second buffer of the same size with the same
/// pixels.
#[verifier::external_body]
fn buffer_clone(canvas: &Canvas) -> (copy: Canvas)
    ensures
        canvas_dims(copy) == canvas_dims(*canvas),
        canvas_pixels(copy) == canvas_pixels(*canvas),
{
    Canvas { buffer: canvas.buffer.clone() }
}

impl Canvas {
    /// A canvas of the given size with every channel zero, or `None` where
    /// a buffer of that size cannot be allocated.
    pub fn new(width: u32, height: u32) -> (canvas: Option<Canvas>)
        ensures
            canvas.is_some() <==> fits_in_memory(width, height),
            canvas matches Some(c) ==> canvas_dims(c) == (width as nat, height as nat) && forall|
                x: int,
                y: int,
            |
                on_canvas(c, x, y) ==> #[trigger] pixel_at(c, x, y) == (Color {
                    r: 0,
                    g: 0,
                    b: 0,
                    a: 0,
                }),
    {
        assert(0 <= width * height <= 0xffff_ffff * 0xffff_ffff) by (nonlinear_arith)
            requires
                0 <= width <= 0xffff_ffff,
                0 <= height <= 0xffff_ffff,
        ;
        let cells: u64 = width as u64 * height as u64;
        if cells <= isize::MAX as u64 / 4 {
            Some(buffer_new(width, height))
        } else {
            None
        }
    }

    /// The width in pixels.
    pub fn width(&self) -> (w: u32)
        ensures
            w == canvas_dims(*self).0,
    {
        buffer_width(self)
    }

    /// The height in pixels.
    pub fn height(&self) -> (h: u32)
        ensures
            h == canvas_dims(*self).1,
    {
        buffer_height(self)
    }

    /// The pixel at column `x`, row `y`, or `None` off the canvas.
    pub fn get_pixel(&self, x: u32, y: u32) -> (p: Option<Color>)
        ensures
            p == if on_canvas(*self, x as int, y as int) {
                Some(pixel_at(*self, x as int, y as int))
            } else {
                None
            },
    {
        if x < buffer_width(self) && y < buffer_height(self) {
            Some(buffer_get(self, x, y))
        } else {
            None
        }
    }

    /// Stores `p` at column `x`, row `y` and says so; off the canvas it
    /// writes nothing.
    pub fn draw_pixel(&mut self, x: u32, y: u32, p: Color) -> (drawn: bool)
        ensures
            drawn == on_canvas(*old(self), x as int, y as int),
            canvas_dims(*final(self)) == canvas_dims(*old(self)),
            drawn ==> canvas_pixels(*final(self)) == canvas_pixels(*old(self)).insert(
                (x as int, y as int),
                p,
            ),
            !drawn ==> *final(self) == *old(self),
    {
        if x < buffer_width(self) && y < buffer_height(self) {
            buffer_put(self, x, y, p);
            true
        } else {
            false
        }
    }

    /// A second canvas of the same size with the same pixels.
    pub fn duplicate(&self) -> (copy: Canvas)
        ensures
            canvas_dims(copy) == canvas_dims(*self),
            canvas_pixels(copy) == canvas_pixels(*self),
    {
        buffer_clone(self)
    }
}

} // verus!
