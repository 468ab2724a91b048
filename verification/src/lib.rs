//! Text rendering onto a raster image: single-line-aware paragraph layout with
//! kerning, one horizontal shrink-to-fit pass, and coverage blending.
//!
//! Lengths are integers in sub-pixel units (`SUBPIXELS` to a pixel); coverage
//! is an integer between 0 (no ink) and `FULL_COVERAGE` (solid ink).

pub mod blend;
pub mod canvas;
pub mod font;
pub mod layout;
pub mod render;
pub mod units;

pub use blend::{blend, blend_channel, Color, FULL_COVERAGE};
pub use canvas::Canvas;
pub use font::{Font, Outline, ScaledFont};
pub use layout::{is_control, layout_paragraph};
pub use render::{draw_glyphs, draw_outline, draw_text, draw_text_mut, fit_scale, EmptyRenderableText};
pub use units::{Glyph, Point, Scale, SUBPIXELS};
