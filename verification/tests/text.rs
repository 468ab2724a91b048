use textdraw::blend::{blend, blend_channel, Color, FULL_COVERAGE};
use textdraw::canvas::Canvas;
use textdraw::font::{Font, Ink, Outline, ScaledFont};
use textdraw::layout::{advance_caret, is_control, layout_paragraph, Caret};
use textdraw::render::{
    draw_glyphs, draw_outline, draw_text, draw_text_mut, fit_scale, EmptyRenderableText,
};
use textdraw::units::{add_lengths, units_of_pixels, Glyph, Point, Scale, SUBPIXELS};

const A: u16 = 65;
const V: u16 = 86;
const SPACE: u16 = 32;

/// A font of plain boxes: every glyph advances by three quarters of the
/// horizontal scale, "AV" kerns, and a space has no outline.
struct BoxFont {
    coverage: u8,
}

impl Font for BoxFont {
    fn glyph_id_of(&self, _c: char) -> u16 {
        unreachable!()
    }

    fn ascent_of(&self, _scale: Scale) -> i64 {
        unreachable!()
    }

    fn height_of(&self, _scale: Scale) -> i64 {
        unreachable!()
    }

    fn line_gap_of(&self, _scale: Scale) -> i64 {
        unreachable!()
    }

    fn h_advance_of(&self, _scale: Scale, _id: u16) -> i64 {
        unreachable!()
    }

    fn kern_of(&self, _scale: Scale, _first: u16, _second: u16) -> i64 {
        unreachable!()
    }

    fn outline_of(&self, _glyph: Glyph) -> Option<Ink> {
        unreachable!()
    }

    fn glyph_id(&self, c: char) -> u16 {
        (c as u32 & 0xffff) as u16
    }

    fn ascent(&self, scale: Scale) -> i64 {
        scale.y * 3 / 4
    }

    fn height(&self, scale: Scale) -> i64 {
        scale.y
    }

    fn line_gap(&self, scale: Scale) -> i64 {
        scale.y / 4
    }

    fn h_advance(&self, scale: Scale, _id: u16) -> i64 {
        scale.x * 3 / 4
    }

    fn kern(&self, scale: Scale, first: u16, second: u16) -> i64 {
        if first == A && second == V {
            -(scale.x / 8)
        } else {
            0
        }
    }

    fn outline_glyph(&self, glyph: Glyph) -> Option<Outline> {
        if glyph.id == SPACE {
            return None;
        }
        let width = (glyph.scale.x / 2 / SUBPIXELS) as u32;
        let height = (glyph.scale.y * 3 / 4 / SUBPIXELS) as u32;
        Some(Outline {
            min_x: (glyph.position.x / SUBPIXELS) as i32,
            min_y: (glyph.position.y / SUBPIXELS) as i32 - height as i32,
            width,
            height,
            coverage: vec![self.coverage; (width * height) as usize],
        })
    }
}

const SOLID: BoxFont = BoxFont { coverage: FULL_COVERAGE };

const BLUE: Color = Color { r: 0, g: 0, b: 255, a: 255 };
const CLEAR: Color = Color { r: 0, g: 0, b: 0, a: 0 };

fn blank(width: u32, height: u32) -> Canvas {
    Canvas::new(width, height).unwrap()
}

fn at(canvas: &Canvas, x: u32, y: u32) -> Color {
    canvas.get_pixel(x, y).unwrap()
}

fn px(n: i64) -> i64 {
    n * SUBPIXELS
}

fn layout(font: &BoxFont, scale: Scale, position: Point, text: &str) -> Vec<Glyph> {
    let mut glyphs = Vec::new();
    layout_paragraph(&ScaledFont::new(font, scale), position, text, &mut glyphs);
    glyphs
}

fn same_pixels(a: &Canvas, b: &Canvas) -> bool {
    if a.width() != b.width() || a.height() != b.height() {
        return false;
    }
    for y in 0..a.height() {
        for x in 0..a.width() {
            if at(&a, x, y) != at(&b, x, y) {
                return false;
            }
        }
    }
    true
}

fn count_pixels(canvas: &Canvas, color: Color) -> u32 {
    let mut n = 0;
    for y in 0..canvas.height() {
        for x in 0..canvas.width() {
            if at(&canvas, x, y) == color {
                n += 1;
            }
        }
    }
    n
}

#[test]
fn blend_full_coverage_gives_the_ink() {
    let under = Color { r: 10, g: 20, b: 30, a: 40 };
    assert_eq!(blend(under, BLUE, FULL_COVERAGE), BLUE);
}

#[test]
fn blend_no_coverage_keeps_the_pixel() {
    let under = Color { r: 10, g: 20, b: 30, a: 40 };
    assert_eq!(blend(under, BLUE, 0), under);
}

#[test]
fn blend_intermediate_coverage_interpolates() {
    assert_eq!(blend_channel(100, 200, 51), 120);
    assert_eq!(blend_channel(200, 100, 51), 180);
    assert_eq!(blend_channel(0, 255, 128), 128);
    assert_eq!(blend_channel(0, 255, 1), 1);
    assert_eq!(blend_channel(255, 0, 254), 1);
    assert_eq!(blend_channel(0, 1, 254), 0);
    let under = Color { r: 100, g: 0, b: 255, a: 7 };
    let ink = Color { r: 200, g: 255, b: 255, a: 7 };
    assert_eq!(blend(under, ink, 51), Color { r: 120, g: 51, b: 255, a: 7 });
}

#[test]
fn control_characters_are_the_two_ranges() {
    assert!(is_control('\u{0}'));
    assert!(is_control('\n'));
    assert!(is_control('\u{1f}'));
    assert!(!is_control(' '));
    assert!(!is_control('~'));
    assert!(is_control('\u{7f}'));
    assert!(is_control('\u{9f}'));
    assert!(!is_control('\u{a0}'));
    for code in 0u32..0x3000 {
        if let Some(c) = char::from_u32(code) {
            assert_eq!(is_control(c), c.is_control());
        }
    }
}

#[test]
fn lengths_saturate() {
    assert_eq!(add_lengths(3, 4), 7);
    assert_eq!(add_lengths(i64::MAX, 1), i64::MAX);
    assert_eq!(add_lengths(i64::MIN, -1), i64::MIN);
    assert_eq!(add_lengths(i64::MAX, i64::MIN), -1);
    assert_eq!(units_of_pixels(0), 0);
    assert_eq!(units_of_pixels(200), 12800);
    assert_eq!(units_of_pixels(u32::MAX), 4294967295 * 64);
}

#[test]
fn layout_places_glyphs_on_the_baseline() {
    let scale = Scale { x: px(16), y: px(8) };
    let glyphs = layout(&SOLID, scale, Point { x: px(10), y: px(20) }, "ab");
    assert_eq!(
        glyphs,
        vec![
            Glyph { id: 97, scale, position: Point { x: px(10), y: px(26) } },
            Glyph { id: 98, scale, position: Point { x: px(22), y: px(26) } },
        ]
    );
}

#[test]
fn layout_applies_kerning_between_neighbours() {
    let scale = Scale { x: px(16), y: px(8) };
    let glyphs = layout(&SOLID, scale, Point { x: 0, y: 0 }, "AVA");
    assert_eq!(glyphs.len(), 3);
    assert_eq!(glyphs[0].position.x, 0);
    assert_eq!(glyphs[1].position.x, px(12) - px(2));
    assert_eq!(glyphs[2].position.x, px(22));
}

#[test]
fn layout_skips_other_control_characters() {
    let scale = Scale { x: px(16), y: px(8) };
    let with_tab = layout(&SOLID, scale, Point { x: 0, y: 0 }, "A\tV\u{7f}");
    let without = layout(&SOLID, scale, Point { x: 0, y: 0 }, "AV");
    assert_eq!(with_tab, without);
    assert_eq!(with_tab[1].position.x, px(10));
}

#[test]
fn layout_newline_starts_a_second_line() {
    let scale = Scale { x: px(16), y: px(8) };
    let position = Point { x: px(5), y: px(1) };
    let glyphs = layout(&SOLID, scale, position, "AV\nAV");
    assert_eq!(glyphs.len(), 4);
    assert_eq!(glyphs[0].position.x, glyphs[2].position.x);
    assert_eq!(glyphs[0].position.x, px(5));
    let v_advance = SOLID.height(scale) + SOLID.line_gap(scale);
    assert_eq!(v_advance, px(10));
    assert_eq!(glyphs[2].position.y - glyphs[0].position.y, v_advance);
    assert_eq!(glyphs[3].position.y, glyphs[2].position.y);
    // the second line is laid out like the first: kerning starts afresh
    assert_eq!(glyphs[3].position.x, glyphs[1].position.x);
}

#[test]
fn layout_newline_clears_the_previous_glyph() {
    let scale = Scale { x: px(16), y: px(8) };
    let glyphs = layout(&SOLID, scale, Point { x: 0, y: 0 }, "A\nV");
    assert_eq!(glyphs[1].position, Point { x: 0, y: px(16) });
}

#[test]
fn layout_appends_to_the_target() {
    let scale = Scale { x: px(16), y: px(8) };
    let font = ScaledFont::new(&SOLID, scale);
    let mut target = Vec::new();
    layout_paragraph(&font, Point { x: 0, y: 0 }, "ab", &mut target);
    layout_paragraph(&font, Point { x: px(100), y: 0 }, "c", &mut target);
    assert_eq!(target.len(), 3);
    assert_eq!(target[0].id, 97);
    assert_eq!(target[2], Glyph { id: 99, scale, position: Point { x: px(100), y: px(6) } });
}

#[test]
fn layout_has_one_glyph_for_each_visible_character() {
    let scale = Scale { x: px(16), y: px(8) };
    let text = "a b\n\tc\u{85}d\r\n";
    let glyphs = layout(&SOLID, scale, Point { x: 0, y: 0 }, text);
    assert_eq!(glyphs.len(), text.chars().filter(|c| !c.is_control()).count());
    assert_eq!(glyphs.len(), 5);
    assert!(glyphs.iter().all(|g| g.scale == scale));
    assert!(layout(&SOLID, scale, Point { x: 0, y: 0 }, "").is_empty());
}

#[test]
fn caret_moves_by_kerning_and_advance() {
    let scale = Scale { x: px(16), y: px(8) };
    let font = ScaledFont::new(&SOLID, scale);
    let position = Point { x: px(3), y: 0 };
    let caret = Caret { at: Point { x: px(40), y: px(6) }, last: Some(A) };
    let (next, glyph) = advance_caret(&font, position, caret, 'V');
    assert_eq!(glyph, Some(Glyph { id: V, scale, position: Point { x: px(38), y: px(6) } }));
    assert_eq!(next, Caret { at: Point { x: px(50), y: px(6) }, last: Some(V) });
    let (next, glyph) = advance_caret(&font, position, caret, '\n');
    assert_eq!(glyph, None);
    assert_eq!(next, Caret { at: Point { x: px(3), y: px(16) }, last: None });
    let (next, glyph) = advance_caret(&font, position, caret, '\r');
    assert_eq!(glyph, None);
    assert_eq!(next, caret);
}

#[test]
fn scaled_font_answers_at_its_scale() {
    let scale = Scale { x: px(16), y: px(8) };
    let font = ScaledFont::new(&SOLID, scale);
    assert_eq!(font.ascent(), px(6));
    assert_eq!(font.height(), px(8));
    assert_eq!(font.line_gap(), px(2));
    assert_eq!(font.h_advance(A), px(12));
    assert_eq!(font.kern(A, V), -px(2));
    assert_eq!(font.kern(V, A), 0);
    assert_eq!(font.scaled_glyph('A'), Glyph { id: A, scale, position: Point { x: 0, y: 0 } });
}

#[test]
fn fit_scale_keeps_a_text_that_fits() {
    let scale = Scale { x: 1587, y: 794 };
    assert_eq!(fit_scale(scale, 12800, 200), scale);
    assert_eq!(fit_scale(scale, 100, 200), scale);
    assert_eq!(fit_scale(scale, 0, 0), scale);
    assert_eq!(fit_scale(scale, -5, 0), scale);
    assert_eq!(fit_scale(scale, i64::MIN, 0), scale);
}

#[test]
fn fit_scale_narrows_and_keeps_the_height() {
    let scale = Scale { x: 1587, y: 794 };
    let fitted = fit_scale(scale, 15867, 200);
    assert_eq!(fitted, Scale { x: 1280, y: 794 });
    assert!(fitted.x < scale.x);
    assert_eq!(fit_scale(scale, 12801, 200), Scale { x: 1586, y: 794 });
    assert_eq!(fit_scale(Scale { x: 1000, y: 7 }, 192, 2), Scale { x: 666, y: 7 });
    assert_eq!(fit_scale(Scale { x: -1000, y: 7 }, 192, 2), Scale { x: -666, y: 7 });
    assert_eq!(fit_scale(Scale { x: 1000, y: 7 }, 3, 0), Scale { x: 0, y: 7 });
    assert_eq!(fit_scale(Scale { x: 1, y: -7 }, 192, 2), Scale { x: 0, y: -7 });
    let limit = u32::MAX as u128 * 64;
    assert_eq!(
        fit_scale(Scale { x: i64::MIN, y: 0 }, i64::MAX, u32::MAX).x,
        -(((1u128 << 63) * limit / i64::MAX as u128) as i64)
    );
    assert_eq!(
        fit_scale(Scale { x: i64::MAX, y: 0 }, i64::MAX, u32::MAX).x,
        (i64::MAX as u128 * limit / i64::MAX as u128) as i64
    );
}

#[test]
fn hello_world_is_fitted_to_the_width() {
    let scale = Scale { x: 1587, y: 794 };
    let position = Point { x: 0, y: 0 };
    let natural = layout(&SOLID, scale, position, "Hello, world!");
    assert_eq!(natural.len(), 13);
    let last = natural[12];
    let natural_width = add_lengths(last.position.x, last.scale.x);
    assert_eq!(natural_width, 12 * 1190 + 1587);
    assert!(natural_width > units_of_pixels(200));
    let fitted = fit_scale(scale, natural_width, 200);
    assert_eq!(fitted.y, scale.y);
    let corrected = layout(&SOLID, fitted, position, "Hello, world!");
    let last = corrected[12];
    let corrected_width = add_lengths(last.position.x, last.scale.x);
    assert!(corrected_width <= units_of_pixels(200));
    assert!(units_of_pixels(200) - corrected_width < SUBPIXELS);

    let mut canvas = blank(200, 200);
    assert_eq!(draw_text_mut(&mut canvas, BLUE, 0, 0, scale, 200, &SOLID, "Hello, world!"), Ok(()));
    let mut expected = blank(200, 200);
    draw_glyphs(&mut expected, BLUE, &SOLID, &corrected);
    assert!(same_pixels(&canvas, &expected));
    // twelve boxes of ten by nine pixels, none of which overlap; the space has none
    assert_eq!(count_pixels(&canvas, BLUE), 12 * 10 * 9);
    assert_eq!(at(&canvas, 0, 0), BLUE);
    assert_eq!(at(&canvas, 9, 8), BLUE);
    assert_eq!(at(&canvas, 10, 0), CLEAR);
    assert_eq!(at(&canvas, 0, 9), CLEAR);
    assert_eq!(at(&canvas, 15, 0), BLUE);
}

#[test]
fn text_that_fits_is_drawn_in_a_single_pass() {
    let scale = Scale { x: px(16), y: px(8) };
    let mut canvas = blank(64, 32);
    assert_eq!(draw_text_mut(&mut canvas, BLUE, 2, 3, scale, 64, &SOLID, "abc"), Ok(()));
    let glyphs = layout(&SOLID, scale, Point { x: px(2), y: px(3) }, "abc");
    assert_eq!(add_lengths(glyphs[2].position.x, glyphs[2].scale.x), px(42));
    let mut expected = blank(64, 32);
    draw_glyphs(&mut expected, BLUE, &SOLID, &glyphs);
    assert!(same_pixels(&canvas, &expected));
    assert_eq!(count_pixels(&canvas, BLUE), 3 * 8 * 6);
    // exactly at the limit there is no second pass either
    let mut at_limit = blank(64, 32);
    assert_eq!(draw_text_mut(&mut at_limit, BLUE, 2, 3, scale, 42, &SOLID, "abc"), Ok(()));
    assert!(same_pixels(&at_limit, &expected));
    // one pixel less and the text is compressed
    let mut narrower = blank(64, 32);
    assert_eq!(draw_text_mut(&mut narrower, BLUE, 2, 3, scale, 41, &SOLID, "abc"), Ok(()));
    assert!(!same_pixels(&narrower, &expected));
}

#[test]
fn draw_text_leaves_the_input_and_the_outside_alone() {
    let scale = Scale { x: px(16), y: px(8) };
    let mut image = blank(40, 20);
    let marked = Color { r: 9, g: 8, b: 7, a: 6 };
    image.draw_pixel(39, 19, marked);
    image.draw_pixel(4, 4, marked);
    let copy = image.duplicate();
    let drawn = draw_text(&image, BLUE, 4, 2, scale, 44, &SOLID, "a b").unwrap();
    assert!(same_pixels(&image, &copy));
    assert_eq!((drawn.width(), drawn.height()), (40, 20));
    // boxes: columns 4..12 and 28..36, rows 2..8
    for y in 0..20 {
        for x in 0..40 {
            let inside = (2..8).contains(&y) && ((4..12).contains(&x) || (28..36).contains(&x));
            let expected = if inside { BLUE } else { at(&image, x, y) };
            assert_eq!(at(&drawn, x, y), expected);
        }
    }
    assert_eq!(at(&drawn, 39, 19), marked);
    assert_eq!(at(&drawn, 4, 4), BLUE);
}

#[test]
fn a_single_space_writes_no_pixel() {
    let scale = Scale { x: px(16), y: px(8) };
    let glyphs = layout(&SOLID, scale, Point { x: 0, y: 0 }, " ");
    assert_eq!(glyphs, vec![Glyph { id: SPACE, scale, position: Point { x: 0, y: px(6) } }]);
    let mut canvas = blank(32, 16);
    canvas.draw_pixel(1, 1, BLUE);
    let before = canvas.duplicate();
    let red = Color { r: 255, g: 0, b: 0, a: 255 };
    assert_eq!(draw_text_mut(&mut canvas, red, 0, 0, scale, 32, &SOLID, " "), Ok(()));
    assert!(same_pixels(&canvas, &before));
}

#[test]
fn text_without_glyphs_is_refused() {
    let scale = Scale { x: px(16), y: px(8) };
    let mut canvas = blank(32, 16);
    canvas.draw_pixel(1, 1, BLUE);
    let before = canvas.duplicate();
    assert_eq!(
        draw_text_mut(&mut canvas, BLUE, 0, 0, scale, 32, &SOLID, ""),
        Err(EmptyRenderableText)
    );
    assert_eq!(
        draw_text_mut(&mut canvas, BLUE, 0, 0, scale, 32, &SOLID, "\t\n\u{7f}"),
        Err(EmptyRenderableText)
    );
    assert!(same_pixels(&canvas, &before));
    assert!(matches!(
        draw_text(&canvas, BLUE, 0, 0, scale, 32, &SOLID, "\r"),
        Err(EmptyRenderableText)
    ));
}

#[test]
fn solid_text_drawn_twice_is_drawn_once() {
    let scale = Scale { x: px(16), y: px(8) };
    let mut once = blank(64, 32);
    once.draw_pixel(3, 3, Color { r: 1, g: 2, b: 3, a: 4 });
    let mut twice = once.duplicate();
    draw_text_mut(&mut once, BLUE, 1, 1, scale, 64, &SOLID, "AVA").unwrap();
    draw_text_mut(&mut twice, BLUE, 1, 1, scale, 64, &SOLID, "AVA").unwrap();
    draw_text_mut(&mut twice, BLUE, 1, 1, scale, 64, &SOLID, "AVA").unwrap();
    assert!(same_pixels(&once, &twice));
    assert_eq!(at(&once, 3, 3), BLUE);
}

#[test]
fn partial_coverage_blends_with_what_is_there() {
    let scale = Scale { x: px(16), y: px(8) };
    let font = BoxFont { coverage: 51 };
    let mut canvas = blank(16, 8);
    let under = Color { r: 100, g: 0, b: 255, a: 7 };
    for y in 0..8 {
        for x in 0..16 {
            canvas.draw_pixel(x, y, under);
        }
    }
    let ink = Color { r: 200, g: 255, b: 255, a: 7 };
    draw_text_mut(&mut canvas, ink, 0, 0, scale, 16, &font, "a").unwrap();
    assert_eq!(at(&canvas, 0, 0), Color { r: 120, g: 51, b: 255, a: 7 });
    assert_eq!(at(&canvas, 7, 5), Color { r: 120, g: 51, b: 255, a: 7 });
    assert_eq!(at(&canvas, 8, 5), under);
    assert_eq!(at(&canvas, 7, 6), under);
}

#[test]
fn outline_samples_are_read_row_by_row() {
    let mut canvas = blank(4, 4);
    let white = Color { r: 255, g: 255, b: 255, a: 255 };
    let outline = Outline { min_x: 1, min_y: 2, width: 3, height: 2, coverage: vec![0, 51, 102, 153, 204, 255] };
    draw_outline(&mut canvas, white, &outline);
    let grey = |v: u8| Color { r: v, g: v, b: v, a: v };
    assert_eq!(at(&canvas, 1, 2), grey(0));
    assert_eq!(at(&canvas, 2, 2), grey(51));
    assert_eq!(at(&canvas, 3, 2), grey(102));
    assert_eq!(at(&canvas, 1, 3), grey(153));
    assert_eq!(at(&canvas, 2, 3), grey(204));
    assert_eq!(at(&canvas, 3, 3), grey(255));
    assert_eq!(count_pixels(&canvas, CLEAR), 11);
}

#[test]
fn outline_off_the_canvas_is_clipped() {
    let mut canvas = blank(4, 3);
    let outline = Outline { min_x: -2, min_y: -1, width: 4, height: 3, coverage: vec![255; 12] };
    draw_outline(&mut canvas, BLUE, &outline);
    assert_eq!(count_pixels(&canvas, BLUE), 4);
    assert_eq!(at(&canvas, 0, 0), BLUE);
    assert_eq!(at(&canvas, 1, 1), BLUE);
    assert_eq!(at(&canvas, 2, 0), CLEAR);
    assert_eq!(at(&canvas, 0, 2), CLEAR);
    let far = Outline { min_x: 3, min_y: 2, width: 5, height: 5, coverage: vec![255; 25] };
    draw_outline(&mut canvas, BLUE, &far);
    assert_eq!(count_pixels(&canvas, BLUE), 5);
    assert_eq!(at(&canvas, 3, 2), BLUE);
    let away = Outline { min_x: i32::MAX, min_y: i32::MIN, width: 2, height: 2, coverage: vec![255; 4] };
    draw_outline(&mut canvas, BLUE, &away);
    assert_eq!(count_pixels(&canvas, BLUE), 5);
}

#[test]
fn missing_samples_count_as_no_ink() {
    let mut canvas = blank(2, 2);
    let outline = Outline { min_x: 0, min_y: 0, width: 2, height: 2, coverage: vec![255, 255, 255] };
    draw_outline(&mut canvas, BLUE, &outline);
    assert_eq!(at(&canvas, 0, 0), BLUE);
    assert_eq!(at(&canvas, 1, 0), BLUE);
    assert_eq!(at(&canvas, 0, 1), BLUE);
    assert_eq!(at(&canvas, 1, 1), CLEAR);
}

#[test]
fn canvas_refuses_what_is_off_it() {
    let mut canvas = blank(3, 2);
    assert_eq!(canvas.get_pixel(3, 0), None);
    assert_eq!(canvas.get_pixel(0, 2), None);
    assert_eq!(canvas.get_pixel(2, 1), Some(CLEAR));
    assert!(!canvas.draw_pixel(3, 1, BLUE));
    assert!(!canvas.draw_pixel(0, u32::MAX, BLUE));
    assert_eq!(count_pixels(&canvas, CLEAR), 6);
    assert!(canvas.draw_pixel(2, 1, BLUE));
    assert_eq!(count_pixels(&canvas, CLEAR), 5);
    assert!(Canvas::new(u32::MAX, u32::MAX).is_none());
    let empty = blank(0, 7);
    assert_eq!((empty.width(), empty.height()), (0, 7));
    assert_eq!(empty.get_pixel(0, 0), None);
}

#[test]
fn canvas_keeps_what_is_written() {
    let mut canvas = blank(3, 2);
    assert_eq!((canvas.width(), canvas.height()), (3, 2));
    assert_eq!(count_pixels(&canvas, CLEAR), 6);
    let p = Color { r: 1, g: 2, b: 3, a: 4 };
    canvas.draw_pixel(2, 1, p);
    assert_eq!(at(&canvas, 2, 1), p);
    assert_eq!(at(&canvas, 1, 1), CLEAR);
    assert_eq!(at(&canvas, 2, 0), CLEAR);
    let copy = canvas.duplicate();
    canvas.draw_pixel(0, 0, BLUE);
    assert_eq!(at(&copy, 0, 0), CLEAR);
    assert_eq!(at(&copy, 2, 1), p);
    assert_eq!((copy.width(), copy.height()), (3, 2));
}
