//! Paragraph layout: a caret walks the text from left to right and stamps
//! one glyph for each character that is no control character.

use crate::font::{Font, ScaledFont};
use crate::units::{add_lengths, saturate, Glyph, Point, Scale};
use vstd::prelude::*;

verus! {

/// The control characters: U+0000 to U+001F and U+007F to U+009F.
pub open spec fn control(c: char) -> bool {
    (c as u32) <= 0x1f || (0x7f <= (c as u32) && (c as u32) <= 0x9f)
}

/// Whether `c` is a control character.
pub fn is_control(c: char) -> (yes: bool)
    ensures
        yes == control(c),
{
    let code: u32 = c as u32;
    code <= 0x1f || (0x7f <= code && code <= 0x9f)
}

/// The running insertion point, and the glyph stamped last on this line.
#[derive(Clone, Copy, Debug, PartialEq, Eq)]
pub struct Caret {
    pub at: Point,
    pub last: Option<u16>,
}

/// The caret before any character: on the baseline of the first line.
pub open spec fn start_caret<F: Font>(font: &F, scale: Scale, position: Point) -> Caret {
    Caret {
        at: Point {
            x: position.x,
            y: saturate(position.y + font.ascent_of(scale)) as i64,
        },
        last: None,
    }
}

/// The distance between two baselines.
pub open spec fn line_advance<F: Font>(font: &F, scale: Scale) -> int {
    saturate(font.height_of(scale) + font.line_gap_of(scale))
}

/// The glyph stamped for a character `c` that is no control character:
/// at the caret, moved by the kerning against the glyph before it on the line.
pub open spec fn stamped<F: Font>(font: &F, scale: Scale, caret: Caret, c: char) -> Glyph {
    let id = font.glyph_id_of(c);
    let x = match caret.last {
        Some(previous) => saturate(caret.at.x + font.kern_of(scale, previous, id)),
        None => caret.at.x as int,
    };
    Glyph { id, scale, position: Point { x: x as i64, y: caret.at.y } }
}

/// The caret after one more character. A newline returns to the paragraph's
/// left edge one line further down, any other control character changes
/// nothing, and a visible character moves the caret by kerning and advance.
pub open spec fn step<F: Font>(
    font: &F,
    scale: Scale,
    position: Point,
    caret: Caret,
    c: char,
) -> Caret {
    if c == '\n' {
        Caret {
            at: Point {
                x: position.x,
                y: saturate(caret.at.y + line_advance(font, scale)) as i64,
            },
            last: None,
        }
    } else if control(c) {
        caret
    } else {
        let glyph = stamped(font, scale, caret, c);
        Caret {
            at: Point {
                x: saturate(glyph.position.x + font.h_advance_of(scale, glyph.id)) as i64,
                y: caret.at.y,
            },
            last: Some(glyph.id),
        }
    }
}

/// The caret after all of `text`.
pub open spec fn caret_after<F: Font>(
    font: &F,
    scale: Scale,
    position: Point,
    text: Seq<char>,
) -> Caret
    decreases text.len(),
{
    if text.len() == 0 {
        start_caret(font, scale, position)
    } else {
        step(font, scale, position, caret_after(font, scale, position, text.drop_last()), text.last())
    }
}

/// The glyphs of `text`, in the order of its characters.
pub open spec fn laid_out<F: Font>(
    font: &F,
    scale: Scale,
    position: Point,
    text: Seq<char>,
) -> Seq<Glyph>
    decreases text.len(),
{
    if text.len() == 0 {
        Seq::empty()
    } else {
        let before = laid_out(font, scale, position, text.drop_last());
        if control(text.last()) {
            before
        } else {
            before.push(
                stamped(
                    font,
                    scale,
                    caret_after(font, scale, position, text.drop_last()),
                    text.last(),
                ),
            )
        }
    }
}

/// A layout has one glyph for each character that is no control character.
pub proof fn lemma_layout_len<F: Font>(font: &F, scale: Scale, position: Point, text: Seq<char>)
    ensures
        laid_out(font, scale, position, text).len() == text.filter(|c: char| !control(c)).len(),
    decreases text.len(),
{
    reveal_with_fuel(Seq::filter, 2);
    if text.len() > 0 {
        lemma_layout_len(font, scale, position, text.drop_last());
    }
}

/// Every glyph of a layout carries the scale it was laid out at.
pub proof fn lemma_layout_scale<F: Font>(
    font: &F,
    scale: Scale,
    position: Point,
    text: Seq<char>,
    i: int,
)
    requires
        0 <= i < laid_out(font, scale, position, text).len(),
    ensures
        laid_out(font, scale, position, text)[i].scale == scale,
    decreases text.len(),
{
    if text.len() > 0 {
        let before = laid_out(font, scale, position, text.drop_last());
        if i < before.len() {
            lemma_layout_scale(font, scale, position, text.drop_last(), i);
        }
    }
}

/// A newline starts an independent line: the glyph of a visible character
/// right after it sits at the paragraph's left edge, one line advance below
/// the line before, whatever that line held.
pub proof fn lemma_glyph_after_newline<F: Font>(
    font: &F,
    scale: Scale,
    position: Point,
    text: Seq<char>,
    c: char,
)
    requires
        !control(c),
    ensures
        laid_out(font, scale, position, text.push('\n').push(c)).last().position == (Point {
            x: position.x,
            y: saturate(
                caret_after(font, scale, position, text).at.y + line_advance(font, scale),
            ) as i64,
        }),
{
    let line = text.push('\n');
    assert(line.drop_last() == text);
    assert(line.push(c).drop_last() == line);
    assert(caret_after(font, scale, position, line) == step(
        font,
        scale,
        position,
        caret_after(font, scale, position, text),
        '\n',
    ));
}

/// The caret follows the glyph stamped last on its line: that glyph is the
/// last of the layout, it sits on the caret's baseline, and the caret stands
/// one advance to its right.
pub proof fn lemma_caret_follows_last<F: Font>(
    font: &F,
    scale: Scale,
    position: Point,
    text: Seq<char>,
)
    requires
        caret_after(font, scale, position, text).last.is_some(),
    ensures
        laid_out(font, scale, position, text).len() > 0,
        caret_after(font, scale, position, text).last == Some(
            laid_out(font, scale, position, text).last().id,
        ),
        caret_after(font, scale, position, text).at.y == laid_out(
            font,
            scale,
            position,
            text,
        ).last().position.y,
        caret_after(font, scale, position, text).at.x == saturate(
            laid_out(font, scale, position, text).last().position.x + font.h_advance_of(
                scale,
                laid_out(font, scale, position, text).last().id,
            ),
        ),
    decreases text.len(),
{
    if text.len() > 0 {
        let c = text.last();
        if c != '\n' && control(c) {
            lemma_caret_follows_last(font, scale, position, text.drop_last());
        }
    }
}

/// Along a line the glyphs do not move left: where the advance of a glyph
/// plus the kerning against its successor is not negative, and the advance
/// does not run past the largest length, the successor stands on the same
/// baseline and no further left.
pub proof fn lemma_line_runs_rightwards<F: Font>(
    font: &F,
    scale: Scale,
    position: Point,
    text: Seq<char>,
    c: char,
)
    requires
        !control(c),
        caret_after(font, scale, position, text).last.is_some(),
        ({
            let previous = laid_out(font, scale, position, text).last();
            let advance = font.h_advance_of(scale, previous.id);
            let kerning = font.kern_of(scale, previous.id, font.glyph_id_of(c));
            advance + kerning >= 0 && previous.position.x + advance <= i64::MAX
        }),
    ensures
        laid_out(font, scale, position, text.push(c)).last().position.x >= laid_out(
            font,
            scale,
            position,
            text,
        ).last().position.x,
        laid_out(font, scale, position, text.push(c)).last().position.y == laid_out(
            font,
            scale,
            position,
            text,
        ).last().position.y,
{
    lemma_caret_follows_last(font, scale, position, text);
    assert(text.push(c).drop_last() == text);
}

/// Moves the caret over one character and returns the glyph stamped for it,
/// if any.
pub fn advance_caret<F: Font>(
    font: &ScaledFont<'_, F>,
    position: Point,
    caret: Caret,
    c: char,
) -> (moved: (Caret, Option<Glyph>))
    ensures
        moved.0 == step(font.font, font.scale, position, caret, c),
        moved.1 == if control(c) {
            None
        } else {
            Some(stamped(font.font, font.scale, caret, c))
        },
{
    if is_control(c) {
        if c == '\n' {
            let v_advance = add_lengths(font.height(), font.line_gap());
            let next = Caret {
                at: Point { x: position.x, y: add_lengths(caret.at.y, v_advance) },
                last: None,
            };
            (next, None)
        } else {
            (caret, None)
        }
    } else {
        let mut glyph = font.scaled_glyph(c);
        let mut at = caret.at;
        if let Some(previous) = caret.last {
            at.x = add_lengths(at.x, font.kern(previous, glyph.id));
        }
        glyph.position = at;
        let next = Caret {
            at: Point { x: add_lengths(at.x, font.h_advance(glyph.id)), y: at.y },
            last: Some(glyph.id),
        };
        (next, Some(glyph))
    }
}

/// Lays `text` out from `position` and appends its glyphs to `target`, which
/// is not cleared first.
pub fn layout_paragraph<F: Font>(
    font: &ScaledFont<'_, F>,
    position: Point,
    text: &str,
    target: &mut Vec<Glyph>,
)
    ensures
        final(target)@ == old(target)@ + laid_out(font.font, font.scale, position, text@),
{
    let count = text.unicode_len();
    let mut caret = Caret {
        at: Point { x: position.x, y: add_lengths(position.y, font.ascent()) },
        last: None,
    };
    let mut i: usize = 0;
    while i < count
        invariant
            count == text@.len(),
            i <= count,
            caret == caret_after(font.font, font.scale, position, text@.take(i as int)),
            target@ == old(target)@ + laid_out(
                font.font,
                font.scale,
                position,
                text@.take(i as int),
            ),
        decreases count - i,
    {
        let c = text.get_char(i);
        proof {
            assert(text@.take(i + 1).drop_last() == text@.take(i as int));
            assert(text@.take(i + 1).last() == c);
        }
        let (next, glyph) = advance_caret(font, position, caret, c);
        caret = next;
        if let Some(g) = glyph {
            target.push(g);
        }
        i += 1;
    }
    proof {
        assert(text@.take(count as int) == text@);
    }
}

} // verus!
