//! Colors and the linear blend of ink over an existing pixel.

use vstd::prelude::*;

verus! {

/// The coverage value of a fully inked sample.
pub const FULL_COVERAGE: u8 = 255;

/// A pixel of four 8-bit channels.
#[derive(Clone, Copy, Debug, PartialEq, Eq)]
pub struct Color {
    pub r: u8,
    pub g: u8,
    pub b: u8,
    pub a: u8,
}

/// One channel of the weighted sum of `under` and `ink`, with weights
/// `1 - v/255` and `v/255`, rounded towards zero.
pub open spec fn blended_channel(under: u8, ink: u8, coverage: u8) -> int {
    (under * (255 - coverage) + ink * coverage) / 255
}

/// The per-channel weighted sum of `under` and `ink`.
pub open spec fn blended(under: Color, ink: Color, coverage: u8) -> Color {
    Color {
        r: blended_channel(under.r, ink.r, coverage) as u8,
        g: blended_channel(under.g, ink.g, coverage) as u8,
        b: blended_channel(under.b, ink.b, coverage) as u8,
        a: blended_channel(under.a, ink.a, coverage) as u8,
    }
}

/// A blended channel lies between its two inputs, so it is a channel value.
pub proof fn lemma_blended_channel_between(under: u8, ink: u8, coverage: u8)
    ensures
        under <= ink ==> under <= blended_channel(under, ink, coverage) <= ink,
        ink <= under ==> ink <= blended_channel(under, ink, coverage) <= under,
        0 <= blended_channel(under, ink, coverage) <= 255,
{
    let u = under as int;
    let i = ink as int;
    let c = coverage as int;
    let total = u * (255 - c) + i * c;
    assert(u <= i ==> u * 255 <= total <= i * 255) by (nonlinear_arith)
        requires
            0 <= c <= 255,
            total == u * (255 - c) + i * c,
    ;
    assert(i <= u ==> i * 255 <= total <= u * 255) by (nonlinear_arith)
        requires
            0 <= c <= 255,
            total == u * (255 - c) + i * c,
    ;
}

/// Blending law: full coverage gives the ink exactly, no coverage leaves the
/// pixel as it was.
pub proof fn lemma_blend_endpoints(under: Color, ink: Color)
    ensures
        blended(under, ink, FULL_COVERAGE) == ink,
        blended(under, ink, 0) == under,
{
    assert(forall|u: u8, i: u8| #[trigger] blended_channel(u, i, 255) == i);
    assert(forall|u: u8, i: u8| #[trigger] blended_channel(u, i, 0) == u);
}

/// One channel of the blend.
pub fn blend_channel(under: u8, ink: u8, coverage: u8) -> (out: u8)
    ensures
        out == blended_channel(under, ink, coverage),
{
    proof {
        lemma_blended_channel_between(under, ink, coverage);
    }
    let rest: u32 = 255 - coverage as u32;
    let total: u32 = under as u32 * rest + ink as u32 * coverage as u32;
    (total / 255) as u8
}

/// The pixel that results from laying `ink` over `under` with the given
/// coverage.
pub fn blend(under: Color, ink: Color, coverage: u8) -> (out: Color)
    ensures
        out == blended(under, ink, coverage),
{
    Color {
        r: blend_channel(under.r, ink.r, coverage),
        g: blend_channel(under.g, ink.g, coverage),
        b: blend_channel(under.b, ink.b, coverage),
        a: blend_channel(under.a, ink.a, coverage),
    }
}

} // verus!
