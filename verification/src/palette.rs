//! The colour stops between which intensities are interpolated.

use vstd::prelude::*;
use crate::raster::Rgb;

verus! {

/// The stops, from the colour of no energy to the colour of the peak: deep
/// navy, indigo, bright blue, orange, soft yellow.
pub open spec fn palette_spec() -> Seq<Rgb> {
    seq![
        Rgb { r: 6, g: 4, b: 38 },
        Rgb { r: 16, g: 32, b: 130 },
        Rgb { r: 0, g: 116, b: 217 },
        Rgb { r: 255, g: 136, b: 0 },
        Rgb { r: 255, g: 221, b: 112 },
    ]
}

/// The number of stops.
pub open spec fn stops_spec() -> nat {
    palette_spec().len()
}

/// The number of segments between neighbouring stops.
pub open spec fn segments_spec() -> nat {
    (stops_spec() - 1) as nat
}

/// The segment in which a scaled intensity lies, given its whole part: the
/// whole part itself, or the last segment where it lies beyond.
pub open spec fn segment_index_spec(whole: nat) -> nat {
    if whole >= segments_spec() {
        (segments_spec() - 1) as nat
    } else {
        whole
    }
}

/// The number of segments.
pub fn segments() -> (n: usize)
    ensures
        n == segments_spec(),
        n == 4,
{
    4
}

/// Stop `i` of the palette.
pub fn stop(i: usize) -> (c: Rgb)
    requires
        i < stops_spec(),
    ensures
        c == palette_spec()[i as int],
{
    if i == 0 {
        Rgb { r: 6, g: 4, b: 38 }
    } else if i == 1 {
        Rgb { r: 16, g: 32, b: 130 }
    } else if i == 2 {
        Rgb { r: 0, g: 116, b: 217 }
    } else if i == 3 {
        Rgb { r: 255, g: 136, b: 0 }
    } else {
        Rgb { r: 255, g: 221, b: 112 }
    }
}

/// The segment for a scaled intensity whose whole part is `whole`.
pub fn segment_index(whole: usize) -> (idx: usize)
    ensures
        idx == segment_index_spec(whole as nat),
        idx + 1 < stops_spec(),
{
    if whole >= 4 {
        3
    } else {
        whole
    }
}

/// The two stops between which segment `idx` interpolates.
pub fn segment_stops(idx: usize) -> (ends: (Rgb, Rgb))
    requires
        idx < segments_spec(),
    ensures
        ends.0 == palette_spec()[idx as int],
        ends.1 == palette_spec()[idx + 1],
{
    (stop(idx), stop(idx + 1))
}

/// Whether `px` is, channel by channel, what `blend` makes of the two stops
/// and the position `frac` between them.
pub open spec fn is_blend<M, B: Fn(u8, u8, M) -> u8>(
    blend: B,
    start: Rgb,
    end: Rgb,
    frac: M,
    px: Rgb,
) -> bool {
    &&& call_ensures(blend, (start.r, end.r, frac), px.r)
    &&& call_ensures(blend, (start.g, end.g, frac), px.g)
    &&& call_ensures(blend, (start.b, end.b, frac), px.b)
}

/// Whether `px` is the colour of `scaled`, given its whole part `floor` and
/// its position `frac` within its segment.
pub open spec fn is_colour<M, W: Fn(M) -> usize, P: Fn(M, usize) -> M, B: Fn(u8, u8, M) -> u8>(
    whole: W,
    part: P,
    blend: B,
    scaled: M,
    floor: usize,
    frac: M,
    px: Rgb,
) -> bool {
    let idx = segment_index_spec(floor as nat) as int;
    &&& call_ensures(whole, (scaled,), floor)
    &&& call_ensures(part, (scaled, idx as usize), frac)
    &&& is_blend(blend, palette_spec()[idx], palette_spec()[idx + 1], frac, px)
}

/// The colour of an intensity that was scaled to the number of segments.
/// `whole` gives the whole part of the scaled intensity, `part` what it
/// lies beyond the start of its segment, and `blend` one channel between
/// two stops. The segment is that of the whole part, or the last one; both
/// of its stops come from the palette.
pub fn spectrogram_color<M: Copy, W: Fn(M) -> usize, P: Fn(M, usize) -> M, B: Fn(u8, u8, M) -> u8>(
    scaled: M,
    whole: W,
    part: P,
    blend: B,
) -> (px: Rgb)
    requires
        call_requires(whole, (scaled,)),
        forall|idx: usize| idx < segments_spec() ==> call_requires(part, (scaled, idx)),
        forall|a: u8, b: u8, frac: M| call_requires(blend, (a, b, frac)),
    ensures
        exists|floor: usize, frac: M| #[trigger]
            is_colour(whole, part, blend, scaled, floor, frac, px),
{
    let floor = whole(scaled);
    let idx = segment_index(floor);
    let frac = part(scaled, idx);
    let (start, end) = segment_stops(idx);
    let px = Rgb {
        r: blend(start.r, end.r, frac),
        g: blend(start.g, end.g, frac),
        b: blend(start.b, end.b, frac),
    };
    assert(is_colour(whole, part, blend, scaled, floor, frac, px));
    px
}

} // verus!
