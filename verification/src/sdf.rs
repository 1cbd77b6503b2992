//! Per-pixel shading by signed distance.
//!
//! A texture coordinate inside the quad of a primitive is turned into a signed
//! distance to the boundary of its shape, negative inside. Smooth thresholds of
//! that distance give the coverage of the shape, the share of fill against
//! stroke, and the alpha of the fragment. Glyphs take their distance from the
//! median of the three channels of a multi-channel distance texel instead.

use crate::fixed::{
    length, length_spec, median3, median_spec, mix, mix_spec, scale, scale_spec, smoothstep,
    smoothstep_spec, lemma_floor_sqrt_unique, lemma_hermite_range, EPS, HALF, ONE,
};
use crate::record::{PrimitiveRecord, ShapeKind};
use vstd::prelude::*;

verus! {

/// A colour with its opacity, each channel fixed-point.
///
/// As the fragment of a primitive, the colour channels are already multiplied
/// by the coverage of the shape, and the alpha is `0` where the primitive
/// contributes nothing.
#[derive(Clone, Copy, Debug, PartialEq, Eq, Structural)]
pub struct Rgba {
    pub red: u32,
    pub green: u32,
    pub blue: u32,
    pub alpha: u32,
}

/// What a glyph reads from the atlas at one pixel.
#[derive(Clone, Copy, Debug, PartialEq, Eq, Structural)]
pub struct GlyphSample {
    /// Median channel distance at the pixel, `HALF` on the outline.
    pub distance: u32,
    /// Screen-space rate of change of the distance, the antialiasing half-width.
    pub width: u32,
}

/// Signed distance from `(u, v)` to the circle inscribed in the unit quad:
/// `length(uv - 0.5) - 0.5`.
pub open spec fn circle_distance_spec(u: int, v: int) -> int {
    length_spec(u - HALF, v - HALF) - HALF
}

/// Index of the corner whose quadrant holds `(u, v)`: `0` top left, `1` top
/// right, `2` bottom left, `3` bottom right.
pub open spec fn corner_index_spec(u: int, v: int) -> int {
    (if u >= HALF { 1int } else { 0int }) + 2 * (if v >= HALF { 1int } else { 0int })
}

/// The absolute value of an integer.
pub open spec fn abs_spec(x: int) -> int {
    if x < 0 { -x } else { x }
}

/// The greater of two integers.
pub open spec fn max_spec(a: int, b: int) -> int {
    if a >= b { a } else { b }
}

/// The lesser of two integers.
pub open spec fn min_spec(a: int, b: int) -> int {
    if a <= b { a } else { b }
}

/// Signed distance from `(u, v)` to a rectangle that fills the unit quad and
/// whose corner in the quadrant of `(u, v)` is rounded with `radius`.
pub open spec fn box_distance_spec(u: int, v: int, radius: int) -> int {
    let ox = abs_spec(u - HALF) - HALF + radius;
    let oy = abs_spec(v - HALF) - HALF + radius;
    min_spec(max_spec(ox, oy), 0) + length_spec(max_spec(ox, 0), max_spec(oy, 0)) - radius
}

/// Signed distance from `(u, v)` to the rounded rectangle with the given corner radii.
pub open spec fn rounded_rect_distance_spec(u: int, v: int, corner_radii: [u32; 4]) -> int {
    box_distance_spec(u, v, corner_radii[corner_index_spec(u, v)] as int)
}

/// Stroke width as a fraction of the quad: `stroke_width / dimensions.x`.
pub open spec fn stroke_fraction_spec(stroke_width: int, width: int) -> int {
    stroke_width / width
}

/// Coverage of the shape: `smoothstep(eps, -eps, dist)`.
pub open spec fn outer_alpha_spec(dist: int) -> int {
    smoothstep_spec(EPS as int, -(EPS as int), dist)
}

/// Share of the fill colour against the stroke colour:
/// `smoothstep(-sw + eps, -sw - eps, dist)`.
pub open spec fn inner_mix_spec(dist: int, sw: int) -> int {
    smoothstep_spec(-sw + EPS, -sw - EPS, dist)
}

/// Alpha of a stroked shape: `smoothstep(0, -eps, dist)`.
pub open spec fn shape_alpha_spec(dist: int) -> int {
    smoothstep_spec(0, -(EPS as int), dist)
}

/// One colour channel of a stroked shape:
/// `lerp(outer, inner, inner_mix) * outer_alpha`.
pub open spec fn stroked_channel_spec(inner: int, outer: int, dist: int, sw: int) -> int {
    scale_spec(mix_spec(outer, inner, inner_mix_spec(dist, sw)), outer_alpha_spec(dist))
}

/// The fragment of a stroked and filled shape at signed distance `dist`.
pub open spec fn stroked_fragment_spec(
    inner_colour: [u32; 4],
    outer_colour: [u32; 4],
    dist: int,
    sw: int,
) -> Rgba {
    Rgba {
        red: stroked_channel_spec(inner_colour[0] as int, outer_colour[0] as int, dist, sw) as u32,
        green: stroked_channel_spec(inner_colour[1] as int, outer_colour[1] as int, dist, sw) as u32,
        blue: stroked_channel_spec(inner_colour[2] as int, outer_colour[2] as int, dist, sw) as u32,
        alpha: shape_alpha_spec(dist) as u32,
    }
}

/// Distance encoded by a sample of a multi-channel distance field: the median
/// of its red, green and blue channels.
pub open spec fn channel_distance_spec(r: int, g: int, b: int) -> int {
    median_spec(r, g, b)
}

/// Alpha of a glyph: `smoothstep(0.5 - width, 0.5 + width, channel_dist)`.
pub open spec fn glyph_alpha_spec(distance: int, width: int) -> int {
    smoothstep_spec(HALF - width, HALF + width, distance)
}

/// The fragment of a glyph: its single colour, unmixed, and the glyph alpha.
pub open spec fn glyph_fragment_spec(outer_colour: [u32; 4], sample: GlyphSample) -> Rgba {
    Rgba {
        red: outer_colour[0],
        green: outer_colour[1],
        blue: outer_colour[2],
        alpha: glyph_alpha_spec(sample.distance as int, sample.width as int) as u32,
    }
}

/// The fragment that contributes nothing.
pub open spec fn transparent() -> Rgba {
    Rgba { red: 0, green: 0, blue: 0, alpha: 0 }
}

/// What `shade` returns for a record at `(u, v)`.
///
/// Each kind has its own branch and an unknown kind code has none: such a
/// record contributes the transparent fragment.
pub open spec fn shade_spec(record: PrimitiveRecord, u: int, v: int, sample: GlyphSample) -> Rgba {
    let sw = stroke_fraction_spec(record.extra_1[0] as int, record.dimensions[0] as int);
    match record.kind_spec() {
        Some(ShapeKind::Circle) => stroked_fragment_spec(
            record.inner_colour,
            record.outer_colour,
            circle_distance_spec(u, v),
            sw,
        ),
        Some(ShapeKind::RoundedRect) => stroked_fragment_spec(
            record.inner_colour,
            record.outer_colour,
            rounded_rect_distance_spec(u, v, record.extra_2),
            sw,
        ),
        Some(ShapeKind::Glyph) => glyph_fragment_spec(record.outer_colour, sample),
        None => transparent(),
    }
}

/// At the centre of the quad a circle is at its deepest: the distance is `-0.5`.
pub proof fn lemma_circle_centre()
    ensures
        circle_distance_spec(HALF as int, HALF as int) == -(HALF as int),
{
    assert(crate::fixed::is_floor_sqrt(0, 0)) by (nonlinear_arith);
    lemma_floor_sqrt_unique(0, 0);
    assert((HALF - HALF) * (HALF - HALF) + (HALF - HALF) * (HALF - HALF) == 0) by (nonlinear_arith);
}

/// On and outside the boundary a stroked shape is fully transparent.
pub proof fn lemma_alpha_outside(dist: int)
    requires
        dist >= 0,
    ensures
        shape_alpha_spec(dist) == 0,
{
    lemma_hermite_range(0);
}

/// One antialiasing width inside the boundary, and deeper, a stroked shape is fully opaque.
pub proof fn lemma_alpha_inside(dist: int)
    requires
        dist <= -(EPS as int),
    ensures
        shape_alpha_spec(dist) == ONE,
        outer_alpha_spec(dist) == ONE,
{
    lemma_hermite_range(ONE as int);
}

/// Exactly on the boundary the coverage of a stroked shape is one half.
pub proof fn lemma_coverage_on_boundary()
    ensures
        outer_alpha_spec(0) == HALF,
{
    lemma_hermite_range(HALF as int);
    assert((EPS - 0) * ONE / (EPS - (-(EPS as int))) == HALF) by (nonlinear_arith);
}

/// Beyond the stroke, one antialiasing width further in, the colour is the
/// fill colour alone; outside the stroke band it is the stroke colour alone.
pub proof fn lemma_fill_and_stroke(inner: int, outer: int, dist: int, sw: int)
    requires
        0 <= inner,
        0 <= outer,
    ensures
        dist <= -sw - EPS && dist <= -(EPS as int) ==> stroked_channel_spec(inner, outer, dist, sw)
            == inner,
        -sw + EPS <= dist <= -(EPS as int) ==> stroked_channel_spec(inner, outer, dist, sw)
            == outer,
{
    let s = ONE as int;
    lemma_hermite_range(s);
    lemma_hermite_range(0);
    if dist <= -sw - EPS && dist <= -(EPS as int) {
        assert(outer * (s - s) + inner * s == s * inner) by (nonlinear_arith);
        vstd::arithmetic::div_mod::lemma_div_multiples_vanish(inner, s);
        assert(inner * s == s * inner) by (nonlinear_arith);
    }
    if -sw + EPS <= dist <= -(EPS as int) {
        assert(outer * (s - 0) + inner * 0 == s * outer) by (nonlinear_arith);
        vstd::arithmetic::div_mod::lemma_div_multiples_vanish(outer, s);
        assert(outer * s == s * outer) by (nonlinear_arith);
    }
}

/// At the centre of a circle whose stroke leaves the centre free, the fragment
/// is fully opaque and shows the fill colour.
pub proof fn lemma_circle_centre_is_fill(record: PrimitiveRecord, sample: GlyphSample)
    requires
        record.kind_spec() == Some(ShapeKind::Circle),
        stroke_fraction_spec(record.extra_1[0] as int, record.dimensions[0] as int) + EPS <= HALF,
    ensures
        shade_spec(record, HALF as int, HALF as int, sample) == (Rgba {
            red: record.inner_colour[0],
            green: record.inner_colour[1],
            blue: record.inner_colour[2],
            alpha: ONE,
        }),
{
    let sw = stroke_fraction_spec(record.extra_1[0] as int, record.dimensions[0] as int);
    lemma_circle_centre();
    let dist = -(HALF as int);
    lemma_alpha_inside(dist);
    lemma_fill_and_stroke(record.inner_colour[0] as int, record.outer_colour[0] as int, dist, sw);
    lemma_fill_and_stroke(record.inner_colour[1] as int, record.outer_colour[1] as int, dist, sw);
    lemma_fill_and_stroke(record.inner_colour[2] as int, record.outer_colour[2] as int, dist, sw);
}

/// Wherever the signed distance of a circle or rounded rectangle is not
/// negative, the fragment has alpha zero.
pub proof fn lemma_outside_is_transparent(
    record: PrimitiveRecord,
    u: int,
    v: int,
    sample: GlyphSample,
)
    requires
        record.kind_spec() == Some(ShapeKind::Circle) ==> circle_distance_spec(u, v) >= 0,
        record.kind_spec() == Some(ShapeKind::RoundedRect) ==> rounded_rect_distance_spec(
            u,
            v,
            record.extra_2,
        ) >= 0,
        record.kind_spec() != Some(ShapeKind::Glyph),
    ensures
        shade_spec(record, u, v, sample).alpha == 0,
{
    lemma_hermite_range(0);
}

/// Signed distance from `(u, v)` to the circle inscribed in the unit quad.
pub fn circle_distance(u: u32, v: u32) -> (dist: i64)
    ensures
        dist == circle_distance_spec(u as int, v as int),
        -(HALF as int) <= dist <= 0x2_0000_0000,
{
    let len: u64 = length(u as i64 - HALF as i64, v as i64 - HALF as i64);
    proof {
        lemma_length_bound(u as int - HALF, v as int - HALF, 0x1_0000_0000);
    }
    len as i64 - HALF as i64
}

/// The length of a vector is at most the sum of the bounds of its components.
pub proof fn lemma_length_bound(x: int, y: int, bound: int)
    requires
        -bound <= x <= bound,
        -bound <= y <= bound,
    ensures
        length_spec(x, y) <= 2 * bound,
{
    let n = (x * x + y * y) as nat;
    let r = length_spec(x, y);
    crate::fixed::lemma_floor_sqrt_bounds(n);
    assert(x * x + y * y >= 0 && x * x + y * y <= 2 * bound * bound) by (nonlinear_arith)
        requires
            -bound <= x <= bound,
            -bound <= y <= bound,
    ;
    if r > 2 * bound {
        assert(r * r > 2 * bound * bound) by (nonlinear_arith)
            requires
                r > 2 * bound,
                bound >= 0,
        ;
    }
}

/// Index of the corner whose quadrant holds `(u, v)`.
pub fn corner_index(u: u32, v: u32) -> (i: usize)
    ensures
        i == corner_index_spec(u as int, v as int),
        i < 4,
        i == 0 <==> u < HALF && v < HALF,
        i == 1 <==> u >= HALF && v < HALF,
        i == 2 <==> u < HALF && v >= HALF,
        i == 3 <==> u >= HALF && v >= HALF,
{
    let qx: usize = if u >= HALF { 1 } else { 0 };
    let qy: usize = if v >= HALF { 1 } else { 0 };
    qx + qy * 2
}

/// Signed distance from `(u, v)` to the rounded rectangle with the given corner radii.
pub fn rounded_rect_distance(u: u32, v: u32, corner_radii: [u32; 4]) -> (dist: i64)
    ensures
        dist == rounded_rect_distance_spec(u as int, v as int, corner_radii),
{
    let radius: i64 = corner_radii[corner_index(u, v)] as i64;
    let cx: i64 = u as i64 - HALF as i64;
    let cy: i64 = v as i64 - HALF as i64;
    let ax: i64 = if cx < 0 { -cx } else { cx };
    let ay: i64 = if cy < 0 { -cy } else { cy };
    let ox: i64 = ax - HALF as i64 + radius;
    let oy: i64 = ay - HALF as i64 + radius;
    let deepest: i64 = if ox >= oy { ox } else { oy };
    let inside: i64 = if deepest <= 0 { deepest } else { 0 };
    let px: i64 = if ox >= 0 { ox } else { 0 };
    let py: i64 = if oy >= 0 { oy } else { 0 };
    let len: u64 = length(px, py);
    proof {
        lemma_length_bound(px as int, py as int, 0x2_0000_0000);
    }
    inside + len as i64 - radius
}

/// Stroke width as a fraction of the quad.
pub fn stroke_fraction(stroke_width: u32, width: u16) -> (sw: u32)
    requires
        width > 0,
    ensures
        sw == stroke_fraction_spec(stroke_width as int, width as int),
{
    stroke_width / (width as u32)
}

/// The fragment of a stroked and filled shape at signed distance `dist`, with
/// the stroke width given as a fraction of the quad.
pub fn shade_stroked(inner_colour: [u32; 4], outer_colour: [u32; 4], dist: i64, sw: u32) -> (f:
    Rgba)
    ensures
        f == stroked_fragment_spec(inner_colour, outer_colour, dist as int, sw as int),
        f.alpha <= ONE,
{
    let eps: i64 = EPS as i64;
    let outer_alpha: u32 = smoothstep(eps, -eps, dist);
    let inner_mix: u32 = smoothstep(eps - sw as i64, -(sw as i64) - eps, dist);
    let alpha: u32 = smoothstep(0, -eps, dist);
    let red: u32 = scale(mix(outer_colour[0], inner_colour[0], inner_mix), outer_alpha);
    let green: u32 = scale(mix(outer_colour[1], inner_colour[1], inner_mix), outer_alpha);
    let blue: u32 = scale(mix(outer_colour[2], inner_colour[2], inner_mix), outer_alpha);
    Rgba { red, green, blue, alpha }
}

/// Distance encoded by a sample of a multi-channel distance field.
pub fn channel_distance(r: u32, g: u32, b: u32) -> (d: u32)
    ensures
        d == channel_distance_spec(r as int, g as int, b as int),
        d == r || d == g || d == b,
{
    median3(r, g, b)
}

/// The fragment of a glyph: its single colour and the alpha of the sample.
pub fn shade_glyph(outer_colour: [u32; 4], sample: GlyphSample) -> (f: Rgba)
    ensures
        f == glyph_fragment_spec(outer_colour, sample),
        f.alpha <= ONE,
{
    let half: i64 = HALF as i64;
    let alpha: u32 = smoothstep(half - sample.width as i64, half + sample.width as i64,
        sample.distance as i64);
    Rgba { red: outer_colour[0], green: outer_colour[1], blue: outer_colour[2], alpha }
}

/// Shades one pixel of one primitive at the texture coordinate `(u, v)`.
///
/// `sample` is what the atlas holds for the pixel; only glyphs read it.
pub fn shade(record: &PrimitiveRecord, u: u32, v: u32, sample: GlyphSample) -> (f: Rgba)
    requires
        record.kind_spec() == Some(ShapeKind::Circle) || record.kind_spec() == Some(
            ShapeKind::RoundedRect,
        ) ==> record.dimensions[0] > 0,
    ensures
        f == shade_spec(*record, u as int, v as int, sample),
        f.alpha <= ONE,
{
    match record.kind() {
        Some(ShapeKind::Circle) => {
            let sw: u32 = stroke_fraction(record.extra_1[0], record.dimensions[0]);
            let dist: i64 = circle_distance(u, v);
            shade_stroked(record.inner_colour, record.outer_colour, dist, sw)
        },
        Some(ShapeKind::RoundedRect) => {
            let sw: u32 = stroke_fraction(record.extra_1[0], record.dimensions[0]);
            let dist: i64 = rounded_rect_distance(u, v, record.extra_2);
            shade_stroked(record.inner_colour, record.outer_colour, dist, sw)
        },
        Some(ShapeKind::Glyph) => shade_glyph(record.outer_colour, sample),
        None => Rgba { red: 0, green: 0, blue: 0, alpha: 0 },
    }
}

} // verus!
