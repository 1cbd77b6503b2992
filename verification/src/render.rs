//! From a pixel to its colour.
//!
//! Positions are scaled to clip space by half the resolution and sizes by the
//! full resolution. A quad therefore spans `dimensions` pixels in all, one half
//! of them to either side of `position`, whatever the resolution is. This
//! module works in pixel space on that footing: it decides whether the quad of
//! a primitive covers a pixel, finds the texture coordinate of the pixel within
//! the quad, shades it, and blends the fragments of a batch in draw order.

use crate::atlas::{filtered_spec, GlyphAtlas, LayerView};
use crate::coords::{lemma_div_round_bounds, ndc_size_spec, ndc_x_spec, ndc_y_spec};
use crate::fixed::{div_round_spec, mix, mix_spec, HALF, ONE};
use crate::record::{PrimitiveRecord, ShapeKind};
use crate::sdf::{
    abs_spec, channel_distance, channel_distance_spec, circle_distance_spec, shade, shade_spec,
    stroke_fraction_spec, transparent, GlyphSample, Rgba, lemma_circle_centre_is_fill,
};
use vstd::prelude::*;

verus! {

/// The quad of the record covers the pixel: it has an area, and the pixel lies
/// no further than half the dimensions from the position on either axis.
pub open spec fn covers_spec(record: PrimitiveRecord, px: int, py: int) -> bool {
    &&& record.dimensions[0] > 0
    &&& record.dimensions[1] > 0
    &&& 2 * abs_spec(px - record.position[0]) <= record.dimensions[0]
    &&& 2 * abs_spec(py - record.position[1]) <= record.dimensions[1]
}

/// Texture coordinate, along one axis, of the pixel `p` within a quad of the
/// given extent around `centre`: `0` at the left or top edge, `ONE` at the
/// right or bottom edge.
pub open spec fn quad_coord_spec(centre: int, extent: int, p: int) -> int {
    (2 * (p - centre) + extent) * ONE / (2 * extent)
}

/// Texture coordinate of the pixel next to `p`, held within the quad.
pub open spec fn next_coord_spec(centre: int, extent: int, p: int) -> int {
    let t = quad_coord_spec(centre, extent, p + 1);
    if t > ONE { ONE as int } else { t }
}

/// The layer exists and holds at least one texel.
pub open spec fn has_texels(atlas: Seq<LayerView>, index: int) -> bool {
    &&& 0 <= index < atlas.len()
    &&& atlas[index].width > 0
    &&& atlas[index].height > 0
}

/// Distance that a layer encodes at the texture coordinate `(u, v)`: the
/// median of its filtered red, green and blue channels there.
pub open spec fn layer_distance_spec(layer: LayerView, u: int, v: int) -> int {
    channel_distance_spec(
        filtered_spec(layer, u, v, 0),
        filtered_spec(layer, u, v, 1),
        filtered_spec(layer, u, v, 2),
    )
}

/// What a glyph reads from its layer at a pixel: the distance there, and as
/// width the sum of the absolute differences to the distances one pixel to the
/// right and one pixel down.
pub open spec fn glyph_sample_spec(layer: LayerView, record: PrimitiveRecord, px: int, py: int) -> GlyphSample {
    let cx = record.position[0] as int;
    let cy = record.position[1] as int;
    let dx = record.dimensions[0] as int;
    let dy = record.dimensions[1] as int;
    let u = quad_coord_spec(cx, dx, px);
    let v = quad_coord_spec(cy, dy, py);
    let here = layer_distance_spec(layer, u, v);
    let right = layer_distance_spec(layer, next_coord_spec(cx, dx, px), v);
    let below = layer_distance_spec(layer, u, next_coord_spec(cy, dy, py));
    GlyphSample {
        distance: here as u32,
        width: (abs_spec(right - here) + abs_spec(below - here)) as u32,
    }
}

/// The sample that shading reads for a record at a pixel. Only glyphs read one.
pub open spec fn sample_spec(atlas: Seq<LayerView>, record: PrimitiveRecord, px: int, py: int) -> GlyphSample {
    if record.kind_spec() == Some(ShapeKind::Glyph) {
        glyph_sample_spec(atlas[record.kind_and_payload[1] as int], record, px, py)
    } else {
        GlyphSample { distance: 0, width: 0 }
    }
}

/// The fragment that a record contributes to a pixel.
///
/// A pixel outside the quad gets nothing, and so does a glyph whose layer the
/// atlas lacks. Everywhere else the fragment is that of shading the texture
/// coordinate of the pixel.
pub open spec fn fragment_spec(atlas: Seq<LayerView>, record: PrimitiveRecord, px: int, py: int) -> Rgba {
    if !covers_spec(record, px, py) {
        transparent()
    } else if record.kind_spec() == Some(ShapeKind::Glyph) && !has_texels(
        atlas,
        record.kind_and_payload[1] as int,
    ) {
        transparent()
    } else {
        shade_spec(
            record,
            quad_coord_spec(record.position[0] as int, record.dimensions[0] as int, px),
            quad_coord_spec(record.position[1] as int, record.dimensions[1] as int, py),
            sample_spec(atlas, record, px, py),
        )
    }
}

/// Alpha blending of a fragment over what is there: each channel becomes
/// `source * alpha + destination * (1 - alpha)`, the alpha channel too.
pub open spec fn blend_spec(destination: Rgba, source: Rgba) -> Rgba {
    Rgba {
        red: mix_spec(destination.red as int, source.red as int, source.alpha as int) as u32,
        green: mix_spec(destination.green as int, source.green as int, source.alpha as int) as u32,
        blue: mix_spec(destination.blue as int, source.blue as int, source.alpha as int) as u32,
        alpha: mix_spec(destination.alpha as int, source.alpha as int, source.alpha as int) as u32,
    }
}

/// The colour of a pixel after the records were drawn over `clear` in order.
pub open spec fn composite_spec(
    atlas: Seq<LayerView>,
    records: Seq<PrimitiveRecord>,
    clear: Rgba,
    px: int,
    py: int,
) -> Rgba
    decreases records.len(),
{
    if records.len() == 0 {
        clear
    } else {
        blend_spec(
            composite_spec(atlas, records.drop_last(), clear, px, py),
            fragment_spec(atlas, records.last(), px, py),
        )
    }
}

/// The pixel at the centre of a quad with an area has the texture coordinate `0.5`.
pub proof fn lemma_centre_coord(centre: int, extent: int)
    requires
        extent > 0,
    ensures
        quad_coord_spec(centre, extent, centre) == HALF,
{
    assert((2 * (centre - centre) + extent) * ONE == (2 * extent) * HALF) by (nonlinear_arith);
    vstd::arithmetic::div_mod::lemma_div_multiples_vanish(HALF as int, 2 * extent);
}

/// Inside the quad the texture coordinate lies between `0` and `ONE`.
pub proof fn lemma_coord_range(centre: int, extent: int, p: int)
    requires
        extent > 0,
        2 * abs_spec(p - centre) <= extent,
    ensures
        0 <= quad_coord_spec(centre, extent, p) <= ONE,
{
    let n = 2 * (p - centre) + extent;
    assert(0 <= n * ONE <= (2 * extent) * ONE) by (nonlinear_arith)
        requires
            0 <= n <= 2 * extent,
    ;
    vstd::arithmetic::div_mod::lemma_div_pos_is_pos(n * ONE, 2 * extent);
    vstd::arithmetic::div_mod::lemma_div_is_ordered(n * ONE, (2 * extent) * ONE, 2 * extent);
    vstd::arithmetic::div_mod::lemma_div_multiples_vanish(ONE as int, 2 * extent);
}

/// The pixel at the position of a circle is fully opaque and shows the fill
/// colour, provided the circle has a size and its stroke leaves the centre free.
pub proof fn lemma_circle_centre_pixel(atlas: Seq<LayerView>, record: PrimitiveRecord)
    requires
        record.kind_spec() == Some(ShapeKind::Circle),
        record.dimensions[0] > 0,
        record.dimensions[1] > 0,
        stroke_fraction_spec(record.extra_1[0] as int, record.dimensions[0] as int) + crate::fixed::EPS
            <= HALF,
    ensures
        fragment_spec(atlas, record, record.position[0] as int, record.position[1] as int) == (Rgba {
            red: record.inner_colour[0],
            green: record.inner_colour[1],
            blue: record.inner_colour[2],
            alpha: ONE,
        }),
{
    let px = record.position[0] as int;
    let py = record.position[1] as int;
    lemma_centre_coord(px, record.dimensions[0] as int);
    lemma_centre_coord(py, record.dimensions[1] as int);
    lemma_circle_centre_is_fill(record, sample_spec(atlas, record, px, py));
}

/// A pixel further from the position of a circle than its radius gets nothing
/// from the circle.
pub proof fn lemma_beyond_radius(atlas: Seq<LayerView>, record: PrimitiveRecord, px: int, py: int)
    requires
        record.kind_spec() == Some(ShapeKind::Circle),
        record.dimensions[0] == record.dimensions[1],
        (px - record.position[0]) * (px - record.position[0]) + (py - record.position[1]) * (py
            - record.position[1]) > record.dimensions[0] * record.dimensions[0],
    ensures
        fragment_spec(atlas, record, px, py) == transparent(),
{
    let r = record.dimensions[0] as int;
    let ax = abs_spec(px - record.position[0]);
    let ay = abs_spec(py - record.position[1]);
    if covers_spec(record, px, py) {
        assert(ax * ax + ay * ay <= r * r) by (nonlinear_arith)
            requires
                0 <= 2 * ax <= r,
                0 <= 2 * ay <= r,
        ;
        assert(ax * ax == (px - record.position[0]) * (px - record.position[0])) by (nonlinear_arith)
            requires
                ax == px - record.position[0] || ax == -(px - record.position[0]),
        ;
        assert(ay * ay == (py - record.position[1]) * (py - record.position[1])) by (nonlinear_arith)
            requires
                ay == py - record.position[1] || ay == -(py - record.position[1]),
        ;
    }
}

/// A pixel keeps the clear colour if every record of the batch contributes a
/// fragment with alpha zero to it.
pub proof fn lemma_nothing_drawn(
    atlas: Seq<LayerView>,
    records: Seq<PrimitiveRecord>,
    clear: Rgba,
    px: int,
    py: int,
)
    requires
        forall|i: int| 0 <= i < records.len() ==> (#[trigger] fragment_spec(atlas, records[i], px, py)).alpha == 0,
    ensures
        composite_spec(atlas, records, clear, px, py) == clear,
    decreases records.len(),
{
    if records.len() > 0 {
        let before = records.drop_last();
        assert forall|i: int| 0 <= i < before.len() implies (#[trigger] fragment_spec(
            atlas,
            before[i],
            px,
            py,
        )).alpha == 0 by {
            assert(before[i] == records[i]);
        }
        lemma_nothing_drawn(atlas, before, clear, px, py);
        let source = fragment_spec(atlas, records.last(), px, py);
        assert(source == fragment_spec(atlas, records[records.len() - 1], px, py));
        lemma_mix_ends(clear.red as int, source.red as int);
        lemma_mix_ends(clear.green as int, source.green as int);
        lemma_mix_ends(clear.blue as int, source.blue as int);
        lemma_mix_ends(clear.alpha as int, source.alpha as int);
    }
}

/// Along one axis, in a viewport of at most half a million pixels, the
/// clip-space quad and the coverage in pixels agree: a pixel within half the
/// extent of the centre maps into the quad or at most one millionth beside it,
/// and every other pixel maps strictly outside the quad.
pub proof fn lemma_axis_extent(resolution: int, centre: int, extent: int, p: int)
    requires
        0 < resolution <= HALF,
    ensures
        ({
            let offset = div_round_spec(2 * p * ONE, resolution) - div_round_spec(
                2 * centre * ONE,
                resolution,
            );
            let size = ndc_size_spec(resolution, extent);
            &&& 2 * abs_spec(p - centre) <= extent ==> -size - 1 <= offset <= size + 1
            &&& 2 * abs_spec(p - centre) > extent ==> offset < -size || offset > size
        }),
{
    let s = ONE as int;
    let w = resolution;
    let a = div_round_spec(2 * p * s, w);
    let b = div_round_spec(2 * centre * s, w);
    let z = div_round_spec(extent * s, w);
    lemma_div_round_bounds(2 * p * s, w);
    lemma_div_round_bounds(2 * centre * s, w);
    lemma_div_round_bounds(extent * s, w);
    let wa = w * a;
    let wb = w * b;
    let wz = w * z;
    let ps = p * s;
    let cs = centre * s;
    let ds = extent * s;
    assert(2 * w * a == 2 * wa && 2 * w * b == 2 * wb && 2 * w * z == 2 * wz) by (nonlinear_arith)
        requires
            wa == w * a,
            wb == w * b,
            wz == w * z,
    ;
    assert(2 * (2 * p * s) == 4 * ps && 2 * (2 * centre * s) == 4 * cs) by (nonlinear_arith)
        requires
            ps == p * s,
            cs == centre * s,
    ;
    // 2 wa <= 4 ps + w < 2 wa + 2 w, likewise for b, and 2 wz <= 2 ds + w < 2 wz + 2 w
    let k = a - b;
    assert(w * k == wa - wb) by (nonlinear_arith)
        requires
            wa == w * a,
            wb == w * b,
            k == a - b,
    ;
    let gap = 2 * (p - centre) - extent;
    assert(gap * s == 2 * ps - 2 * cs - ds) by (nonlinear_arith)
        requires
            gap == 2 * (p - centre) - extent,
            ps == p * s,
            cs == centre * s,
            ds == extent * s,
    ;
    let back = 2 * (centre - p) - extent;
    assert(back * s == 2 * cs - 2 * ps - ds) by (nonlinear_arith)
        requires
            back == 2 * (centre - p) - extent,
            ps == p * s,
            cs == centre * s,
            ds == extent * s,
    ;
    assert(gap <= 0 ==> gap * s <= 0) by (nonlinear_arith)
        requires
            s > 0,
    ;
    assert(gap >= 1 ==> gap * s >= s) by (nonlinear_arith)
        requires
            s > 0,
    ;
    assert(back <= 0 ==> back * s <= 0) by (nonlinear_arith)
        requires
            s > 0,
    ;
    assert(back >= 1 ==> back * s >= s) by (nonlinear_arith)
        requires
            s > 0,
    ;
    // w * (k - z) and w * (k + z), bounded on both sides, bound k against z
    let up = k - z;
    let down = k + z;
    assert(w * up == wa - wb - wz && w * down == wa - wb + wz) by (nonlinear_arith)
        requires
            w * k == wa - wb,
            wz == w * z,
            up == k - z,
            down == k + z,
    ;
    assert(up >= 2 ==> w * up >= 2 * w) by (nonlinear_arith)
        requires
            w > 0,
    ;
    assert(up <= 0 ==> w * up <= 0) by (nonlinear_arith)
        requires
            w > 0,
    ;
    assert(down <= -2 ==> w * down <= -2 * w) by (nonlinear_arith)
        requires
            w > 0,
    ;
    assert(down >= 0 ==> w * down >= 0) by (nonlinear_arith)
        requires
            w > 0,
    ;
}

/// In a viewport of at most half a million pixels on either axis, a pixel
/// that the quad of a record covers maps into the clip-space quad of the
/// record, give or take one millionth, and a pixel that it does not cover
/// maps outside that quad on at least one axis.
pub proof fn lemma_quad_agrees_with_coverage(
    record: PrimitiveRecord,
    width: int,
    height: int,
    px: int,
    py: int,
)
    requires
        0 < width <= HALF,
        0 < height <= HALF,
        record.dimensions[0] > 0,
        record.dimensions[1] > 0,
    ensures
        ({
            let x = ndc_x_spec(width, px);
            let y = ndc_y_spec(height, py);
            let cx = ndc_x_spec(width, record.position[0] as int);
            let cy = ndc_y_spec(height, record.position[1] as int);
            let sx = ndc_size_spec(width, record.dimensions[0] as int);
            let sy = ndc_size_spec(height, record.dimensions[1] as int);
            &&& covers_spec(record, px, py) ==> cx - sx - 1 <= x <= cx + sx + 1 && cy - sy - 1
                <= y <= cy + sy + 1
            &&& !covers_spec(record, px, py) ==> x < cx - sx || x > cx + sx || y < cy - sy || y
                > cy + sy
        }),
{
    lemma_axis_extent(width, record.position[0] as int, record.dimensions[0] as int, px);
    lemma_axis_extent(height, record.position[1] as int, record.dimensions[1] as int, py);
}

/// Texture coordinate of a pixel along one axis, held within `[0, ONE]`.
fn axis_coord(centre: u16, extent: u16, p: i64) -> (t: u32)
    requires
        extent > 0,
        0 <= p <= 0x1_0000,
    ensures
        t == {
            let exact = quad_coord_spec(centre as int, extent as int, p as int);
            if exact < 0 {
                0
            } else if exact > ONE {
                ONE as int
            } else {
                exact
            }
        },
        t <= ONE,
{
    let n: i64 = 2 * (p - centre as i64) + extent as i64;
    let d: i64 = 2 * (extent as i64);
    if n <= 0 {
        proof {
            if n < 0 {
                assert(n * ONE < 0) by (nonlinear_arith)
                    requires
                        n < 0,
                ;
                let q = (n * ONE) / (d as int);
                vstd::arithmetic::div_mod::lemma_fundamental_div_mod(n * ONE, d as int);
                vstd::arithmetic::div_mod::lemma_mod_bound(n * ONE, d as int);
                if q >= 0 {
                    assert(d * q >= 0) by (nonlinear_arith)
                        requires
                            d > 0,
                            q >= 0,
                    ;
                }
            } else {
                assert(n * ONE == 0) by (nonlinear_arith)
                    requires
                        n == 0,
                ;
            }
        }
        0
    } else if n >= d {
        proof {
            assert(n * ONE >= d * ONE) by (nonlinear_arith)
                requires
                    n >= d,
            ;
            vstd::arithmetic::div_mod::lemma_div_is_ordered(d * ONE, n * ONE, d as int);
            vstd::arithmetic::div_mod::lemma_div_multiples_vanish(ONE as int, d as int);
        }
        ONE
    } else {
        proof {
            assert(0 <= n * ONE < d * ONE && n * ONE <= 0x4_0000 * 1_000_000) by (nonlinear_arith)
                requires
                    0 < n < d,
                    d <= 0x2_0000,
            ;
            vstd::arithmetic::div_mod::lemma_div_pos_is_pos(n * ONE, d as int);
            vstd::arithmetic::div_mod::lemma_multiply_divide_lt(n * ONE, d as int, ONE as int);
        }
        (n * (ONE as i64) / d) as u32
    }
}

/// The texture coordinate of a pixel within the quad of a record, or `None`
/// where the quad does not cover the pixel.
pub fn quad_uv(record: &PrimitiveRecord, pixel: [u16; 2]) -> (uv: Option<[u32; 2]>)
    ensures
        uv is Some <==> covers_spec(*record, pixel[0] as int, pixel[1] as int),
        uv matches Some(t) ==> {
            &&& t[0] == quad_coord_spec(
                record.position[0] as int,
                record.dimensions[0] as int,
                pixel[0] as int,
            )
            &&& t[1] == quad_coord_spec(
                record.position[1] as int,
                record.dimensions[1] as int,
                pixel[1] as int,
            )
            &&& t[0] <= ONE
            &&& t[1] <= ONE
        },
{
    let dx: i64 = record.dimensions[0] as i64;
    let dy: i64 = record.dimensions[1] as i64;
    let ox: i64 = pixel[0] as i64 - record.position[0] as i64;
    let oy: i64 = pixel[1] as i64 - record.position[1] as i64;
    let ax: i64 = if ox < 0 { -ox } else { ox };
    let ay: i64 = if oy < 0 { -oy } else { oy };
    if dx > 0 && dy > 0 && 2 * ax <= dx && 2 * ay <= dy {
        proof {
            lemma_coord_range(record.position[0] as int, dx as int, pixel[0] as int);
            lemma_coord_range(record.position[1] as int, dy as int, pixel[1] as int);
        }
        let u: u32 = axis_coord(record.position[0], record.dimensions[0], pixel[0] as i64);
        let v: u32 = axis_coord(record.position[1], record.dimensions[1], pixel[1] as i64);
        Some([u, v])
    } else {
        None
    }
}

/// Distance that layer `index` of the atlas encodes at `(u, v)`, or `None`
/// where the atlas has no such layer or the layer is empty.
pub fn layer_distance(atlas: &GlyphAtlas, index: u16, u: u32, v: u32) -> (d: Option<u32>)
    ensures
        d is Some <==> has_texels(atlas@, index as int),
        d matches Some(value) ==> value == layer_distance_spec(
            atlas@[index as int],
            u as int,
            v as int,
        ) && value <= ONE,
{
    match atlas.sample(index, u, v) {
        Some(texel) => Some(channel_distance(texel[0], texel[1], texel[2])),
        None => None,
    }
}

/// What a glyph record reads from the atlas at a pixel that its quad covers,
/// or `None` where the atlas lacks its layer.
pub fn glyph_sample(atlas: &GlyphAtlas, record: &PrimitiveRecord, pixel: [u16; 2]) -> (sample:
    Option<GlyphSample>)
    requires
        covers_spec(*record, pixel[0] as int, pixel[1] as int),
    ensures
        sample is Some <==> has_texels(atlas@, record.kind_and_payload[1] as int),
        sample matches Some(s) ==> s == glyph_sample_spec(
            atlas@[record.kind_and_payload[1] as int],
            *record,
            pixel[0] as int,
            pixel[1] as int,
        ),
{
    let index: u16 = record.kind_and_payload[1];
    proof {
        lemma_coord_range(
            record.position[0] as int,
            record.dimensions[0] as int,
            pixel[0] as int,
        );
        lemma_coord_range(
            record.position[1] as int,
            record.dimensions[1] as int,
            pixel[1] as int,
        );
    }
    let u: u32 = axis_coord(record.position[0], record.dimensions[0], pixel[0] as i64);
    let v: u32 = axis_coord(record.position[1], record.dimensions[1], pixel[1] as i64);
    let u_next: u32 = axis_coord(record.position[0], record.dimensions[0], pixel[0] as i64 + 1);
    let v_next: u32 = axis_coord(record.position[1], record.dimensions[1], pixel[1] as i64 + 1);
    proof {
        lemma_next_coord(
            record.position[0] as int,
            record.dimensions[0] as int,
            pixel[0] as int,
        );
        lemma_next_coord(
            record.position[1] as int,
            record.dimensions[1] as int,
            pixel[1] as int,
        );
    }
    match layer_distance(atlas, index, u, v) {
        None => None,
        Some(here) => {
            let right: u32 = layer_distance(atlas, index, u_next, v).unwrap();
            let below: u32 = layer_distance(atlas, index, u, v_next).unwrap();
            let across: u32 = if right >= here { right - here } else { here - right };
            let down: u32 = if below >= here { below - here } else { here - below };
            Some(GlyphSample { distance: here, width: across + down })
        },
    }
}

/// The pixel next to one that the quad covers never has a negative texture coordinate.
proof fn lemma_next_coord(centre: int, extent: int, p: int)
    requires
        extent > 0,
        2 * abs_spec(p - centre) <= extent,
    ensures
        quad_coord_spec(centre, extent, p + 1) >= 0,
{
    let n = 2 * (p + 1 - centre) + extent;
    assert(n * ONE >= 0) by (nonlinear_arith)
        requires
            n >= 0,
    ;
    vstd::arithmetic::div_mod::lemma_div_pos_is_pos(n * ONE, 2 * extent);
}

/// The fragment that a record contributes to a pixel.
pub fn fragment_at(atlas: &GlyphAtlas, record: &PrimitiveRecord, pixel: [u16; 2]) -> (f: Rgba)
    ensures
        f == fragment_spec(atlas@, *record, pixel[0] as int, pixel[1] as int),
        f.alpha <= ONE,
{
    let nothing = Rgba { red: 0, green: 0, blue: 0, alpha: 0 };
    match quad_uv(record, pixel) {
        None => nothing,
        Some(uv) => {
            match record.kind() {
                Some(ShapeKind::Glyph) => {
                    match glyph_sample(atlas, record, pixel) {
                        Some(sample) => shade(record, uv[0], uv[1], sample),
                        None => nothing,
                    }
                },
                _ => shade(record, uv[0], uv[1], GlyphSample { distance: 0, width: 0 }),
            }
        },
    }
}

/// Blends a fragment over what is there.
pub fn blend(destination: Rgba, source: Rgba) -> (out: Rgba)
    requires
        source.alpha <= ONE,
    ensures
        out == blend_spec(destination, source),
        source.alpha == 0 ==> out == destination,
        source.alpha == ONE ==> out == source,
{
    proof {
        lemma_mix_ends(destination.red as int, source.red as int);
        lemma_mix_ends(destination.green as int, source.green as int);
        lemma_mix_ends(destination.blue as int, source.blue as int);
        lemma_mix_ends(destination.alpha as int, source.alpha as int);
    }
    Rgba {
        red: mix(destination.red, source.red, source.alpha),
        green: mix(destination.green, source.green, source.alpha),
        blue: mix(destination.blue, source.blue, source.alpha),
        alpha: mix(destination.alpha, source.alpha, source.alpha),
    }
}

/// A blend with weight `0` keeps the first value, one with weight `ONE` takes the second.
pub proof fn lemma_mix_ends(a: int, b: int)
    ensures
        mix_spec(a, b, 0) == a,
        mix_spec(a, b, ONE as int) == b,
{
    let s = ONE as int;
    assert(a * (s - 0) + b * 0 == s * a) by (nonlinear_arith);
    assert(a * (s - s) + b * s == s * b) by (nonlinear_arith);
    vstd::arithmetic::div_mod::lemma_div_multiples_vanish(a, s);
    vstd::arithmetic::div_mod::lemma_div_multiples_vanish(b, s);
}

/// The colour of a pixel after the records were drawn over `clear` in order.
pub fn composite(atlas: &GlyphAtlas, records: &Vec<PrimitiveRecord>, clear: Rgba, pixel: [u16; 2]) -> (out:
    Rgba)
    ensures
        out == composite_spec(atlas@, records@, clear, pixel[0] as int, pixel[1] as int),
{
    let mut out: Rgba = clear;
    let mut i: usize = 0;
    while i < records.len()
        invariant
            i <= records.len(),
            out == composite_spec(
                atlas@,
                records@.take(i as int),
                clear,
                pixel[0] as int,
                pixel[1] as int,
            ),
        decreases records.len() - i,
    {
        let fragment: Rgba = fragment_at(atlas, &records[i], pixel);
        out = blend(out, fragment);
        i = i + 1;
        proof {
            let now = records@.take(i as int);
            assert(now.drop_last() == records@.take(i - 1));
            assert(now.last() == records@[i - 1]);
        }
    }
    assert(records@.take(records.len() as int) == records@);
    out
}

/// The frame of a batch: the colour of every pixel of a viewport, row by row
/// from the top.
pub open spec fn frame_spec(
    atlas: Seq<LayerView>,
    records: Seq<PrimitiveRecord>,
    clear: Rgba,
    width: int,
    height: int,
) -> Seq<Rgba> {
    Seq::new(
        (width * height) as nat,
        |i: int| composite_spec(atlas, records, clear, i % width, i / width),
    )
}

/// Draws a batch into a frame of `width` by `height` pixels, cleared to `clear`.
pub fn render_frame(
    atlas: &GlyphAtlas,
    records: &Vec<PrimitiveRecord>,
    clear: Rgba,
    width: u16,
    height: u16,
) -> (frame: Vec<Rgba>)
    ensures
        frame@ == frame_spec(atlas@, records@, clear, width as int, height as int),
{
    let mut frame: Vec<Rgba> = Vec::new();
    let mut y: u16 = 0;
    while y < height
        invariant
            y <= height,
            frame@.len() == y * width,
            forall|i: int|
                0 <= i < frame@.len() ==> #[trigger] frame@[i] == composite_spec(
                    atlas@,
                    records@,
                    clear,
                    i % (width as int),
                    i / (width as int),
                ),
        decreases height - y,
    {
        let mut x: u16 = 0;
        while x < width
            invariant
                x <= width,
                y < height,
                frame@.len() == y * width + x,
                forall|i: int|
                    0 <= i < frame@.len() ==> #[trigger] frame@[i] == composite_spec(
                        atlas@,
                        records@,
                        clear,
                        i % (width as int),
                        i / (width as int),
                    ),
            decreases width - x,
        {
            let pixel: Rgba = composite(atlas, records, clear, [x, y]);
            proof {
                let i = y * width + x;
                assert(i == (y as int) * (width as int) + x) by (nonlinear_arith)
                    requires
                        i == y * width + x,
                ;
                vstd::arithmetic::div_mod::lemma_fundamental_div_mod_converse(
                    i,
                    width as int,
                    y as int,
                    x as int,
                );
            }
            frame.push(pixel);
            x = x + 1;
        }
        proof {
            assert((y + 1) * width == y * width + width) by (nonlinear_arith);
        }
        y = y + 1;
    }
    proof {
        assert(y * width == width * height) by (nonlinear_arith)
            requires
                y == height,
        ;
    }
    frame
}

} // verus!
