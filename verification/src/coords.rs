//! Pixel space and normalized device coordinates.
//!
//! Pixel space has its origin at the top left and grows to the right and
//! downwards. Clip space spans `[-1, 1]` on both axes and grows upwards, so the
//! mapping flips the vertical axis. Positions are scaled by half the
//! resolution; sizes are scaled by the full resolution. Both quotients round to
//! the nearest fixed-point value. The way back to pixels misses by no more than
//! a quarter of a millionth of the viewport and half a pixel, which makes it
//! exact for every viewport narrower than two million pixels.

use crate::fixed::{div_round, div_round_spec, ONE};
use vstd::prelude::*;

verus! {

/// Viewport size in pixels. Both extents are positive.
#[derive(Clone, Copy, Debug)]
pub struct Resolution {
    width: u32,
    height: u32,
}

/// Horizontal clip-space coordinate of pixel column `px` in a viewport `width` pixels wide:
/// `px / (width / 2) - 1`.
pub open spec fn ndc_x_spec(width: int, px: int) -> int {
    div_round_spec(2 * px * ONE, width) - ONE
}

/// Vertical clip-space coordinate of pixel row `py` in a viewport `height` pixels high:
/// `1 - py / (height / 2)`.
pub open spec fn ndc_y_spec(height: int, py: int) -> int {
    ONE - div_round_spec(2 * py * ONE, height)
}

/// Pixel column of the horizontal clip-space coordinate `x`: `(x + 1) * width / 2`.
pub open spec fn pixel_x_spec(width: int, x: int) -> int {
    div_round_spec((x + ONE) * width, 2 * ONE)
}

/// Pixel row of the vertical clip-space coordinate `y`: `(1 - y) * height / 2`.
pub open spec fn pixel_y_spec(height: int, y: int) -> int {
    div_round_spec((ONE - y) * height, 2 * ONE)
}

/// Clip-space half-extent of a quad `extent` pixels in size: `extent / resolution`.
pub open spec fn ndc_size_spec(resolution: int, extent: int) -> int {
    div_round_spec(extent * ONE, resolution)
}

/// A rounded quotient lies within half a divisor of the exact one.
pub proof fn lemma_div_round_bounds(n: int, d: int)
    requires
        d > 0,
    ensures
        2 * d * div_round_spec(n, d) <= 2 * n + d < 2 * d * div_round_spec(n, d) + 2 * d,
{
    let q = div_round_spec(n, d);
    vstd::arithmetic::div_mod::lemma_fundamental_div_mod(2 * n + d, 2 * d);
    vstd::arithmetic::div_mod::lemma_mod_bound(2 * n + d, 2 * d);
    assert(2 * d * q == (2 * d) * q) by (nonlinear_arith);
}

/// A quotient that lies within half a divisor of `q` rounds to `q`.
pub proof fn lemma_div_round_unique(n: int, d: int, q: int)
    requires
        d > 0,
        2 * d * q <= 2 * n + d < 2 * d * q + 2 * d,
    ensures
        div_round_spec(n, d) == q,
{
    let r = 2 * n + d - 2 * d * q;
    assert(2 * n + d == q * (2 * d) + r) by (nonlinear_arith)
        requires
            r == 2 * n + d - 2 * d * q,
    ;
    vstd::arithmetic::div_mod::lemma_fundamental_div_mod_converse(2 * n + d, 2 * d, q, r);
}

/// Scaling a coordinate by an extent and back returns the coordinate, as long as
/// the extent is positive and below `2 * ONE`.
proof fn lemma_scale_round_trip(extent: int, p: int)
    requires
        0 < extent < 2 * ONE,
    ensures
        div_round_spec(div_round_spec(2 * p * ONE, extent) * extent, 2 * ONE) == p,
{
    let s = ONE as int;
    let n = div_round_spec(2 * p * s, extent);
    lemma_div_round_bounds(2 * p * s, extent);
    // 2 * extent * n <= 4 * p * s + extent < 2 * extent * n + 2 * extent
    let m = n * extent;
    assert(2 * extent * n == 2 * m) by (nonlinear_arith)
        requires
            m == n * extent,
    ;
    assert(2 * (2 * s) * p == 4 * p * s) by (nonlinear_arith);
    assert(2 * (2 * p * s) == 4 * p * s) by (nonlinear_arith);
    lemma_div_round_unique(m, 2 * s, p);
}

/// Scaling a coordinate by any positive extent and back misses it by no more
/// than a quarter of a millionth of the extent and half a unit.
proof fn lemma_scale_round_trip_bound(extent: int, p: int)
    requires
        0 < extent,
    ensures
        ({
            let back = div_round_spec(div_round_spec(2 * p * ONE, extent) * extent, 2 * ONE);
            -(extent + 2 * ONE) < 4 * ONE * (back - p) <= extent + 2 * ONE
        }),
{
    let s = ONE as int;
    let n = div_round_spec(2 * p * s, extent);
    lemma_div_round_bounds(2 * p * s, extent);
    let m = n * extent;
    assert(2 * extent * n == 2 * m) by (nonlinear_arith)
        requires
            m == n * extent,
    ;
    assert(2 * (2 * p * s) == 4 * s * p) by (nonlinear_arith);
    let back = div_round_spec(m, 2 * s);
    lemma_div_round_bounds(m, 2 * s);
    assert(2 * (2 * s) * back == 4 * s * back) by (nonlinear_arith);
    assert(4 * s * (back - p) == 4 * s * back - 4 * s * p) by (nonlinear_arith);
}

/// In every viewport, mapping a pixel column to clip space and back misses
/// the column by no more than a quarter of a millionth of the width and half
/// a pixel.
pub proof fn lemma_round_trip_bound_x(width: int, px: int)
    requires
        0 < width,
    ensures
        -(width + 2 * ONE) < 4 * ONE * (pixel_x_spec(width, ndc_x_spec(width, px)) - px) <= width
            + 2 * ONE,
{
    lemma_scale_round_trip_bound(width, px);
}

/// In every viewport, mapping a pixel row to clip space and back misses the
/// row by no more than a quarter of a millionth of the height and half a pixel.
pub proof fn lemma_round_trip_bound_y(height: int, py: int)
    requires
        0 < height,
    ensures
        -(height + 2 * ONE) < 4 * ONE * (pixel_y_spec(height, ndc_y_spec(height, py)) - py)
            <= height + 2 * ONE,
{
    lemma_scale_round_trip_bound(height, py);
}

/// Mapping a pixel column to clip space and back returns the column, in every
/// viewport narrower than `2 * ONE` pixels.
pub proof fn lemma_round_trip_x(width: int, px: int)
    requires
        0 < width < 2 * ONE,
    ensures
        pixel_x_spec(width, ndc_x_spec(width, px)) == px,
{
    lemma_scale_round_trip(width, px);
}

/// Mapping a pixel row to clip space and back returns the row, in every
/// viewport lower than `2 * ONE` pixels.
pub proof fn lemma_round_trip_y(height: int, py: int)
    requires
        0 < height < 2 * ONE,
    ensures
        pixel_y_spec(height, ndc_y_spec(height, py)) == py,
{
    lemma_scale_round_trip(height, py);
}

/// The corners of the viewport map to the corners of clip space: the top left
/// pixel to `(-1, 1)`, the pixel one past the bottom right to `(1, -1)`.
pub proof fn lemma_viewport_corners(width: int, height: int)
    requires
        width > 0,
        height > 0,
    ensures
        ndc_x_spec(width, 0) == -ONE,
        ndc_y_spec(height, 0) == ONE,
        ndc_x_spec(width, width) == ONE,
        ndc_y_spec(height, height) == -ONE,
{
    let s = ONE as int;
    assert(2 * 0 * s == 0);
    lemma_div_round_unique(0, width, 0);
    lemma_div_round_unique(0, height, 0);
    assert(2 * width * (2 * s) == 2 * (2 * width * s)) by (nonlinear_arith);
    assert(2 * height * (2 * s) == 2 * (2 * height * s)) by (nonlinear_arith);
    lemma_div_round_unique(2 * width * s, width, 2 * s);
    lemma_div_round_unique(2 * height * s, height, 2 * s);
}

/// The quotient `n / d` of integers, rounded towards negative infinity.
fn div_floor(n: i128, d: i128) -> (q: i128)
    requires
        d > 0,
        n > i128::MIN,
    ensures
        q == n / d,
{
    if n >= 0 {
        n / d
    } else {
        let m: i128 = -n - 1;
        let k: i128 = m / d;
        proof {
            let r = (m as int) % (d as int);
            vstd::arithmetic::div_mod::lemma_fundamental_div_mod(m as int, d as int);
            vstd::arithmetic::div_mod::lemma_mod_bound(m as int, d as int);
            assert(n == (-k - 1) * d + (d - 1 - r)) by (nonlinear_arith)
                requires
                    m == d * k + r,
                    m == -n - 1,
            ;
            vstd::arithmetic::div_mod::lemma_fundamental_div_mod_converse(
                n as int,
                d as int,
                -k - 1,
                d - 1 - r,
            );
        }
        -k - 1
    }
}

impl Resolution {
    #[verifier::type_invariant]
    spec fn positive(self) -> bool {
        self.width > 0 && self.height > 0
    }

    /// Width of the viewport in pixels.
    pub closed spec fn width_spec(self) -> int {
        self.width as int
    }

    /// Height of the viewport in pixels.
    pub closed spec fn height_spec(self) -> int {
        self.height as int
    }

    /// A viewport of the given size, unless one of the extents is zero.
    pub fn new(width: u32, height: u32) -> (r: Option<Resolution>)
        ensures
            r is Some <==> width > 0 && height > 0,
            r matches Some(res) ==> res.width_spec() == width && res.height_spec() == height,
    {
        if width > 0 && height > 0 {
            Some(Resolution { width, height })
        } else {
            None
        }
    }

    /// Width of the viewport in pixels.
    pub fn width(&self) -> (w: u32)
        ensures
            w == self.width_spec(),
            w > 0,
    {
        proof {
            use_type_invariant(self);
        }
        self.width
    }

    /// Height of the viewport in pixels.
    pub fn height(&self) -> (h: u32)
        ensures
            h == self.height_spec(),
            h > 0,
    {
        proof {
            use_type_invariant(self);
        }
        self.height
    }
}

/// Maps a pixel position to clip space:
/// `(pixel.x / (resolution.x / 2) - 1, 1 - pixel.y / (resolution.y / 2))`.
pub fn to_ndc(resolution: &Resolution, pixel: [u16; 2]) -> (ndc: [i64; 2])
    ensures
        ndc[0] == ndc_x_spec(resolution.width_spec(), pixel[0] as int),
        ndc[1] == ndc_y_spec(resolution.height_spec(), pixel[1] as int),
        -(ONE as int) <= ndc[0] <= 2 * 65535 * ONE,
        -2 * 65535 * ONE <= ndc[1] <= ONE,
{
    let s: u64 = ONE as u64;
    let px: u64 = pixel[0] as u64;
    let py: u64 = pixel[1] as u64;
    assert(2 * px * s <= 2 * 65535 * 1_000_000 && 2 * px * s == 2 * (pixel[0] as int) * ONE)
        by (nonlinear_arith)
        requires
            px <= 65535,
            s == 1_000_000,
            px == pixel[0],
    ;
    assert(2 * py * s <= 2 * 65535 * 1_000_000 && 2 * py * s == 2 * (pixel[1] as int) * ONE)
        by (nonlinear_arith)
        requires
            py <= 65535,
            s == 1_000_000,
            py == pixel[1],
    ;
    let nx: u64 = 2 * px * s;
    let ny: u64 = 2 * py * s;
    let w: u64 = resolution.width() as u64;
    let h: u64 = resolution.height() as u64;
    let qx: u64 = div_round(nx, w);
    let qy: u64 = div_round(ny, h);
    proof {
        lemma_div_round_le(nx as int, w as int);
        lemma_div_round_le(ny as int, h as int);
    }
    [qx as i64 - s as i64, s as i64 - qy as i64]
}

/// A rounded quotient of a natural number by a positive one does not exceed the number.
pub proof fn lemma_div_round_le(n: int, d: int)
    requires
        n >= 0,
        d > 0,
    ensures
        0 <= div_round_spec(n, d) <= n,
{
    assert(2 * n + d < (2 * d) * (n + 1)) by (nonlinear_arith)
        requires
            d >= 1,
            n >= 0,
    ;
    vstd::arithmetic::div_mod::lemma_multiply_divide_lt(2 * n + d, 2 * d, n + 1);
    vstd::arithmetic::div_mod::lemma_div_pos_is_pos(2 * n + d, 2 * d);
}

/// Maps a clip-space half-extent back from a size in pixels: `dimensions / resolution`.
pub fn ndc_size(resolution: &Resolution, dimensions: [u16; 2]) -> (size: [i64; 2])
    ensures
        size[0] == ndc_size_spec(resolution.width_spec(), dimensions[0] as int),
        size[1] == ndc_size_spec(resolution.height_spec(), dimensions[1] as int),
        0 <= size[0] <= 65535 * ONE,
        0 <= size[1] <= 65535 * ONE,
{
    let s: u64 = ONE as u64;
    let dx: u64 = dimensions[0] as u64;
    let dy: u64 = dimensions[1] as u64;
    assert(dx * s <= 65535 * 1_000_000 && dx * s == (dimensions[0] as int) * ONE) by (nonlinear_arith)
        requires
            dx <= 65535,
            s == 1_000_000,
            dx == dimensions[0],
    ;
    assert(dy * s <= 65535 * 1_000_000 && dy * s == (dimensions[1] as int) * ONE) by (nonlinear_arith)
        requires
            dy <= 65535,
            s == 1_000_000,
            dy == dimensions[1],
    ;
    let w: u64 = resolution.width() as u64;
    let h: u64 = resolution.height() as u64;
    let qx: u64 = div_round(dx * s, w);
    let qy: u64 = div_round(dy * s, h);
    proof {
        lemma_div_round_le((dx * s) as int, w as int);
        lemma_div_round_le((dy * s) as int, h as int);
    }
    [qx as i64, qy as i64]
}

/// The pixel that a clip-space point falls on, mapped through
/// `((x + 1) * resolution.x / 2, (1 - y) * resolution.y / 2)`.
///
/// The result is `None` exactly when the point lies outside the range of
/// 16-bit pixel coordinates.
pub fn ndc_to_pixel(resolution: &Resolution, ndc: [i64; 2]) -> (pixel: Option<[u16; 2]>)
    ensures
        pixel is Some <==> {
            &&& 0 <= pixel_x_spec(resolution.width_spec(), ndc[0] as int) <= u16::MAX
            &&& 0 <= pixel_y_spec(resolution.height_spec(), ndc[1] as int) <= u16::MAX
        },
        pixel matches Some(p) ==> {
            &&& p[0] == pixel_x_spec(resolution.width_spec(), ndc[0] as int)
            &&& p[1] == pixel_y_spec(resolution.height_spec(), ndc[1] as int)
        },
{
    let s: i128 = ONE as i128;
    let w: i128 = resolution.width() as i128;
    let h: i128 = resolution.height() as i128;
    let ax: i128 = ndc[0] as i128 + s;
    let ay: i128 = s - ndc[1] as i128;
    assert(-0x1_0000_0000_0000_0000 * 0x1_0000_0000 <= ax * w <= 0x1_0000_0000_0000_0000
        * 0x1_0000_0000) by (nonlinear_arith)
        requires
            -0x1_0000_0000_0000_0000 <= ax <= 0x1_0000_0000_0000_0000,
            0 < w <= 0x1_0000_0000,
    ;
    assert(-0x1_0000_0000_0000_0000 * 0x1_0000_0000 <= ay * h <= 0x1_0000_0000_0000_0000
        * 0x1_0000_0000) by (nonlinear_arith)
        requires
            -0x1_0000_0000_0000_0000 <= ay <= 0x1_0000_0000_0000_0000,
            0 < h <= 0x1_0000_0000,
    ;
    let x: i128 = div_floor(2 * (ax * w) + 2 * s, 4 * s);
    let y: i128 = div_floor(2 * (ay * h) + 2 * s, 4 * s);
    if 0 <= x && x <= 65535 && 0 <= y && y <= 65535 {
        Some([x as u16, y as u16])
    } else {
        None
    }
}

} // verus!
