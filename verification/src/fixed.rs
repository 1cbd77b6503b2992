//! Fixed-point scalars.
//!
//! Every fractional quantity of the renderer (colour channels, texture
//! coordinates, distances, stroke widths, normalized device coordinates) is an
//! integer count of millionths. Quotients round towards negative infinity
//! unless a function says otherwise, so each operation has one exact result
//! that its contract states over mathematical integers.

use vstd::prelude::*;

verus! {

/// The fixed-point representation of `1.0`.
pub const ONE: u32 = 1_000_000;

/// The fixed-point representation of `0.5`.
pub const HALF: u32 = 500_000;

/// Antialiasing half-width in texture-coordinate units (`0.002`).
pub const EPS: u32 = 2_000;

/// `r` is the integer square root of `n`, rounded down.
pub open spec fn is_floor_sqrt(n: nat, r: nat) -> bool {
    r * r <= n < (r + 1) * (r + 1)
}

/// The integer square root of `n`, rounded down.
pub closed spec fn floor_sqrt(n: nat) -> nat
    decreases n,
{
    if n == 0 {
        0
    } else {
        let r = floor_sqrt((n - 1) as nat);
        if (r + 1) * (r + 1) <= n {
            r + 1
        } else {
            r
        }
    }
}

/// `floor_sqrt(n)` is the greatest natural number whose square does not exceed `n`.
pub proof fn lemma_floor_sqrt_bounds(n: nat)
    ensures
        is_floor_sqrt(n, floor_sqrt(n)),
    decreases n,
{
    if n > 0 {
        lemma_floor_sqrt_bounds((n - 1) as nat);
        let r = floor_sqrt((n - 1) as nat);
        if (r + 1) * (r + 1) <= n {
            assert((r + 1) * (r + 1) < (r + 1 + 1) * (r + 1 + 1)) by (nonlinear_arith);
        } else {
            assert(r * r <= (r + 1) * (r + 1)) by (nonlinear_arith);
        }
    } else {
        assert(is_floor_sqrt(0, 0)) by (nonlinear_arith);
    }
}

/// Squaring keeps the order of natural numbers.
pub proof fn lemma_square_monotonic(a: nat, b: nat)
    requires
        a <= b,
    ensures
        a * a <= b * b,
{
    assert(a * a <= b * b) by (nonlinear_arith)
        requires
            a <= b,
    ;
}

/// At most one number is the rounded-down square root of `n`.
pub proof fn lemma_floor_sqrt_unique(n: nat, r: nat)
    requires
        is_floor_sqrt(n, r),
    ensures
        floor_sqrt(n) == r,
{
    let s = floor_sqrt(n);
    lemma_floor_sqrt_bounds(n);
    if s < r {
        lemma_square_monotonic(s + 1, r);
    } else if r < s {
        lemma_square_monotonic(r + 1, s);
    }
}

/// The integer square root, rounded down.
pub fn isqrt(n: u128) -> (r: u64)
    ensures
        r == floor_sqrt(n as nat),
        is_floor_sqrt(n as nat, r as nat),
{
    let mut lo: u128 = 0;
    let mut hi: u128 = 0x1_0000_0000_0000_0000;
    assert(n < hi * hi) by (nonlinear_arith)
        requires
            hi == 0x1_0000_0000_0000_0000u128,
            n <= u128::MAX,
    ;
    while hi - lo > 1
        invariant
            lo < hi <= 0x1_0000_0000_0000_0000,
            lo * lo <= n < hi * hi,
        decreases hi - lo,
    {
        let mid: u128 = lo + (hi - lo) / 2;
        assert(mid * mid <= u128::MAX) by (nonlinear_arith)
            requires
                mid <= 0xffff_ffff_ffff_ffffu128,
        ;
        if mid * mid <= n {
            lo = mid;
        } else {
            hi = mid;
        }
    }
    proof {
        lemma_floor_sqrt_unique(n as nat, lo as nat);
    }
    lo as u64
}

/// Euclidean length of the vector `(x, y)`, rounded down.
pub open spec fn length_spec(x: int, y: int) -> nat {
    floor_sqrt((x * x + y * y) as nat)
}

/// Euclidean length of the vector `(x, y)`, rounded down.
pub fn length(x: i64, y: i64) -> (r: u64)
    ensures
        r == length_spec(x as int, y as int),
{
    let ax: u128 = if x < 0 { (-(x as i128)) as u128 } else { x as u128 };
    let ay: u128 = if y < 0 { (-(y as i128)) as u128 } else { y as u128 };
    assert(ax * ax == x * x && ax * ax <= 0x4000_0000_0000_0000_0000_0000_0000_0000) by (nonlinear_arith)
        requires
            ax <= 0x8000_0000_0000_0000,
            ax == x || ax == -x,
    ;
    assert(ay * ay == y * y && ay * ay <= 0x4000_0000_0000_0000_0000_0000_0000_0000) by (nonlinear_arith)
        requires
            ay <= 0x8000_0000_0000_0000,
            ay == y || ay == -y,
    ;
    isqrt(ax * ax + ay * ay)
}

/// Linear ramp between two edges, clamped to `[0, ONE]`.
///
/// The ramp is `0` at `e0` and `ONE` at `e1`; the edges may come in either
/// order. Where they coincide the ramp is a step that rises just above the edge.
pub open spec fn ramp_spec(e0: int, e1: int, x: int) -> int {
    if e0 < e1 {
        if x <= e0 {
            0
        } else if x >= e1 {
            ONE as int
        } else {
            (x - e0) * ONE / (e1 - e0)
        }
    } else if e0 > e1 {
        if x >= e0 {
            0
        } else if x <= e1 {
            ONE as int
        } else {
            (e0 - x) * ONE / (e0 - e1)
        }
    } else {
        if x <= e0 {
            0
        } else {
            ONE as int
        }
    }
}

/// The cubic Hermite polynomial `t * t * (3 - 2 * t)` of a weight in `[0, ONE]`.
pub open spec fn hermite_spec(t: int) -> int {
    t * t * (3 * ONE - 2 * t) / (ONE * ONE)
}

/// Smooth Hermite interpolation between two edges: `0` on the side of `e0`,
/// `ONE` on the side of `e1`, and the cubic of the clamped ramp in between.
pub open spec fn smoothstep_spec(e0: int, e1: int, x: int) -> int {
    hermite_spec(ramp_spec(e0, e1, x))
}

/// A quotient of a smaller by a larger positive number, scaled, stays below the scale.
proof fn lemma_scaled_quotient(a: int, b: int, s: int)
    requires
        0 <= a < b,
        0 < s,
    ensures
        0 <= a * s / b < s,
        a * s >= 0,
{
    assert(a * s >= 0 && a * s < b * s) by (nonlinear_arith)
        requires
            0 <= a < b,
            0 < s,
    ;
    vstd::arithmetic::div_mod::lemma_div_pos_is_pos(a * s, b);
    vstd::arithmetic::div_mod::lemma_multiply_divide_lt(a * s, b, s);
}

/// Linear ramp between two edges, clamped to `[0, ONE]`.
pub fn ramp(e0: i64, e1: i64, x: i64) -> (t: u32)
    ensures
        t == ramp_spec(e0 as int, e1 as int, x as int),
        t <= ONE,
{
    if e0 < e1 {
        if x <= e0 {
            0
        } else if x >= e1 {
            ONE
        } else {
            let num: i128 = x as i128 - e0 as i128;
            let den: i128 = e1 as i128 - e0 as i128;
            proof {
                lemma_scaled_quotient(num as int, den as int, ONE as int);
                assert(num * ONE <= 0x1_0000_0000_0000_0000 * 1_000_000) by (nonlinear_arith)
                    requires
                        0 <= num <= 0x1_0000_0000_0000_0000,
                ;
            }
            let q: i128 = num * (ONE as i128) / den;
            q as u32
        }
    } else if e0 > e1 {
        if x >= e0 {
            0
        } else if x <= e1 {
            ONE
        } else {
            let num: i128 = e0 as i128 - x as i128;
            let den: i128 = e0 as i128 - e1 as i128;
            proof {
                lemma_scaled_quotient(num as int, den as int, ONE as int);
                assert(num * ONE <= 0x1_0000_0000_0000_0000 * 1_000_000) by (nonlinear_arith)
                    requires
                        0 <= num <= 0x1_0000_0000_0000_0000,
                ;
            }
            let q: i128 = num * (ONE as i128) / den;
            q as u32
        }
    } else {
        if x <= e0 {
            0
        } else {
            ONE
        }
    }
}

/// The Hermite cubic maps `[0, ONE]` into `[0, ONE]`, fixing both ends and the middle.
pub proof fn lemma_hermite_range(t: int)
    requires
        0 <= t <= ONE,
    ensures
        0 <= hermite_spec(t) <= ONE,
        0 <= t * t * (3 * ONE - 2 * t) <= ONE * ONE * ONE,
        t == 0 ==> hermite_spec(t) == 0,
        t == ONE ==> hermite_spec(t) == ONE,
        t == HALF ==> hermite_spec(t) == HALF,
{
    let s = ONE as int;
    let p = t * t * (3 * s - 2 * t);
    assert(0 <= p) by (nonlinear_arith)
        requires
            0 <= t <= s,
            p == t * t * (3 * s - 2 * t),
    ;
    assert(s * s * s - p == (s - t) * (s - t) * (s + 2 * t)) by (nonlinear_arith)
        requires
            p == t * t * (3 * s - 2 * t),
    ;
    assert((s - t) * (s - t) * (s + 2 * t) >= 0) by (nonlinear_arith)
        requires
            0 <= t <= s,
    ;
    assert(s * s == 1_000_000_000_000) by (nonlinear_arith)
        requires
            s == 1_000_000,
    ;
    assert(s * s * s == 1_000_000_000_000 * 1_000_000) by (nonlinear_arith)
        requires
            s * s == 1_000_000_000_000,
            s == 1_000_000,
    ;
    if t == 0 {
        assert(p == 0) by (nonlinear_arith)
            requires
                p == t * t * (3 * s - 2 * t),
                t == 0,
        ;
    }
    if t == s {
        assert(p == 1_000_000_000_000 * 1_000_000) by (nonlinear_arith)
            requires
                p == t * t * (3 * s - 2 * t),
                t == 1_000_000,
                s == 1_000_000,
        ;
    }
    if t == HALF {
        assert(p == 1_000_000_000_000 * 500_000) by (nonlinear_arith)
            requires
                p == t * t * (3 * s - 2 * t),
                t == 500_000,
                s == 1_000_000,
        ;
    }
}

/// The cubic Hermite polynomial of a weight in `[0, ONE]`.
pub fn hermite(t: u32) -> (r: u32)
    requires
        t <= ONE,
    ensures
        r == hermite_spec(t as int),
        r <= ONE,
{
    proof {
        lemma_hermite_range(t as int);
        assert(t * t <= 1_000_000_000_000) by (nonlinear_arith)
            requires
                t <= 1_000_000,
        ;
        assert((ONE as int) * (ONE as int) == 1_000_000_000_000) by (nonlinear_arith);
    }
    let tt: u64 = (t as u64) * (t as u64);
    let k: u64 = 3 * (ONE as u64) - 2 * (t as u64);
    let p: u64 = tt * k;
    (p / 1_000_000_000_000) as u32
}

/// Smooth Hermite interpolation between two edges.
pub fn smoothstep(e0: i64, e1: i64, x: i64) -> (r: u32)
    ensures
        r == smoothstep_spec(e0 as int, e1 as int, x as int),
        r <= ONE,
{
    hermite(ramp(e0, e1, x))
}

/// Linear blend `a * (1 - t) + b * t` of two values by a weight in `[0, ONE]`.
pub open spec fn mix_spec(a: int, b: int, t: int) -> int {
    (a * (ONE - t) + b * t) / (ONE as int)
}

/// Linear blend of two values by a weight in `[0, ONE]`.
pub fn mix(a: u32, b: u32, t: u32) -> (r: u32)
    requires
        t <= ONE,
    ensures
        r == mix_spec(a as int, b as int, t as int),
        a <= b ==> a <= r <= b,
        b <= a ==> b <= r <= a,
{
    let s: u64 = ONE as u64;
    let w: u64 = s - t as u64;
    proof {
        let lo: int = if a <= b { a as int } else { b as int };
        let hi: int = if a <= b { b as int } else { a as int };
        assert(lo * s <= a * w + b * t <= hi * s && a * w >= 0 && b * t >= 0 && a * w <= hi * s) by (nonlinear_arith)
            requires
                lo <= a <= hi,
                lo <= b <= hi,
                0 <= lo,
                0 <= t <= s,
                w == s - t,
        ;
        assert(hi * s <= 0xffff_ffff * 1_000_000) by (nonlinear_arith)
            requires
                hi <= 0xffff_ffff,
                s == 1_000_000,
        ;
        vstd::arithmetic::div_mod::lemma_div_is_ordered(lo * s, a * w + b * t, s as int);
        vstd::arithmetic::div_mod::lemma_div_is_ordered(a * w + b * t, hi * s, s as int);
        vstd::arithmetic::div_mod::lemma_div_multiples_vanish(lo, s as int);
        vstd::arithmetic::div_mod::lemma_div_multiples_vanish(hi, s as int);
    }
    let p: u64 = (a as u64) * w + (b as u64) * (t as u64);
    (p / s) as u32
}

/// The product `c * a` of a value and a factor in `[0, ONE]`.
pub open spec fn scale_spec(c: int, a: int) -> int {
    c * a / (ONE as int)
}

/// The product of a value and a factor in `[0, ONE]`.
pub fn scale(c: u32, a: u32) -> (r: u32)
    requires
        a <= ONE,
    ensures
        r == scale_spec(c as int, a as int),
        r <= c,
        a == ONE ==> r == c,
        a == 0 ==> r == 0,
{
    let s: u64 = ONE as u64;
    proof {
        assert(0 <= c * a <= c * s) by (nonlinear_arith)
            requires
                0 <= a <= s,
                0 <= c,
        ;
        assert(c * s <= 0xffff_ffff * 1_000_000) by (nonlinear_arith)
            requires
                c <= 0xffff_ffff,
                s == 1_000_000,
        ;
        vstd::arithmetic::div_mod::lemma_div_is_ordered(c * a, c * s, s as int);
        vstd::arithmetic::div_mod::lemma_div_multiples_vanish(c as int, s as int);
        if a == 0 {
            assert(c * a == 0) by (nonlinear_arith)
                requires
                    a == 0,
            ;
        }
    }
    let p: u64 = (c as u64) * (a as u64);
    (p / s) as u32
}

/// The middle one of three values.
pub open spec fn median_spec(r: int, g: int, b: int) -> int {
    let lo = if r <= g { r } else { g };
    let hi = if r <= g { g } else { r };
    let capped = if hi <= b { hi } else { b };
    if lo >= capped { lo } else { capped }
}

/// The middle one of three values: the greater of `min(r, g)` and `min(max(r, g), b)`.
pub fn median3(r: u32, g: u32, b: u32) -> (m: u32)
    ensures
        m == median_spec(r as int, g as int, b as int),
        m == r || m == g || m == b,
        (r <= m && m <= g) || (g <= m && m <= r) || (r <= m && m <= b) || (b <= m && m <= r)
            || (g <= m && m <= b) || (b <= m && m <= g),
        (r <= g <= b || b <= g <= r) ==> m == g,
        (g <= r <= b || b <= r <= g) ==> m == r,
        (r <= b <= g || g <= b <= r) ==> m == b,
{
    let lo: u32 = if r <= g { r } else { g };
    let hi: u32 = if r <= g { g } else { r };
    let capped: u32 = if hi <= b { hi } else { b };
    if lo >= capped { lo } else { capped }
}

/// The quotient `n / d`, rounded to the nearest integer, halves rounding up.
pub open spec fn div_round_spec(n: int, d: int) -> int {
    (2 * n + d) / (2 * d)
}

/// The quotient of a natural number by a positive one, rounded to the nearest
/// integer, halves rounding up.
pub fn div_round(n: u64, d: u64) -> (q: u64)
    requires
        d > 0,
    ensures
        q == div_round_spec(n as int, d as int),
{
    let wide: u128 = 2 * (n as u128) + d as u128;
    let q: u128 = wide / (2 * (d as u128));
    proof {
        assert(wide < (2 * d) * (n + 1)) by (nonlinear_arith)
            requires
                wide == 2 * n + d,
                d >= 1,
                n >= 0,
        ;
        vstd::arithmetic::div_mod::lemma_multiply_divide_lt(wide as int, 2 * d as int, n + 1);
    }
    q as u64
}

} // verus!
