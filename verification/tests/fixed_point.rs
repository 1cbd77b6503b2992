use sdf_render::fixed::{
    div_round, hermite, isqrt, length, median3, mix, ramp, scale, smoothstep, EPS, HALF, ONE,
};

#[test]
fn constants_stand_for_their_fractions() {
    assert_eq!(ONE, 1_000_000);
    assert_eq!(HALF * 2, ONE);
    assert_eq!(EPS as f64 / ONE as f64, 0.002);
}

#[test]
fn isqrt_rounds_down() {
    assert_eq!(isqrt(0), 0);
    assert_eq!(isqrt(1), 1);
    assert_eq!(isqrt(2), 1);
    assert_eq!(isqrt(3), 1);
    assert_eq!(isqrt(4), 2);
    assert_eq!(isqrt(99), 9);
    assert_eq!(isqrt(100), 10);
    assert_eq!(isqrt(250_000_000_000), 500_000);
    assert_eq!(isqrt(249_999_999_999), 499_999);
    assert_eq!(isqrt(u128::MAX), u64::MAX);
    assert_eq!(isqrt((u64::MAX as u128) * (u64::MAX as u128)), u64::MAX);
    assert_eq!(isqrt((u64::MAX as u128) * (u64::MAX as u128) - 1), u64::MAX - 1);
    for n in 0u128..2_000 {
        let r = isqrt(n) as u128;
        assert!(r * r <= n && n < (r + 1) * (r + 1));
    }
}

#[test]
fn length_is_the_rounded_down_norm() {
    assert_eq!(length(0, 0), 0);
    assert_eq!(length(3, 4), 5);
    assert_eq!(length(-3, 4), 5);
    assert_eq!(length(3, -4), 5);
    assert_eq!(length(-3, -4), 5);
    assert_eq!(length(1, 1), 1);
    assert_eq!(length(500_000, 0), 500_000);
    assert_eq!(length(-500_000, -500_000), 707_106);
    assert_eq!(length(i64::MIN, 0), 1u64 << 63);
    assert_eq!(length(i64::MIN, i64::MIN), 13_043_817_825_332_782_212);
}

#[test]
fn ramp_is_linear_between_the_edges() {
    assert_eq!(ramp(0, 1_000, -1), 0);
    assert_eq!(ramp(0, 1_000, 0), 0);
    assert_eq!(ramp(0, 1_000, 250), 250_000);
    assert_eq!(ramp(0, 1_000, 999), 999_000);
    assert_eq!(ramp(0, 1_000, 1_000), ONE);
    assert_eq!(ramp(0, 1_000, 5_000), ONE);
    assert_eq!(ramp(0, 3, 1), 333_333);
    assert_eq!(ramp(0, 3, 2), 666_666);
}

#[test]
fn ramp_takes_its_edges_in_either_order() {
    assert_eq!(ramp(1_000, 0, 1_001), 0);
    assert_eq!(ramp(1_000, 0, 1_000), 0);
    assert_eq!(ramp(1_000, 0, 750), 250_000);
    assert_eq!(ramp(1_000, 0, 0), ONE);
    assert_eq!(ramp(1_000, 0, -7), ONE);
    assert_eq!(ramp(2_000, -2_000, 0), HALF);
}

#[test]
fn ramp_with_equal_edges_is_a_step() {
    assert_eq!(ramp(5, 5, 4), 0);
    assert_eq!(ramp(5, 5, 5), 0);
    assert_eq!(ramp(5, 5, 6), ONE);
}

#[test]
fn ramp_holds_over_the_whole_range() {
    assert_eq!(ramp(i64::MIN, i64::MAX, 0), 500_000);
    assert_eq!(ramp(i64::MIN, i64::MAX, i64::MIN), 0);
    assert_eq!(ramp(i64::MIN, i64::MAX, i64::MAX), ONE);
    assert_eq!(ramp(i64::MAX, i64::MIN, i64::MAX - 1), 0);
    assert_eq!(ramp(i64::MAX, i64::MIN, i64::MIN + 1), 999_999);
}

#[test]
fn hermite_is_the_cubic() {
    assert_eq!(hermite(0), 0);
    assert_eq!(hermite(ONE), ONE);
    assert_eq!(hermite(HALF), HALF);
    // 0.25^2 * (3 - 0.5) = 0.15625
    assert_eq!(hermite(250_000), 156_250);
    // 0.75^2 * (3 - 1.5) = 0.84375
    assert_eq!(hermite(750_000), 843_750);
    // 0.1^2 * (3 - 0.2) = 0.028
    assert_eq!(hermite(100_000), 28_000);
    // 0.000001^2 * (3 - 0.000002) rounds down to nothing
    assert_eq!(hermite(1), 0);
    for t in (0..=ONE).step_by(9_973) {
        let x = t as f64 / 1e6;
        let exact = x * x * (3.0 - 2.0 * x);
        let got = hermite(t) as f64 / 1e6;
        assert!(got <= exact + 1e-12 && exact - got < 1.0e-6 + 1e-12);
    }
}

#[test]
fn smoothstep_matches_the_formula() {
    assert_eq!(smoothstep(0, 1_000, 250), 156_250);
    assert_eq!(smoothstep(1_000, 0, 750), 156_250);
    assert_eq!(smoothstep(2_000, -2_000, 0), HALF);
    assert_eq!(smoothstep(0, -2_000, 0), 0);
    assert_eq!(smoothstep(0, -2_000, -2_000), ONE);
    assert_eq!(smoothstep(0, -2_000, -1_000), HALF);
    assert_eq!(smoothstep(0, -2_000, 17), 0);
    assert_eq!(smoothstep(7, 7, 7), 0);
    assert_eq!(smoothstep(7, 7, 8), ONE);
}

#[test]
fn mix_blends_linearly() {
    assert_eq!(mix(0, ONE, 0), 0);
    assert_eq!(mix(0, ONE, ONE), ONE);
    assert_eq!(mix(0, ONE, 250_000), 250_000);
    assert_eq!(mix(ONE, 0, 250_000), 750_000);
    assert_eq!(mix(200_000, 600_000, HALF), 400_000);
    assert_eq!(mix(7, 7, 123_456), 7);
    assert_eq!(mix(u32::MAX, u32::MAX, HALF), u32::MAX);
    assert_eq!(mix(u32::MAX, 0, 0), u32::MAX);
    assert_eq!(mix(0, u32::MAX, ONE), u32::MAX);
    assert_eq!(mix(0, 1, 999_999), 0);
    assert_eq!(mix(0, 3, HALF), 1);
}

#[test]
fn scale_multiplies_by_a_fraction() {
    assert_eq!(scale(ONE, ONE), ONE);
    assert_eq!(scale(ONE, 0), 0);
    assert_eq!(scale(0, ONE), 0);
    assert_eq!(scale(600_000, HALF), 300_000);
    assert_eq!(scale(u32::MAX, ONE), u32::MAX);
    assert_eq!(scale(u32::MAX, HALF), u32::MAX / 2);
    assert_eq!(scale(3, HALF), 1);
    assert_eq!(scale(1, 999_999), 0);
}

#[test]
fn median_is_the_middle_value() {
    assert_eq!(median3(1, 2, 3), 2);
    assert_eq!(median3(1, 3, 2), 2);
    assert_eq!(median3(2, 1, 3), 2);
    assert_eq!(median3(2, 3, 1), 2);
    assert_eq!(median3(3, 1, 2), 2);
    assert_eq!(median3(3, 2, 1), 2);
    assert_eq!(median3(5, 5, 9), 5);
    assert_eq!(median3(9, 5, 5), 5);
    assert_eq!(median3(5, 9, 5), 5);
    assert_eq!(median3(0, 255, 255), 255);
    assert_eq!(median3(7, 7, 7), 7);
    // one stray channel does not pull the result, as an average would
    assert_eq!(median3(128, 128, 0), 128);
    assert_eq!(median3(u32::MAX, 0, 1_000_000), 1_000_000);
    for r in (0..=255u32).step_by(17) {
        for g in (0..=255u32).step_by(15) {
            for b in (0..=255u32).step_by(51) {
                let mut sorted = [r, g, b];
                sorted.sort();
                assert_eq!(median3(r, g, b), sorted[1]);
            }
        }
    }
}

#[test]
fn div_round_rounds_to_nearest_with_halves_up() {
    assert_eq!(div_round(0, 7), 0);
    assert_eq!(div_round(3, 7), 0);
    assert_eq!(div_round(4, 7), 1);
    assert_eq!(div_round(7, 2), 4);
    assert_eq!(div_round(5, 2), 3);
    assert_eq!(div_round(1, 2), 1);
    assert_eq!(div_round(10, 4), 3);
    assert_eq!(div_round(9, 4), 2);
    assert_eq!(div_round(u64::MAX, 1), u64::MAX);
    assert_eq!(div_round(u64::MAX, u64::MAX), 1);
    assert_eq!(div_round(u64::MAX / 2, u64::MAX), 0);
    assert_eq!(div_round(u64::MAX / 2 + 1, u64::MAX), 1);
}
