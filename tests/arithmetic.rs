use raymarcher::fixed::{fdiv, fmul, isqrt, saturate, LIMIT, SCALE};
use raymarcher::math::{difference, difference_smooth, lerp, max_smooth, min_smooth};

const S: i64 = SCALE;

#[test]
fn isqrt_rounds_down() {
    assert_eq!(isqrt(0), 0);
    assert_eq!(isqrt(15), 3);
    assert_eq!(isqrt(16), 4);
    assert_eq!(isqrt(u64::MAX as u128), 4294967295);
}

#[test]
fn products_and_quotients_round_down() {
    assert_eq!(fmul(2 * S, 3 * S), 6 * S);
    assert_eq!(fmul(-1, 1), -1);
    assert_eq!(fdiv(S, 3 * S), 21845);
    assert_eq!(fdiv(S, -2 * S), -S / 2);
}

#[test]
fn results_saturate() {
    assert_eq!(saturate(i128::MAX / 2), LIMIT);
    assert_eq!(saturate(-(LIMIT as i128) - 1), -LIMIT);
    assert_eq!(fmul(LIMIT, LIMIT), LIMIT);
    assert_eq!(fdiv(LIMIT, 1), LIMIT);
}

#[test]
fn lerp_interpolates() {
    assert_eq!(lerp(0, S, S / 4), S / 4);
    assert_eq!(lerp(S, 3 * S, S / 2), 2 * S);
    assert_eq!(lerp(5 * S, -S, 0), 5 * S);
    assert_eq!(lerp(5 * S, -S, S), -S);
}

#[test]
fn difference_is_max_of_a_and_minus_b() {
    assert_eq!(difference(S, 2 * S), S);
    assert_eq!(difference(-3 * S, S / 2), -S / 2);
}

#[test]
fn smooth_min_matches_polynomial_blend() {
    // h = 0.25: lerp(0, 0.5, 0.25) - 1 * 0.25 * 0.75 = -0.0625
    assert_eq!(min_smooth(0, S / 2, S), -S / 16);
    // equal inputs are pulled down by k / 4
    assert_eq!(min_smooth(S, S, S), S - S / 4);
    assert_eq!(max_smooth(S, S, S), S + S / 4);
}

#[test]
fn smooth_min_never_exceeds_hard_min() {
    let triples = [
        (0, S / 2, S),
        (S, S, S),
        (3 * S, -S, 2 * S),
        (-7 * S, -7 * S + 1, 5),
        (12345, 54321, 999),
        (S, 2 * S, S),
    ];
    for (a, b, k) in triples {
        let m = if a < b { a } else { b };
        let r = min_smooth(a, b, k);
        assert!(r <= m);
        assert!(r >= m - k / 4 - 1);
    }
}

#[test]
fn smooth_min_converges_to_hard_min_as_k_shrinks() {
    assert_eq!(min_smooth(S, 2 * S, 16), S);
    assert_eq!(min_smooth(S, S, 4), S - 1);
    let wide = min_smooth(S, S + S / 8, S);
    let narrow = min_smooth(S, S + S / 8, S / 64);
    assert!(wide < narrow);
    assert_eq!(narrow, S);
}

#[test]
fn smooth_difference_carves() {
    // max(a, -b) blended: never below the hard difference
    let r = difference_smooth(S, -S / 2, S / 4);
    assert!(r >= S);
    assert_eq!(difference_smooth(S, 4 * S, S / 4), S);
}
