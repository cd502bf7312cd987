use pitchline::fixedpoint::cos_q30;
use pitchline::fixedpoint::isqrt;
use pitchline::fixedpoint::HALF_PI_Q30;
use pitchline::fixedpoint::PI_Q30;
use pitchline::fixedpoint::TRIG_ONE;
use pitchline::fixedpoint::TWO_PI_Q30;

#[test]
fn isqrt_exact_values() {
    assert_eq!(isqrt(0), 0);
    assert_eq!(isqrt(1), 1);
    assert_eq!(isqrt(15), 3);
    assert_eq!(isqrt(16), 4);
    assert_eq!(isqrt(1 << 94), 1 << 47);
    assert_eq!(isqrt((1u128 << 94) - 1), (1u64 << 47) - 1);
}

#[test]
fn cosine_landmarks() {
    assert_eq!(cos_q30(0), TRIG_ONE);
    assert_eq!(cos_q30(TWO_PI_Q30), TRIG_ONE);
    assert_eq!(cos_q30(PI_Q30), -TRIG_ONE);
    // cos(pi/2) collapses to the last truncation remainder.
    assert_eq!(cos_q30(HALF_PI_Q30), 1);
    // cos(pi/3) is one half, exactly at this scale.
    assert_eq!(cos_q30(PI_Q30 / 3), TRIG_ONE / 2);
}

#[test]
fn cosine_is_even_around_pi() {
    for k in 0..8i64 {
        let x = k * (PI_Q30 / 8);
        assert_eq!(cos_q30(x), cos_q30(TWO_PI_Q30 - x));
    }
}
