use pendulum::angle::{sub_angles, wrap_angle, PI, TWO_PI};
use pendulum::fixed::{fx_abs, fx_add, fx_clamp, fx_div, fx_mul, fx_sign, fx_sub, SCALE};

#[test]
fn wrap_keeps_half_open_range() {
    assert_eq!(wrap_angle(PI), PI);
    assert_eq!(wrap_angle(-PI), PI);
    assert_eq!(wrap_angle(-PI + 1), -PI + 1);
    assert_eq!(wrap_angle(PI + 1), -PI + 1);
    assert_eq!(wrap_angle(7 * TWO_PI + 5), 5);
    assert_eq!(wrap_angle(-7 * TWO_PI - 5), -5);
    assert_eq!(wrap_angle(0), 0);
    for a in [i64::MIN, i64::MAX, 123_456_789_012, -987_654_321] {
        let r = wrap_angle(a);
        assert!(-PI < r && r <= PI);
        assert_eq!((r as i128 - a as i128).rem_euclid(TWO_PI as i128), 0);
    }
}

#[test]
fn difference_of_angles_wraps() {
    assert_eq!(sub_angles(3_000_000, -3_000_000), 6_000_000 - TWO_PI);
    assert_eq!(sub_angles(100, 40), 60);
    assert_eq!(sub_angles(-3_000_000, 3_000_000), TWO_PI - 6_000_000);
    let r = sub_angles(i64::MAX, i64::MIN);
    assert!(-PI < r && r <= PI);
}

#[test]
fn fixed_point_operations() {
    assert_eq!(fx_mul(1_500_000, 2_000_000), 3_000_000);
    assert_eq!(fx_mul(-1, 1), 0);
    assert_eq!(fx_mul(-1_500_000, 3), -4);
    assert_eq!(fx_mul(i64::MAX, 2 * SCALE), i64::MAX);
    assert_eq!(fx_div(SCALE, 3 * SCALE), 333_333);
    assert_eq!(fx_div(SCALE, -3 * SCALE), -333_333);
    assert_eq!(fx_add(i64::MAX, 1), i64::MAX);
    assert_eq!(fx_sub(i64::MIN, 1), i64::MIN);
    assert_eq!(fx_sign(0), SCALE);
    assert_eq!(fx_sign(-5), -SCALE);
    assert_eq!(fx_clamp(5, -1, 1), 1);
    assert_eq!(fx_abs(i64::MIN), i64::MAX);
}
