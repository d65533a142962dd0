use bevy_simple_scroll_view::fixed::{
    divide_toward_zero, saturating_narrow, MICROS_PER_SECOND, UNIT,
};

#[test]
fn scales() {
    assert_eq!(UNIT, 1_000);
    assert_eq!(MICROS_PER_SECOND, 1_000_000);
}

#[test]
fn narrowing_keeps_what_fits() {
    assert_eq!(saturating_narrow(0), 0);
    assert_eq!(saturating_narrow(-120_000), -120_000);
    assert_eq!(saturating_narrow(i64::MAX as i128), i64::MAX);
    assert_eq!(saturating_narrow(i64::MIN as i128), i64::MIN);
}

#[test]
fn narrowing_stops_at_the_ends() {
    assert_eq!(saturating_narrow(i64::MAX as i128 + 1), i64::MAX);
    assert_eq!(saturating_narrow(i64::MIN as i128 - 1), i64::MIN);
    assert_eq!(saturating_narrow(i128::MAX), i64::MAX);
    assert_eq!(saturating_narrow(i128::MIN), i64::MIN);
}

#[test]
fn division_rounds_toward_zero() {
    assert_eq!(divide_toward_zero(7, 2), 3);
    assert_eq!(divide_toward_zero(-7, 2), -3);
    assert_eq!(divide_toward_zero(6, 2), 3);
    assert_eq!(divide_toward_zero(-6, 2), -3);
    assert_eq!(divide_toward_zero(1, 2), 0);
    assert_eq!(divide_toward_zero(-1, 2), 0);
    assert_eq!(divide_toward_zero(0, 5), 0);
    assert_eq!(divide_toward_zero(i128::MAX, 1), i128::MAX);
    assert_eq!(divide_toward_zero(i128::MIN + 1, 1), i128::MIN + 1);
    assert_eq!(divide_toward_zero(i128::MIN + 1, i128::MAX), -1);
}
