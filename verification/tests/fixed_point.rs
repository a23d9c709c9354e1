use fractal::fixed::Fx;

#[test]
fn from_int_scales_by_two_to_the_32() {
    assert_eq!(Fx::from_int(2).bits, 8589934592);
    assert_eq!(Fx::from_int(0).bits, 0);
    assert_eq!(Fx::from_int(-1).bits, -4294967296);
}

#[test]
fn add_and_sub_are_exact_in_range() {
    let a = Fx::from_int(3);
    let b = Fx::from_int(-5);
    assert_eq!(a.add(b).bits, Fx::from_int(-2).bits);
    assert_eq!(a.sub(b).bits, Fx::from_int(8).bits);
}

#[test]
fn add_saturates_at_the_rim() {
    let top = Fx::from_bits(i64::MAX);
    assert_eq!(top.add(top).bits, i64::MAX);
    let bottom = Fx::from_bits(-i64::MAX);
    assert_eq!(bottom.add(bottom).bits, -i64::MAX);
}

#[test]
fn mul_is_exact_on_dyadic_values() {
    // 1.5 * 2.0 == 3.0
    let three_halves = Fx::from_bits(6442450944);
    let two = Fx::from_int(2);
    assert_eq!(three_halves.mul(two).bits, Fx::from_int(3).bits);
    // (-1.5) * 2.0 == -3.0
    assert_eq!(three_halves.neg().mul(two).bits, Fx::from_int(-3).bits);
}

#[test]
fn mul_rounds_toward_zero() {
    // (1/2^32) * (1/2^32) is far below one unit and truncates to zero,
    // from both sides of zero.
    assert_eq!(Fx::from_bits(1).mul(Fx::from_bits(1)).bits, 0);
    assert_eq!(Fx::from_bits(-1).mul(Fx::from_bits(1)).bits, 0);
}

#[test]
fn mul_saturates_far_out() {
    let top = Fx::from_bits(i64::MAX);
    assert_eq!(top.mul(top).bits, i64::MAX);
    assert_eq!(top.neg().mul(top).bits, -i64::MAX);
}

#[test]
fn mul_int_scales_exactly() {
    assert_eq!(Fx::from_int(3).mul_int(5).bits, Fx::from_int(15).bits);
}

#[test]
fn div_int_rounds_toward_zero() {
    assert_eq!(Fx::from_bits(-7).div_int(2).bits, -3);
    assert_eq!(Fx::from_bits(7).div_int(2).bits, 3);
    assert_eq!(Fx::from_int(6).div_int(3).bits, Fx::from_int(2).bits);
}

#[test]
fn abs_and_neg_behave_on_the_extremes() {
    assert_eq!(Fx::from_bits(i64::MIN).abs().bits, i64::MAX);
    assert_eq!(Fx::from_bits(-5).abs().bits, 5);
    assert_eq!(Fx::from_bits(5).neg().bits, -5);
}
