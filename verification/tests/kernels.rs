use fractal::fixed::Fx;
use fractal::frac::{
    burning_iter, iterate, julia_iter, mandelbrot_iter, ComplexPoint, Variant,
};

fn point(re_bits: i64, im_bits: i64) -> ComplexPoint {
    ComplexPoint { re: Fx::from_bits(re_bits), im: Fx::from_bits(im_bits) }
}

const ONE: i64 = 4294967296;

#[test]
fn mandelbrot_origin_never_escapes() {
    let origin = point(0, 0);
    assert_eq!(mandelbrot_iter(origin, 1), 1);
    assert_eq!(mandelbrot_iter(origin, 5), 5);
    assert_eq!(mandelbrot_iter(origin, 100), 100);
}

#[test]
fn mandelbrot_two_two_escapes_on_the_first_update() {
    let p = point(2 * ONE, 2 * ONE);
    assert_eq!(mandelbrot_iter(p, 1), 1);
    assert_eq!(mandelbrot_iter(p, 7), 1);
}

#[test]
fn mandelbrot_minus_one_cycles_forever() {
    // -1 maps to 0 and back exactly, so the bound is always reached.
    assert_eq!(mandelbrot_iter(point(-ONE, 0), 50), 50);
}

#[test]
fn mandelbrot_one_plus_i_escapes_after_two() {
    assert_eq!(mandelbrot_iter(point(ONE, ONE), 10), 2);
}

#[test]
fn burning_ship_origin_never_escapes_matching_mandelbrot() {
    let origin = point(0, 0);
    assert_eq!(burning_iter(origin, 42), 42);
    assert_eq!(burning_iter(origin, 42), mandelbrot_iter(origin, 42));
}

#[test]
fn burning_ship_escapes_and_counts() {
    assert_eq!(burning_iter(point(2 * ONE, 2 * ONE), 5), 1);
    // -1.7 - 0.02i, a point near the ship's hull.
    let p = point(-7301444403, -85899345);
    assert_eq!(burning_iter(p, 30), 11);
}

#[test]
fn julia_far_point_is_already_outside() {
    // The Julia kernel starts at the point itself; 2 + 2i is already
    // outside the escape disk, so no update runs.
    assert_eq!(julia_iter(point(2 * ONE, 2 * ONE), 10), 0);
}

#[test]
fn julia_origin_reaches_the_bound() {
    assert_eq!(julia_iter(point(0, 0), 3), 3);
    assert_eq!(julia_iter(point(0, 0), 200), 200);
}

#[test]
fn kernels_are_deterministic() {
    let p = point(1288490188, -429496729);
    assert_eq!(mandelbrot_iter(p, 500), mandelbrot_iter(p, 500));
    assert_eq!(julia_iter(p, 500), julia_iter(p, 500));
    assert_eq!(burning_iter(p, 500), burning_iter(p, 500));
}

#[test]
fn iterate_dispatches_to_each_kernel() {
    let p = point(ONE, ONE);
    assert_eq!(iterate(Variant::Mandelbrot, p, 10), mandelbrot_iter(p, 10));
    assert_eq!(iterate(Variant::Julia, p, 10), julia_iter(p, 10));
    assert_eq!(iterate(Variant::BurningShip, p, 10), burning_iter(p, 10));
}
