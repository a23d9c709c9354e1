use fractal::color::color_for;
use fractal::fixed::Fx;
use fractal::frac::{
    create_fractal, iterate, pixel_to_complex, validate_details, Details, FracError, Variant,
};

const ONE: i64 = 4294967296;

fn base_details() -> Details {
    Details {
        frac_type: Variant::Mandelbrot,
        imgx: 100,
        imgy: 100,
        scalex: Fx::from_int(4),
        scaley: Fx::from_int(4),
        centerx: Fx::from_int(0),
        centery: Fx::from_int(0),
        imax: 10,
        filename: b"fractal.png".to_vec(),
    }
}

#[test]
fn validate_accepts_the_base_configuration() {
    assert!(validate_details(&base_details()));
}

#[test]
fn validate_rejects_each_broken_invariant() {
    let mut d = base_details();
    d.imgx = 0;
    assert!(!validate_details(&d));
    let mut d = base_details();
    d.imgy = 100000;
    assert!(!validate_details(&d));
    let mut d = base_details();
    d.scalex = Fx::from_int(0);
    assert!(!validate_details(&d));
    let mut d = base_details();
    d.scaley = Fx::from_int(-1);
    assert!(!validate_details(&d));
    let mut d = base_details();
    d.imax = 0;
    assert!(!validate_details(&d));
}

#[test]
fn pixel_mapping_hits_the_viewport_corners() {
    // 100x100 pixels over a 4x4 viewport centered at the origin: pixel
    // (0,0) maps to -2 - 2i exactly; pixel (99,99) maps to
    // 99*(4/100) - 2 on each axis, in fixed-point steps.
    let d = base_details();
    let top_left = pixel_to_complex(0, 0, &d);
    assert_eq!(top_left.re.bits, -2 * ONE);
    assert_eq!(top_left.im.bits, -2 * ONE);
    let bottom_right = pixel_to_complex(99, 99, &d);
    assert_eq!(bottom_right.re.bits, 8418135817);
    assert_eq!(bottom_right.im.bits, 8418135817);
}

#[test]
fn pixel_mapping_applies_the_center_offsets() {
    // The real center shifts the real axis forward; the imaginary center is
    // subtracted, inverting the vertical axis.
    let mut d = base_details();
    d.centerx = Fx::from_int(1);
    d.centery = Fx::from_int(1);
    let p = pixel_to_complex(0, 0, &d);
    assert_eq!(p.re.bits, -ONE);
    assert_eq!(p.im.bits, -3 * ONE);
}

#[test]
fn single_pixel_render_colors_the_kernel_count() {
    let mut d = base_details();
    d.imgx = 1;
    d.imgy = 1;
    d.imax = 1;
    let buf = create_fractal(&d).unwrap();
    assert_eq!(buf.imgx, 1);
    assert_eq!(buf.imgy, 1);
    assert_eq!(buf.pixels.len(), 1);
    let point = pixel_to_complex(0, 0, &d);
    let k = iterate(d.frac_type, point, d.imax);
    assert_eq!(k, 1);
    assert_eq!(buf.pixels[0], color_for(k, d.imax));
}

#[test]
fn small_render_matches_the_per_pixel_pipeline() {
    for variant in [Variant::Mandelbrot, Variant::Julia, Variant::BurningShip] {
        let mut d = base_details();
        d.frac_type = variant;
        d.imgx = 3;
        d.imgy = 2;
        let buf = create_fractal(&d).unwrap();
        assert_eq!(buf.pixels.len(), 6);
        for y in 0..d.imgy {
            for x in 0..d.imgx {
                let point = pixel_to_complex(x, y, &d);
                let k = iterate(d.frac_type, point, d.imax);
                let idx = (y * d.imgx + x) as usize;
                assert_eq!(buf.pixels[idx], color_for(k, d.imax));
            }
        }
    }
}

#[test]
fn render_rejects_invalid_configurations() {
    let mut d = base_details();
    d.imgx = 0;
    assert_eq!(create_fractal(&d).unwrap_err(), FracError::InvalidConfig);
    let mut d = base_details();
    d.imax = 0;
    assert_eq!(create_fractal(&d).unwrap_err(), FracError::InvalidConfig);
    let mut d = base_details();
    d.scalex = Fx::from_bits(0);
    assert_eq!(create_fractal(&d).unwrap_err(), FracError::InvalidConfig);
    let mut d = base_details();
    d.imgy = 100001;
    assert_eq!(create_fractal(&d).unwrap_err(), FracError::InvalidConfig);
}
