use fractal::fixed::Fx;
use fractal::frac::{Details, FracError, Variant};
use fractal::zoom::animate_zoom;

const ONE: i64 = 4294967296;

fn base_details() -> Details {
    Details {
        frac_type: Variant::Mandelbrot,
        imgx: 100,
        imgy: 100,
        scalex: Fx::from_int(4),
        scaley: Fx::from_int(4),
        centerx: Fx::from_int(0),
        centery: Fx::from_int(0),
        imax: 10,
        filename: b"zoomy.png".to_vec(),
    }
}

fn half_rate() -> Fx {
    Fx::from_bits(2147483648)
}

#[test]
fn frame_count_over_the_limit_is_rejected() {
    let plan = animate_zoom(&base_details(), 100_000, half_rate());
    assert_eq!(plan.unwrap_err(), FracError::TooManyFrames);
}

#[test]
fn frame_count_at_the_limit_is_accepted() {
    let plan = animate_zoom(&base_details(), 99_999, half_rate()).unwrap();
    assert_eq!(plan.frames.len(), 99_999);
}

#[test]
fn invalid_base_configuration_is_rejected() {
    let mut d = base_details();
    d.imax = 0;
    assert_eq!(animate_zoom(&d, 3, half_rate()).unwrap_err(), FracError::InvalidConfig);
}

#[test]
fn a_name_without_extension_is_rejected() {
    let mut d = base_details();
    d.filename = b"zoomy".to_vec();
    assert_eq!(animate_zoom(&d, 3, half_rate()).unwrap_err(), FracError::BadFilename);
}

#[test]
fn the_name_splits_at_the_first_dot() {
    let mut d = base_details();
    d.filename = b"deep.zoom.png".to_vec();
    let plan = animate_zoom(&d, 1, half_rate()).unwrap();
    assert_eq!(plan.dirname, b"deep".to_vec());
    assert_eq!(plan.ext, b"zoom.png".to_vec());
}

#[test]
fn zero_frames_make_an_empty_plan() {
    let plan = animate_zoom(&base_details(), 0, half_rate()).unwrap();
    assert_eq!(plan.frames.len(), 0);
    assert_eq!(plan.dirname, b"zoomy".to_vec());
    assert_eq!(plan.ext, b"png".to_vec());
}

#[test]
fn a_leading_dot_splits_into_an_empty_stem() {
    let mut d = base_details();
    d.filename = b".png".to_vec();
    let plan = animate_zoom(&d, 1, half_rate()).unwrap();
    assert_eq!(plan.dirname, b"".to_vec());
    assert_eq!(plan.ext, b"png".to_vec());
    assert_eq!(plan.frames[0].filename, b".//00000.png".to_vec());
}

#[test]
fn half_rate_halves_the_view_width_each_frame() {
    let plan = animate_zoom(&base_details(), 3, half_rate()).unwrap();
    assert_eq!(plan.frames.len(), 3);
    assert_eq!(plan.frames[0].scalex.bits, 4 * ONE);
    assert_eq!(plan.frames[1].scalex.bits, 2 * ONE);
    assert_eq!(plan.frames[2].scalex.bits, ONE);
}

#[test]
fn frame_heights_preserve_the_aspect_ratio() {
    let mut d = base_details();
    d.imgx = 200;
    d.imgy = 100;
    let plan = animate_zoom(&d, 2, half_rate()).unwrap();
    // height = width * imgy / imgx = width / 2
    assert_eq!(plan.frames[0].scaley.bits, 2 * ONE);
    assert_eq!(plan.frames[1].scaley.bits, ONE);
}

#[test]
fn frames_keep_the_other_base_fields() {
    let d = base_details();
    let plan = animate_zoom(&d, 2, half_rate()).unwrap();
    for frame in &plan.frames {
        assert_eq!(frame.frac_type, d.frac_type);
        assert_eq!(frame.imgx, d.imgx);
        assert_eq!(frame.imgy, d.imgy);
        assert_eq!(frame.centerx, d.centerx);
        assert_eq!(frame.centery, d.centery);
        assert_eq!(frame.imax, d.imax);
    }
}

#[test]
fn frame_names_are_zero_padded_and_ordered() {
    let plan = animate_zoom(&base_details(), 13, half_rate()).unwrap();
    assert_eq!(plan.frames[0].filename, b"./zoomy/00000.png".to_vec());
    assert_eq!(plan.frames[1].filename, b"./zoomy/00001.png".to_vec());
    assert_eq!(plan.frames[12].filename, b"./zoomy/00012.png".to_vec());
}
