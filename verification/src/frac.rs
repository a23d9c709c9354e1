//! The fractal engine: configuration, pixel-to-plane mapping, escape-time
//! kernels, and the frame renderer.
//!
//! Every kernel iterates `z -> z^2 + c` (with a per-variant choice of the
//! starting point, the constant, and an absolute-value twist for the Burning
//! Ship) until the iterate leaves the disk of radius 2 or the iteration bound
//! is reached.  The returned count is pinned down exactly by [`escape_spec`],
//! a pure function of the point and the bound, so equal inputs always give
//! equal escape counts.

use vstd::prelude::*;

use crate::color::Rgb;
use crate::color::color_spec;
use crate::color::color_for;
use crate::fixed::Fx;
use crate::fixed::fx_abs_val;
use crate::fixed::fx_add_val;
use crate::fixed::fx_div_int_val;
use crate::fixed::fx_mul_int_val;
use crate::fixed::fx_mul_val;
use crate::fixed::fx_sub_val;
use crate::fixed::lemma_mag_mul;

verus! {

/// The three fractal variants.
#[derive(Clone, Copy, PartialEq, Eq, Structural, Debug)]
pub enum Variant {
    Mandelbrot,
    Julia,
    BurningShip,
}

/// A point of the complex plane, both coordinates fixed-point.
#[derive(Clone, Copy, PartialEq, Eq, Structural, Debug)]
pub struct ComplexPoint {
    pub re: Fx,
    pub im: Fx,
}

/// One render configuration: variant, image size in pixels, viewport extents
/// and center in the complex plane, iteration bound, and the output path
/// (UTF-8 bytes) the caller wants the finished image written to.
#[derive(Debug)]
pub struct Details {
    pub frac_type: Variant,
    pub imgx: u32,
    pub imgy: u32,
    pub scalex: Fx,
    pub scaley: Fx,
    pub centerx: Fx,
    pub centery: Fx,
    pub imax: u32,
    pub filename: Vec<u8>,
}

/// The errors the engine reports instead of panicking or rendering garbage.
#[derive(Clone, Copy, PartialEq, Eq, Structural, Debug)]
pub enum FracError {
    /// A dimension, extent, or iteration bound breaks the configuration
    /// invariants, or the pixel count does not fit in memory addresses.
    InvalidConfig,
    /// An animation asked for more frames than the fixed limit.
    TooManyFrames,
    /// An animation output name has no extension to split on.
    BadFilename,
}

/// Largest accepted image dimension, per axis.
pub const MAX_RESOLUTION: u32 = 99999;

/// Real part of the default Julia constant: `-0.8` as fixed-point bits
/// (`-0.8 * 2^32`, rounded toward zero).
pub const JULIA_RE_BITS: i64 = -3435973836;

/// Imaginary part of the default Julia constant: `0.156` as fixed-point bits
/// (`0.156 * 2^32`, rounded toward zero).
pub const JULIA_IM_BITS: i64 = 670014898;

/// The squared escape radius on raw bits: `|z|^2 > 4` holds exactly when the
/// squared bit-magnitudes exceed `4 * 2^64`.
pub const ESCAPE_SQ_BITS: u128 = 73786976294838206464;

/// The configuration invariants: positive dimensions within the resolution
/// cap, strictly positive viewport extents, at least one iteration.
pub open spec fn valid_details(d: Details) -> bool {
    &&& 1 <= d.imgx <= MAX_RESOLUTION
    &&& 1 <= d.imgy <= MAX_RESOLUTION
    &&& d.scalex.bits > 0
    &&& d.scaley.bits > 0
    &&& d.imax >= 1
}

/// Check the configuration invariants.
pub fn validate_details(d: &Details) -> (ok: bool)
    ensures
        ok == valid_details(*d),
{
    1 <= d.imgx && d.imgx <= MAX_RESOLUTION && 1 <= d.imgy && d.imgy <= MAX_RESOLUTION
        && d.scalex.bits > 0 && d.scaley.bits > 0 && d.imax >= 1
}

/// Squared norm of a complex point, on raw bits.
pub open spec fn norm_sq_val(re: int, im: int) -> int {
    re * re + im * im
}

/// One kernel update on raw bits: for the Burning Ship both components are
/// first replaced by their absolute values, then `z^2 + c` is formed with the
/// saturating fixed-point operations.
pub open spec fn step_val(v: Variant, zre: int, zim: int, cre: int, cim: int) -> (int, int) {
    let are = if v is BurningShip {
        fx_abs_val(zre)
    } else {
        zre
    };
    let aim = if v is BurningShip {
        fx_abs_val(zim)
    } else {
        zim
    };
    let out_re = fx_add_val(fx_sub_val(fx_mul_val(are, are), fx_mul_val(aim, aim)), cre);
    let out_im = fx_add_val(fx_mul_int_val(fx_mul_val(are, aim), 2), cim);
    (out_re, out_im)
}

/// Number of updates performed from iterate `z` with constant `c` before the
/// iterate leaves the disk of radius 2, the remaining budget `fuel` bounding
/// the count.
pub open spec fn escape_from(v: Variant, zre: int, zim: int, cre: int, cim: int, fuel: nat) -> nat
    decreases fuel,
{
    if fuel == 0 {
        0
    } else if norm_sq_val(zre, zim) > ESCAPE_SQ_BITS as int {
        0
    } else {
        let next = step_val(v, zre, zim, cre, cim);
        1 + escape_from(v, next.0, next.1, cre, cim, (fuel - 1) as nat)
    }
}

/// The escape count of a variant on a point: the Mandelbrot and Burning Ship
/// kernels start at the origin with the point as constant; the Julia kernel
/// starts at the point with the fixed Julia constant.
pub open spec fn escape_spec(v: Variant, pre: int, pim: int, imax: nat) -> nat {
    if v is Julia {
        escape_from(v, pre, pim, JULIA_RE_BITS as int, JULIA_IM_BITS as int, imax)
    } else {
        escape_from(v, 0, 0, pre, pim, imax)
    }
}

/// Whether the iterate has left the disk of radius 2.
fn norm_escaped(z: &ComplexPoint) -> (b: bool)
    ensures
        b == (norm_sq_val(z.re.bits as int, z.im.bits as int) > ESCAPE_SQ_BITS as int),
{
    let mr: u128 = z.re.magnitude();
    let mi: u128 = z.im.magnitude();
    proof {
        assert(mr * mr <= 85070591730234615865843651857942052864u128) by (nonlinear_arith)
            requires
                mr <= 9223372036854775808u128,
        ;
        assert(mi * mi <= 85070591730234615865843651857942052864u128) by (nonlinear_arith)
            requires
                mi <= 9223372036854775808u128,
        ;
        lemma_mag_mul(z.re.bits as int, z.re.bits as int);
        lemma_mag_mul(z.im.bits as int, z.im.bits as int);
    }
    let s: u128 = mr * mr + mi * mi;
    s > ESCAPE_SQ_BITS
}

/// One kernel update.
fn step(v: Variant, z: ComplexPoint, c: ComplexPoint) -> (r: ComplexPoint)
    ensures
        r.re.bits as int == step_val(v, z.re.bits as int, z.im.bits as int, c.re.bits as int, c.im.bits as int).0,
        r.im.bits as int == step_val(v, z.re.bits as int, z.im.bits as int, c.re.bits as int, c.im.bits as int).1,
{
    let are: Fx = if matches!(v, Variant::BurningShip) {
        z.re.abs()
    } else {
        z.re
    };
    let aim: Fx = if matches!(v, Variant::BurningShip) {
        z.im.abs()
    } else {
        z.im
    };
    let rr = are.mul(are);
    let ii = aim.mul(aim);
    let ri = are.mul(aim);
    ComplexPoint { re: rr.sub(ii).add(c.re), im: ri.mul_int(2).add(c.im) }
}

/// Run one kernel from starting iterate `z0` with constant `c`.
fn escape_loop(v: Variant, z0: ComplexPoint, c: ComplexPoint, imax: u32) -> (r: u32)
    ensures
        r as nat == escape_from(
            v,
            z0.re.bits as int,
            z0.im.bits as int,
            c.re.bits as int,
            c.im.bits as int,
            imax as nat,
        ),
        r <= imax,
{
    let mut z = z0;
    let mut i: u32 = 0;
    let mut esc = norm_escaped(&z);
    while i < imax && !esc
        invariant
            i <= imax,
            esc == (norm_sq_val(z.re.bits as int, z.im.bits as int) > ESCAPE_SQ_BITS as int),
            escape_from(
                v,
                z0.re.bits as int,
                z0.im.bits as int,
                c.re.bits as int,
                c.im.bits as int,
                imax as nat,
            ) == i + escape_from(
                v,
                z.re.bits as int,
                z.im.bits as int,
                c.re.bits as int,
                c.im.bits as int,
                (imax - i) as nat,
            ),
        decreases imax - i,
    {
        z = step(v, z, c);
        i = i + 1;
        esc = norm_escaped(&z);
    }
    i
}

/// Dispatch a point to the chosen variant's kernel.
pub fn iterate(v: Variant, point: ComplexPoint, imax: u32) -> (r: u32)
    ensures
        r as nat == escape_spec(v, point.re.bits as int, point.im.bits as int, imax as nat),
        r <= imax,
{
    if matches!(v, Variant::Julia) {
        let c = ComplexPoint { re: Fx::from_bits(JULIA_RE_BITS), im: Fx::from_bits(JULIA_IM_BITS) };
        escape_loop(v, point, c, imax)
    } else {
        let zero = ComplexPoint { re: Fx::from_bits(0), im: Fx::from_bits(0) };
        escape_loop(v, zero, point, imax)
    }
}

/// Escape count of the Mandelbrot kernel on a point.
pub fn mandelbrot_iter(point: ComplexPoint, imax: u32) -> (r: u32)
    ensures
        r as nat == escape_spec(Variant::Mandelbrot, point.re.bits as int, point.im.bits as int, imax as nat),
        r <= imax,
{
    iterate(Variant::Mandelbrot, point, imax)
}

/// Escape count of the Julia kernel on a point, with the default constant.
pub fn julia_iter(point: ComplexPoint, imax: u32) -> (r: u32)
    ensures
        r as nat == escape_spec(Variant::Julia, point.re.bits as int, point.im.bits as int, imax as nat),
        r <= imax,
{
    iterate(Variant::Julia, point, imax)
}

/// Escape count of the Burning Ship kernel on a point.
pub fn burning_iter(point: ComplexPoint, imax: u32) -> (r: u32)
    ensures
        r as nat == escape_spec(Variant::BurningShip, point.re.bits as int, point.im.bits as int, imax as nat),
        r <= imax,
{
    iterate(Variant::BurningShip, point, imax)
}

/// At the origin with a zero constant, one kernel update returns to the
/// origin, so the count climbs all the way to the budget.
proof fn lemma_origin_fixed(v: Variant, fuel: nat)
    requires
        !(v is Julia),
    ensures
        escape_from(v, 0, 0, 0, 0, fuel) == fuel,
    decreases fuel,
{
    if fuel > 0 {
        assert(step_val(v, 0, 0, 0, 0).0 == 0 && step_val(v, 0, 0, 0, 0).1 == 0);
        lemma_origin_fixed(v, (fuel - 1) as nat);
    }
}

/// The Mandelbrot kernel never escapes at the origin: for every bound the
/// count equals the bound itself, the inside-the-set sentinel.
pub proof fn lemma_mandelbrot_origin_never_escapes(imax: nat)
    ensures
        escape_spec(Variant::Mandelbrot, 0, 0, imax) == imax,
{
    lemma_origin_fixed(Variant::Mandelbrot, imax);
}

/// The Burning Ship kernel never escapes at the origin either, matching the
/// Mandelbrot kernel there.
pub proof fn lemma_burning_ship_origin_never_escapes(imax: nat)
    ensures
        escape_spec(Variant::BurningShip, 0, 0, imax) == imax,
        escape_spec(Variant::BurningShip, 0, 0, imax) == escape_spec(
            Variant::Mandelbrot,
            0,
            0,
            imax,
        ),
{
    lemma_origin_fixed(Variant::BurningShip, imax);
    lemma_origin_fixed(Variant::Mandelbrot, imax);
}

/// The Mandelbrot kernel escapes the point `2 + 2i` (raw bits `2 * 2^32` per
/// component) on the very first update, for every positive bound.
pub proof fn lemma_mandelbrot_two_escapes_first(imax: nat)
    requires
        1 <= imax,
    ensures
        escape_spec(Variant::Mandelbrot, 8589934592, 8589934592, imax) == 1,
{
    assert(step_val(Variant::Mandelbrot, 0, 0, 8589934592, 8589934592).0 == 8589934592
        && step_val(Variant::Mandelbrot, 0, 0, 8589934592, 8589934592).1 == 8589934592);
    if imax > 1 {
        assert(norm_sq_val(8589934592, 8589934592) > ESCAPE_SQ_BITS as int);
        assert(escape_from(
            Variant::Mandelbrot,
            8589934592,
            8589934592,
            8589934592,
            8589934592,
            (imax - 1) as nat,
        ) == 0);
    }
}

/// Escape counts are deterministic: the count is a pure function of the
/// variant, the point, and the bound, so equal inputs always give equal
/// counts.
pub proof fn lemma_kernel_deterministic(
    v: Variant,
    p1: ComplexPoint,
    p2: ComplexPoint,
    imax1: u32,
    imax2: u32,
)
    requires
        p1 == p2,
        imax1 == imax2,
    ensures
        escape_spec(v, p1.re.bits as int, p1.im.bits as int, imax1 as nat) == escape_spec(
            v,
            p2.re.bits as int,
            p2.im.bits as int,
            imax2 as nat,
        ),
{
}

/// Real coordinate of pixel column `x`: `x * (viewWidth / width) -
/// viewWidth/2 + centerX`, in saturating fixed-point steps.
pub open spec fn pixel_re_val(x: int, d: Details) -> int {
    let sfx = fx_div_int_val(d.scalex.bits as int, d.imgx as int);
    fx_add_val(
        fx_sub_val(fx_mul_int_val(sfx, x), fx_div_int_val(d.scalex.bits as int, 2)),
        d.centerx.bits as int,
    )
}

/// Imaginary coordinate of pixel row `y`: `y * (viewHeight / height) -
/// viewHeight/2 - centerY`; the sign on the center inverts the vertical axis
/// so that the imaginary axis increases upward while rows count downward.
pub open spec fn pixel_im_val(y: int, d: Details) -> int {
    let sfy = fx_div_int_val(d.scaley.bits as int, d.imgy as int);
    fx_sub_val(
        fx_sub_val(fx_mul_int_val(sfy, y), fx_div_int_val(d.scaley.bits as int, 2)),
        d.centery.bits as int,
    )
}

/// Map a pixel index pair into the complex plane under a configuration's
/// viewport.
pub fn pixel_to_complex(x: u32, y: u32, d: &Details) -> (p: ComplexPoint)
    requires
        d.imgx >= 1,
        d.imgy >= 1,
    ensures
        p.re.bits as int == pixel_re_val(x as int, *d),
        p.im.bits as int == pixel_im_val(y as int, *d),
{
    let sfx = d.scalex.div_int(d.imgx);
    let sfy = d.scaley.div_int(d.imgy);
    let re = sfx.mul_int(x).sub(d.scalex.div_int(2)).add(d.centerx);
    let im = sfy.mul_int(y).sub(d.scaley.div_int(2)).sub(d.centery);
    ComplexPoint { re, im }
}

/// The color a configuration assigns to pixel `(x, y)`: map the pixel into
/// the plane, run the variant's kernel, color the escape count.
pub open spec fn pixel_color(d: Details, x: int, y: int) -> Rgb {
    color_spec(
        escape_spec(d.frac_type, pixel_re_val(x, d), pixel_im_val(y, d), d.imax as nat),
        d.imax as nat,
    )
}

/// The pixel a row-major buffer of the given width holds at `(x, y)`.
pub open spec fn pixel_at(pixels: Seq<Rgb>, imgx: int, x: int, y: int) -> Rgb {
    pixels[y * imgx + x]
}

/// A completed frame: a row-major grid of RGB pixels with its dimensions,
/// origin at the top-left.
#[derive(Debug)]
pub struct PixelBuffer {
    pub imgx: u32,
    pub imgy: u32,
    pub pixels: Vec<Rgb>,
}

/// A buffer is exactly the rendering of a configuration: the dimensions
/// agree and every pixel holds its configured color.
pub open spec fn buffer_matches(buf: PixelBuffer, d: Details) -> bool {
    &&& buf.imgx == d.imgx
    &&& buf.imgy == d.imgy
    &&& buf.pixels@.len() == d.imgx * d.imgy
    &&& forall|x: int, y: int|
        0 <= x < d.imgx && 0 <= y < d.imgy ==> #[trigger] pixel_at(
            buf.pixels@,
            d.imgx as int,
            x,
            y,
        ) == pixel_color(d, x, y)
}

/// Render one frame: evaluate the coordinate mapper and the configured
/// kernel for every pixel and color each escape count.  Rejects a
/// configuration that breaks the invariants, or whose pixel count exceeds
/// the address range, before any pixel work.
pub fn create_fractal(d: &Details) -> (r: Result<PixelBuffer, FracError>)
    ensures
        r is Err <==> !valid_details(*d) || d.imgx * d.imgy > usize::MAX,
        r is Err ==> r == Err::<PixelBuffer, FracError>(FracError::InvalidConfig),
        r matches Ok(buf) ==> buffer_matches(buf, *d),
{
    if !validate_details(d) {
        return Err(FracError::InvalidConfig);
    }
    proof {
        assert(d.imgx * d.imgy <= 9999800001) by (nonlinear_arith)
            requires
                d.imgx <= 99999,
                d.imgy <= 99999,
        ;
    }
    let total64: u64 = (d.imgx as u64) * (d.imgy as u64);
    if total64 > (usize::MAX as u64) {
        return Err(FracError::InvalidConfig);
    }
    let mut pixels: Vec<Rgb> = Vec::new();
    let mut y: u32 = 0;
    while y < d.imgy
        invariant
            y <= d.imgy,
            valid_details(*d),
            pixels@.len() == y * d.imgx,
            forall|xx: int, yy: int|
                0 <= xx < d.imgx && 0 <= yy < y ==> #[trigger] pixel_at(
                    pixels@,
                    d.imgx as int,
                    xx,
                    yy,
                ) == pixel_color(*d, xx, yy),
        decreases d.imgy - y,
    {
        let mut x: u32 = 0;
        while x < d.imgx
            invariant
                x <= d.imgx,
                y < d.imgy,
                valid_details(*d),
                pixels@.len() == y * d.imgx + x,
                forall|xx: int, yy: int|
                    0 <= xx < d.imgx && 0 <= yy < y ==> #[trigger] pixel_at(
                        pixels@,
                        d.imgx as int,
                        xx,
                        yy,
                    ) == pixel_color(*d, xx, yy),
                forall|xx: int|
                    0 <= xx < x ==> #[trigger] pixel_at(pixels@, d.imgx as int, xx, y as int)
                        == pixel_color(*d, xx, y as int),
            decreases d.imgx - x,
        {
            let point = pixel_to_complex(x, y, d);
            let count = iterate(d.frac_type, point, d.imax);
            let col = color_for(count, d.imax);
            let ghost before = pixels@;
            pixels.push(col);
            proof {
                assert forall|xx: int, yy: int| 0 <= xx < d.imgx && 0 <= yy < y implies #[trigger] pixel_at(
                    pixels@,
                    d.imgx as int,
                    xx,
                    yy,
                ) == pixel_color(*d, xx, yy) by {
                    vstd::arithmetic::mul::lemma_mul_is_distributive_add_other_way(
                        d.imgx as int,
                        yy,
                        1,
                    );
                    vstd::arithmetic::mul::lemma_mul_inequality(yy + 1, y as int, d.imgx as int);
                    assert(0 <= yy * d.imgx + xx < before.len());
                    assert(pixel_at(before, d.imgx as int, xx, yy) == pixel_color(*d, xx, yy));
                    assert(pixels@ == before.push(col));
                    assert(pixels@[yy * d.imgx + xx] == before[yy * d.imgx + xx]);
                }
                assert forall|xx: int| 0 <= xx < x + 1 implies #[trigger] pixel_at(
                    pixels@,
                    d.imgx as int,
                    xx,
                    y as int,
                ) == pixel_color(*d, xx, y as int) by {
                    if xx < x {
                        assert(0 <= y * d.imgx + xx < before.len());
                        assert(pixel_at(before, d.imgx as int, xx, y as int) == pixel_color(
                            *d,
                            xx,
                            y as int,
                        ));
                        assert(pixels@[y * d.imgx + xx] == before[y * d.imgx + xx]);
                    } else {
                        assert(xx == x);
                        assert(y * d.imgx + xx == before.len());
                        assert(pixels@[y * d.imgx + xx] == col);
                        assert(col == pixel_color(*d, xx, y as int));
                    }
                }
            }
            x = x + 1;
        }
        proof {
            vstd::arithmetic::mul::lemma_mul_is_distributive_add_other_way(
                d.imgx as int,
                y as int,
                1,
            );
        }
        y = y + 1;
    }
    proof {
        vstd::arithmetic::mul::lemma_mul_is_commutative(d.imgy as int, d.imgx as int);
    }
    Ok(PixelBuffer { imgx: d.imgx, imgy: d.imgy, pixels })
}

/// Rendering is deterministic down to the buffer: any two buffers that match
/// the same configuration agree on every pixel, so a configuration has
/// exactly one rendering.
pub proof fn lemma_render_unique(b1: PixelBuffer, b2: PixelBuffer, d: Details)
    requires
        valid_details(d),
        buffer_matches(b1, d),
        buffer_matches(b2, d),
    ensures
        b1.imgx == b2.imgx,
        b1.imgy == b2.imgy,
        b1.pixels@ =~= b2.pixels@,
{
    let w = d.imgx as int;
    assert forall|i: int| 0 <= i < b1.pixels@.len() implies b1.pixels@[i] == b2.pixels@[i] by {
        let xx = i % w;
        let yy = i / w;
        vstd::arithmetic::div_mod::lemma_fundamental_div_mod(i, w);
        if yy >= d.imgy {
            vstd::arithmetic::mul::lemma_mul_inequality(d.imgy as int, yy, w);
            vstd::arithmetic::mul::lemma_mul_is_commutative(yy, w);
            vstd::arithmetic::mul::lemma_mul_is_commutative(d.imgy as int, w);
            assert(false);
        }
        assert(pixel_at(b1.pixels@, w, xx, yy) == pixel_color(d, xx, yy));
        assert(pixel_at(b2.pixels@, w, xx, yy) == pixel_color(d, xx, yy));
        vstd::arithmetic::mul::lemma_mul_is_commutative(yy, w);
    }
}

} // verus!
