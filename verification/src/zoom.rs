//! The zoom sequencer: lay out an animation as one configuration per frame.
//!
//! An animation shrinks the viewport width by a fixed rate each frame,
//! recomputes the height to keep the pixel aspect ratio, and names each
//! frame with a zero-padded, strictly ordered five-digit index under a
//! directory derived from the base output name.  The sequencer only plans;
//! rendering the frames and invoking a video encoder on the finished
//! directory are the caller's work, so a rejected plan has done no
//! rendering work at all.

use vstd::prelude::*;

use crate::fixed::Fx;
use crate::fixed::fx_div_int_val;
use crate::fixed::fx_mul_int_val;
use crate::fixed::fx_mul_val;
use crate::frac::Details;
use crate::frac::FracError;
use crate::frac::valid_details;
use crate::frac::validate_details;

verus! {

/// Largest number of frames an animation may have.
pub const MAX_FRAMES: u32 = 99999;

/// The viewport width of frame `n`: the base width shrunk by the zoom rate
/// `n` times, in saturating fixed-point steps.
pub open spec fn zoom_width(base: int, rate: int, n: nat) -> int
    decreases n,
{
    if n == 0 {
        base
    } else {
        fx_mul_val(zoom_width(base, rate, (n - 1) as nat), rate)
    }
}

/// The viewport height that preserves the pixel aspect ratio for a width:
/// `width * imgy / imgx`.
pub open spec fn aspect_height(scalex: int, imgy: int, imgx: int) -> int {
    fx_div_int_val(fx_mul_int_val(scalex, imgy), imgx)
}

/// ASCII digit for a value in `[0, 10)`.
pub open spec fn digit_byte(v: int) -> u8 {
    (48 + v) as u8
}

/// The five zero-padded ASCII digits of a frame index.
pub open spec fn frame_digits(n: int) -> Seq<u8> {
    seq![
        digit_byte(n / 10000 % 10),
        digit_byte(n / 1000 % 10),
        digit_byte(n / 100 % 10),
        digit_byte(n / 10 % 10),
        digit_byte(n % 10),
    ]
}

/// The output path of frame `n`: `./<dir>/<five digits>.png` as bytes.
pub open spec fn frame_path(dir: Seq<u8>, n: int) -> Seq<u8> {
    seq![46u8, 47u8] + dir + seq![47u8] + frame_digits(n) + seq![46u8, 112u8, 110u8, 103u8]
}

/// A laid-out animation: the directory stem and extension split from the
/// base output name, and one render configuration per frame, in frame
/// order.
#[derive(Debug)]
pub struct ZoomPlan {
    pub dirname: Vec<u8>,
    pub ext: Vec<u8>,
    pub frames: Vec<Details>,
}

/// Frame `n` of a plan: the base configuration with the shrunk width, the
/// aspect-preserving height, and the frame's own output path.
pub open spec fn frame_matches(fd: Details, base: Details, rate: Fx, n: int, dir: Seq<u8>) -> bool {
    &&& fd.frac_type == base.frac_type
    &&& fd.imgx == base.imgx
    &&& fd.imgy == base.imgy
    &&& fd.centerx == base.centerx
    &&& fd.centery == base.centery
    &&& fd.imax == base.imax
    &&& fd.scalex.bits as int == zoom_width(base.scalex.bits as int, rate.bits as int, n as nat)
    &&& fd.scaley.bits as int == aspect_height(fd.scalex.bits as int, base.imgy as int, base.imgx as int)
    &&& fd.filename@ == frame_path(dir, n)
}

/// A plan lays out an animation of a base configuration: the directory stem
/// is the base output name up to its first `.`, the extension is the rest,
/// and every frame matches [`frame_matches`].
pub open spec fn plan_matches(plan: ZoomPlan, base: Details, frames: u32, rate: Fx) -> bool {
    let dot = plan.dirname@.len() as int;
    &&& dot < base.filename@.len()
    &&& plan.dirname@ == base.filename@.subrange(0, dot)
    &&& base.filename@[dot] == 46
    &&& forall|j: int| 0 <= j < dot ==> base.filename@[j] != 46
    &&& plan.ext@ == base.filename@.subrange(dot + 1, base.filename@.len() as int)
    &&& plan.frames@.len() == frames
    &&& forall|n: int|
        0 <= n < frames ==> frame_matches(#[trigger] plan.frames@[n], base, rate, n, plan.dirname@)
}

/// Raw bits of the zoom rate one half.
pub const HALF_RATE_BITS: i64 = 2147483648;

/// A rate of one half halves the viewport width exactly, step by step: from
/// a base width divisible by four, three successive frames have widths `w`,
/// `w / 2`, and `w / 4` on the nose, with no rounding loss.
pub proof fn lemma_half_rate_zoom(w: int)
    requires
        0 <= w <= crate::fixed::FX_MAX_BITS,
        w % 4 == 0,
    ensures
        zoom_width(w, HALF_RATE_BITS as int, 0) == w,
        zoom_width(w, HALF_RATE_BITS as int, 1) == w / 2,
        zoom_width(w, HALF_RATE_BITS as int, 2) == w / 4,
{
    let r = HALF_RATE_BITS as int;
    assert(zoom_width(w, r, 0) == w);
    assert(zoom_width(w, r, 1) == fx_mul_val(w, r));
    assert(zoom_width(w, r, 2) == fx_mul_val(fx_mul_val(w, r), r));
    assert(w * 2147483648 == (w / 2) * 4294967296) by (nonlinear_arith)
        requires
            w % 2 == 0,
    ;
    assert((w / 2) * 4294967296 / 4294967296 == w / 2) by (nonlinear_arith);
    assert(zoom_width(w, r, 1) == w / 2);
    let h = w / 2;
    assert(h % 2 == 0 && h / 2 == w / 4) by (nonlinear_arith)
        requires
            w % 4 == 0,
            h == w / 2,
    ;
    assert(h * 2147483648 == (h / 2) * 4294967296) by (nonlinear_arith)
        requires
            h % 2 == 0,
    ;
    assert((h / 2) * 4294967296 / 4294967296 == h / 2) by (nonlinear_arith);
    assert(zoom_width(w, r, 2) == w / 4);
}

/// Index of the first `.` byte in a name, if any.
fn find_dot(name: &Vec<u8>) -> (r: Option<usize>)
    ensures
        match r {
            Some(i) => i < name@.len() && name@[i as int] == 46 && forall|j: int|
                0 <= j < i ==> name@[j] != 46,
            None => forall|j: int| 0 <= j < name@.len() ==> name@[j] != 46,
        },
{
    let mut i: usize = 0;
    while i < name.len()
        invariant
            i <= name@.len(),
            forall|j: int| 0 <= j < i ==> name@[j] != 46,
        decreases name@.len() - i,
    {
        if name[i] == 46 {
            return Some(i);
        }
        i = i + 1;
    }
    None
}

/// Copy of the byte range `[from, to)` of a vector.
fn copy_range(v: &Vec<u8>, from: usize, to: usize) -> (r: Vec<u8>)
    requires
        from <= to <= v@.len(),
    ensures
        r@ == v@.subrange(from as int, to as int),
{
    let mut out: Vec<u8> = Vec::new();
    let mut i: usize = from;
    while i < to
        invariant
            from <= i <= to <= v@.len(),
            out@ == v@.subrange(from as int, i as int),
        decreases to - i,
    {
        out.push(v[i]);
        proof {
            assert(out@ =~= v@.subrange(from as int, i + 1 as int));
        }
        i = i + 1;
    }
    out
}

/// Append the five zero-padded ASCII digits of a frame index.
fn push_frame_digits(out: &mut Vec<u8>, n: u32)
    requires
        n <= 99999,
    ensures
        final(out)@ == old(out)@ + frame_digits(n as int),
{
    out.push((48 + (n / 10000) % 10) as u8);
    out.push((48 + (n / 1000) % 10) as u8);
    out.push((48 + (n / 100) % 10) as u8);
    out.push((48 + (n / 10) % 10) as u8);
    out.push((48 + n % 10) as u8);
    proof {
        assert(final(out)@ =~= old(out)@ + frame_digits(n as int));
    }
}

/// Build the output path of frame `n` under a directory stem.
fn build_frame_path(dir: &Vec<u8>, n: u32) -> (r: Vec<u8>)
    requires
        n <= 99999,
    ensures
        r@ == frame_path(dir@, n as int),
{
    let mut out: Vec<u8> = Vec::new();
    out.push(46);
    out.push(47);
    let mut i: usize = 0;
    while i < dir.len()
        invariant
            i <= dir@.len(),
            out@ == seq![46u8, 47u8] + dir@.subrange(0, i as int),
        decreases dir@.len() - i,
    {
        out.push(dir[i]);
        proof {
            assert(out@ =~= seq![46u8, 47u8] + dir@.subrange(0, i + 1 as int));
        }
        i = i + 1;
    }
    proof {
        assert(dir@.subrange(0, dir@.len() as int) =~= dir@);
    }
    out.push(47);
    push_frame_digits(&mut out, n);
    out.push(46);
    out.push(112);
    out.push(110);
    out.push(103);
    proof {
        assert(out@ =~= frame_path(dir@, n as int));
    }
    out
}

/// Lay out a zoom animation.  The frame limit and the configuration
/// invariants are checked before any work; the base output name is split at
/// its first `.` into a directory stem and an extension; frame `n` then gets
/// the width shrunk `n` times by `rate`, the aspect-preserving height, and
/// the path `./<stem>/<n, five digits>.png`, in strictly increasing frame
/// order.
pub fn animate_zoom(fractal: &Details, frames: u32, rate: Fx) -> (r: Result<ZoomPlan, FracError>)
    ensures
        frames > MAX_FRAMES ==> r == Err::<ZoomPlan, FracError>(FracError::TooManyFrames),
        frames <= MAX_FRAMES && !valid_details(*fractal) ==> r == Err::<ZoomPlan, FracError>(
            FracError::InvalidConfig,
        ),
        frames <= MAX_FRAMES && valid_details(*fractal) && (forall|j: int|
            0 <= j < fractal.filename@.len() ==> fractal.filename@[j] != 46) ==> r == Err::<
            ZoomPlan,
            FracError,
        >(FracError::BadFilename),
        frames <= MAX_FRAMES && valid_details(*fractal) && (exists|j: int|
            0 <= j < fractal.filename@.len() && fractal.filename@[j] == 46) ==> r is Ok,
        r matches Ok(plan) ==> frames <= MAX_FRAMES && valid_details(*fractal) && plan_matches(
            plan,
            *fractal,
            frames,
            rate,
        ),
{
    if frames > MAX_FRAMES {
        return Err(FracError::TooManyFrames);
    }
    if !validate_details(fractal) {
        return Err(FracError::InvalidConfig);
    }
    let dot = match find_dot(&fractal.filename) {
        Some(i) => i,
        None => {
            return Err(FracError::BadFilename);
        },
    };
    let name_len = fractal.filename.len();
    let dirname = copy_range(&fractal.filename, 0, dot);
    let ext = copy_range(&fractal.filename, dot + 1, name_len);
    let mut jobs: Vec<Details> = Vec::new();
    let mut scalex: Fx = fractal.scalex;
    let mut n: u32 = 0;
    while n < frames
        invariant
            n <= frames,
            frames <= MAX_FRAMES,
            valid_details(*fractal),
            jobs@.len() == n,
            scalex.bits as int == zoom_width(
                fractal.scalex.bits as int,
                rate.bits as int,
                n as nat,
            ),
            forall|k: int|
                0 <= k < n ==> frame_matches(#[trigger] jobs@[k], *fractal, rate, k, dirname@),
        decreases frames - n,
    {
        let scaley = scalex.mul_int(fractal.imgy).div_int(fractal.imgx);
        let path = build_frame_path(&dirname, n);
        jobs.push(
            Details {
                frac_type: fractal.frac_type,
                imgx: fractal.imgx,
                imgy: fractal.imgy,
                scalex,
                scaley,
                centerx: fractal.centerx,
                centery: fractal.centery,
                imax: fractal.imax,
                filename: path,
            },
        );
        scalex = scalex.mul(rate);
        n = n + 1;
    }
    Ok(ZoomPlan { dirname, ext, frames: jobs })
}

} // verus!
