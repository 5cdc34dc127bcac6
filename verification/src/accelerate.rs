//! Bands of colour that fall through the cloud faster and faster.
//!
//! Every point counts as having fallen by its own height plus a distance
//! that grows with the frame to the power 2.2.  The distance fallen is cut
//! into bands half as high as the cloud; a point is lit in the lower half of
//! its band, in the hue of the band.  The motion never repeats, and the
//! requested number of frames plays no part.

use vstd::prelude::*;
use crate::arith::lemma_mul_le;
use crate::cloud::{top, Point, PointCloud};
use crate::color::{dark, saturated_color, stepped, stepped_hue, wheel, Color};
use crate::error::EffectError;

verus! {

/// The distance fallen in the first frame, in coordinate steps: 0.00002
/// length units.
pub const ACCELERATION: u64 = 20;

/// The hue step from one band to the next, in sixtieths of the wheel: 0.45.
pub const BAND_HUE_STEP: u8 = 27;

/// The first frame index that the distance arithmetic cannot hold.
pub const FRAME_LIMIT: u64 = 0x1_0000_0000;

/// The fifth power.
pub open spec fn pow5(r: int) -> int {
    ((r * r) * (r * r)) * r
}

/// Whether `r` is the fifth root of `frame`, times `2^19`, rounded down.
pub open spec fn is_fifth_root(frame: int, r: int) -> bool {
    0 <= r && pow5(r) <= frame * 0x8000_0000_0000_0000_0000_0000 < pow5(r + 1)
}

/// The fifth root of `frame`, times `2^19`, rounded down.
pub open spec fn fifth_root(frame: int) -> int {
    choose|r: int| is_fifth_root(frame, r)
}

/// The distance fallen by frame `frame`, in coordinate steps: `ACCELERATION`
/// times the frame to the power 2.2, which is its square times its fifth
/// root.
pub open spec fn fallen(frame: int) -> int {
    ((ACCELERATION as int) * (frame * frame) * fifth_root(frame)) / 0x8_0000
}

/// The band that a point is in when it has fallen by `dist`, for a cloud
/// whose highest point is at `top`.  A point that has not yet reached the
/// floor counts to the first band.
pub open spec fn band_of(dist: int, top: int) -> int {
    if dist < 0 {
        0
    } else {
        (2 * dist) / top
    }
}

/// Whether a point that has fallen by `dist` is in the lit half of its
/// band.
pub open spec fn in_lit_half(dist: int, top: int) -> bool {
    dist < 0 || 2 * ((2 * dist) % top) < top
}

/// The colour of a point at height `z` in frame `frame`.
pub open spec fn accelerate_color(z: int, top: int, frame: int) -> Color {
    let dist: int = fallen(frame) + z;
    if in_lit_half(dist, top) {
        wheel(stepped(band_of(dist, top), BAND_HUE_STEP as int))
    } else {
        dark()
    }
}

/// The frame of the effect.
pub open spec fn accelerate_frame(points: Seq<Point>, frame: int) -> Seq<Color> {
    Seq::new(points.len(), |i: int| accelerate_color(points[i].z as int, top(points), frame))
}

/// Whether the effect can run: the highest point lies above the floor and
/// the frame index is below `FRAME_LIMIT`.
pub open spec fn accelerate_error(points: Seq<Point>, frame: int) -> Option<EffectError> {
    if top(points) <= 0 {
        Some(EffectError::FlatCloud)
    } else if frame >= FRAME_LIMIT as int {
        Some(EffectError::FrameTooLarge)
    } else {
        None
    }
}

/// The fifth power is monotone on the naturals.
proof fn lemma_pow5_mono(a: int, b: int)
    requires
        0 <= a <= b,
    ensures
        0 <= pow5(a) <= pow5(b),
{
    lemma_mul_le(a, a, b, b);
    lemma_mul_le(a * a, a * a, b * b, b * b);
    lemma_mul_le((a * a) * (a * a), a, (b * b) * (b * b), b);
}

/// The fifth power of the bound under which the roots are searched.
proof fn lemma_pow5_limit()
    ensures
        pow5(45_000_000) == 184_528_125_000_000_000_000_000_000_000_000_000_000,
        pow5(0) == 0,
{
    let r: int = 45_000_000;
    let square: int = r * r;
    assert(square == 2_025_000_000_000_000) by (nonlinear_arith)
        requires
            square == r * r,
            r == 45_000_000,
    ;
    let fourth: int = square * square;
    assert(fourth == 4_100_625_000_000_000_000_000_000_000_000) by (nonlinear_arith)
        requires
            fourth == square * square,
            square == 2_025_000_000_000_000,
    ;
    let fifth: int = fourth * r;
    assert(fifth == 184_528_125_000_000_000_000_000_000_000_000_000_000) by (nonlinear_arith)
        requires
            fifth == fourth * r,
            fourth == 4_100_625_000_000_000_000_000_000_000_000,
            r == 45_000_000,
    ;
    assert(pow5(0) == 0) by (nonlinear_arith)
        requires
            pow5(0) == ((0int * 0int) * (0int * 0int)) * 0int,
    ;
}

/// A number has at most one fifth root.
proof fn lemma_fifth_root_unique(frame: int, r: int)
    requires
        is_fifth_root(frame, r),
    ensures
        fifth_root(frame) == r,
{
    let c: int = fifth_root(frame);
    assert(is_fifth_root(frame, c));
    if c < r {
        lemma_pow5_mono(c + 1, r);
    }
    if r < c {
        lemma_pow5_mono(r + 1, c);
    }
}

fn fifth_power(r: u32) -> (p: u128)
    requires
        r <= 45_000_000,
    ensures
        p == pow5(r as int),
{
    proof {
        lemma_pow5_mono(r as int, 45_000_000);
        lemma_mul_le(r as int, r as int, 45_000_000, 45_000_000);
        lemma_mul_le(
            (r * r) as int,
            (r * r) as int,
            2_025_000_000_000_000,
            2_025_000_000_000_000,
        );
        lemma_pow5_limit();
    }
    let square: u128 = (r as u128) * (r as u128);
    let fourth: u128 = square * square;
    fourth * (r as u128)
}

/// The fifth root of `frame`, times `2^19`, rounded down.
pub fn fifth_root_of(frame: u32) -> (r: u32)
    ensures
        r == fifth_root(frame as int),
        is_fifth_root(frame as int, r as int),
        r < 45_000_000,
{
    let target: u128 = (frame as u128) * 0x8000_0000_0000_0000_0000_0000;
    let mut lo: u32 = 0;
    let mut hi: u32 = 45_000_000;
    proof {
        lemma_pow5_limit();
    }
    while hi - lo > 1
        invariant
            lo < hi <= 45_000_000,
            target == frame * 0x8000_0000_0000_0000_0000_0000,
            pow5(lo as int) <= target < pow5(hi as int),
        decreases hi - lo,
    {
        let mid: u32 = lo + (hi - lo) / 2;
        if fifth_power(mid) <= target {
            lo = mid;
        } else {
            hi = mid;
        }
    }
    proof {
        lemma_fifth_root_unique(frame as int, lo as int);
    }
    lo
}

/// The distance fallen by frame `frame`, in coordinate steps.
pub fn distance_fallen(frame: u32) -> (d: u128)
    ensures
        d == fallen(frame as int),
        d <= 0x1_0000_0000_0000_0000_0000,
{
    let root: u32 = fifth_root_of(frame);
    proof {
        lemma_mul_le(frame as int, frame as int, 0xFFFF_FFFF, 0xFFFF_FFFF);
        lemma_mul_le(
            20 * (frame * frame),
            root as int,
            20 * (0xFFFF_FFFFint * 0xFFFF_FFFFint),
            45_000_000,
        );
    }
    let square: u128 = (frame as u128) * (frame as u128);
    (((ACCELERATION as u128) * square) * (root as u128)) / 0x8_0000
}

/// The bands fall through the cloud, each in its hue: 0.45 of the wheel
/// from one band to the next.
pub fn accelerate(cloud: &PointCloud, frame: usize, total_frames: usize) -> (colors: Result<
    Vec<Color>,
    EffectError,
>)
    ensures
        match accelerate_error(cloud@, frame as int) {
            Some(e) => colors == Err::<Vec<Color>, EffectError>(e),
            None => colors is Ok && colors->Ok_0@ == accelerate_frame(cloud@, frame as int),
        },
{
    let height: i32 = cloud.max_height();
    if height <= 0 {
        return Err(EffectError::FlatCloud);
    }
    if frame as u64 >= FRAME_LIMIT {
        return Err(EffectError::FrameTooLarge);
    }
    let base: u128 = distance_fallen(frame as u32);
    let n: usize = cloud.len();
    let mut out: Vec<Color> = Vec::new();
    let mut i: usize = 0;
    while i < n
        invariant
            i <= n,
            n == cloud@.len(),
            out@.len() == i,
            height == top(cloud@),
            height > 0,
            base == fallen(frame as int),
            base <= 0x1_0000_0000_0000_0000_0000,
            forall|j: int|
                0 <= j < i ==> #[trigger] out@[j] == accelerate_color(
                    cloud@[j].z as int,
                    top(cloud@),
                    frame as int,
                ),
        decreases n - i,
    {
        let dist: i128 = (base as i128) + (cloud.point(i).z as i128);
        if dist < 0 {
            out.push(saturated_color(stepped_hue(0, BAND_HUE_STEP)));
        } else {
            let twice: u128 = 2 * (dist as u128);
            let band: u128 = twice / (height as u128);
            if 2 * (twice % (height as u128)) < height as u128 {
                out.push(saturated_color(stepped_hue(band, BAND_HUE_STEP)));
            } else {
                out.push(Color::black());
            }
        }
        i = i + 1;
    }
    assert(out@ =~= accelerate_frame(cloud@, frame as int));
    Ok(out)
}

} // verus!
