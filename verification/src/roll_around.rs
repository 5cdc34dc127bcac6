//! The cloud tumbles, and each point takes the colour of the octant of
//! space that it passes through.
//!
//! A cycle has eight rotations of sixty frames.  The cloud is turned about
//! the vertical axis and then about the `x` axis, around the point halfway
//! up its height.  Each of the two angles moves between key values a quarter
//! turn apart or stays: it reaches the next key value in the first half of a
//! rotation and rests there in the second half.

use vstd::prelude::*;
use crate::arith::{lemma_mul_abs_le, lemma_mul_le, lemma_scaled_le};
use crate::cloud::{top, Point, PointCloud};
use crate::color::{saturated_color, stepped, stepped_hue, wheel, Color};
use crate::cycle::{phase_at, whole_cycles, CycleSync};
use crate::error::EffectError;
use crate::trig::{cos, cosine, opposite, opposite_angle, sin, sine};

verus! {

/// The nominal number of frames in one rotation.
pub const FRAMES_PER_ROTATION: u64 = 60;

/// The number of rotations in one cycle.
pub const ROTATIONS: u64 = 8;

/// The hue step from one octant to the next, in sixtieths of the wheel:
/// 0.45.
pub const OCTANT_HUE_STEP: u8 = 27;

/// The key value of the angle about the vertical axis at the start of
/// rotation `step`, in quarter turns.  The angle about the `x` axis runs one
/// rotation ahead.
pub open spec fn key_angle(step: int) -> int {
    let s: int = step % 8;
    if s < 2 {
        1
    } else if s < 4 {
        0
    } else if s < 6 {
        -1
    } else {
        0
    }
}

/// The rotation that the motion is in, when it is `phase / total` into its
/// cycle.
pub open spec fn rotation_at(phase: int, total: int) -> int {
    (8 * phase) / total
}

/// How far the move of a rotation has come, as a count of `1 / total` of
/// the move: twice as far as the rotation itself, and no further than its
/// end.
pub open spec fn move_at(phase: int, total: int) -> int {
    let twice: int = 2 * ((8 * phase) % total);
    if twice >= total {
        total
    } else {
        twice
    }
}

/// The angle that is `moved / total` of the way from `start` to `end`
/// quarter turns.  Its size is rounded down, whichever way it turns.
pub open spec fn tilt(start: int, end: int, moved: int, total: int) -> int {
    let w: int = start * (total - moved) + end * moved;
    if w >= 0 {
        (w * 0x4000_0000) / total
    } else {
        opposite(((-w) * 0x4000_0000) / total)
    }
}

/// The angle about the vertical axis in frame `frame` of `total`.
pub open spec fn z_angle_in_frame(frame: int, total: int) -> int {
    let phase: int = phase_at(roll_cycles(total), total, frame);
    let step: int = rotation_at(phase, total);
    tilt(key_angle(step), key_angle(step + 1), move_at(phase, total), total)
}

/// The angle about the `x` axis in frame `frame` of `total`.
pub open spec fn x_angle_in_frame(frame: int, total: int) -> int {
    let phase: int = phase_at(roll_cycles(total), total, frame);
    let step: int = rotation_at(phase, total);
    tilt(key_angle(step + 1), key_angle(step + 2), move_at(phase, total), total)
}

/// The number of whole cycles that fit into `total` frames.
pub open spec fn roll_cycles(total: int) -> int {
    whole_cycles((FRAMES_PER_ROTATION * ROTATIONS) as int, 1, total)
}

/// The octant that `p` lies in after the cloud has been turned by `z_angle`
/// about the vertical axis and then by `x_angle` about the `x` axis, around
/// the point at half of `top` on the vertical axis: one for positive `x`,
/// plus two for positive `y`, plus four for positive `z`.  The coordinates
/// are taken twice as large, so that the centre is a whole number.
pub open spec fn octant_of(p: Point, top: int, z_angle: int, x_angle: int) -> int {
    let x0: int = 2 * p.x;
    let y0: int = 2 * p.y;
    let z0: int = (2 * p.z - top) * 0x4000_0000;
    let x1: int = x0 * cosine(z_angle) - y0 * sine(z_angle);
    let y1: int = x0 * sine(z_angle) + y0 * cosine(z_angle);
    let y2: int = y1 * cosine(x_angle) - z0 * sine(x_angle);
    let z2: int = y1 * sine(x_angle) + z0 * cosine(x_angle);
    (if x1 > 0 {
        1int
    } else {
        0int
    }) + (if y2 > 0 {
        2int
    } else {
        0int
    }) + (if z2 > 0 {
        4int
    } else {
        0int
    })
}

/// The frame of the effect.
pub open spec fn roll_around_frame(points: Seq<Point>, frame: int, total: int) -> Seq<Color> {
    Seq::new(
        points.len(),
        |i: int|
            wheel(
                stepped(
                    octant_of(
                        points[i],
                        top(points),
                        z_angle_in_frame(frame, total),
                        x_angle_in_frame(frame, total),
                    ),
                    OCTANT_HUE_STEP as int,
                ),
            ),
    )
}

fn key(step: u8) -> (k: i8)
    ensures
        k == key_angle(step as int),
        -1 <= k <= 1,
{
    let s: u8 = step % 8;
    if s < 2 {
        1
    } else if s < 4 {
        0
    } else if s < 6 {
        -1
    } else {
        0
    }
}

fn weigh(k: i8, amount: u64) -> (w: i128)
    requires
        -1 <= k <= 1,
    ensures
        w == k * amount,
        -amount <= w <= amount,
{
    if k == 1 {
        amount as i128
    } else if k == -1 {
        -(amount as i128)
    } else {
        0
    }
}

fn tilted(start: i8, end: i8, moved: u64, total: u64) -> (angle: u32)
    requires
        -1 <= start <= 1,
        -1 <= end <= 1,
        moved <= total,
        total > 0,
    ensures
        angle == tilt(start as int, end as int, moved as int, total as int),
{
    let w: i128 = weigh(start, total - moved) + weigh(end, moved);
    let size: u128 = if w >= 0 {
        w as u128
    } else {
        (-w) as u128
    };
    proof {
        lemma_scaled_le(0x4000_0000, size as int, total as int);
        lemma_mul_le(0x4000_0000, size as int, 0x4000_0000, total as int);
        assert(size * 0x4000_0000 == 0x4000_0000 * size) by (nonlinear_arith);
    }
    let turned: u32 = ((size * 0x4000_0000) / (total as u128)) as u32;
    if w >= 0 {
        turned
    } else {
        opposite_angle(turned)
    }
}

/// The angles about the vertical axis and about the `x` axis in frame
/// `frame` of `total_frames`.  Fails when not one cycle of 480 frames fits.
pub fn roll_angles(frame: usize, total_frames: usize) -> (angles: Result<(u32, u32), EffectError>)
    ensures
        roll_cycles(total_frames as int) == 0 ==> angles == Err::<(u32, u32), EffectError>(
            EffectError::TooShort,
        ),
        roll_cycles(total_frames as int) != 0 ==> angles is Ok && angles->Ok_0.0
            == z_angle_in_frame(frame as int, total_frames as int) && angles->Ok_0.1
            == x_angle_in_frame(frame as int, total_frames as int),
{
    let total: u64 = total_frames as u64;
    let sync: CycleSync = match CycleSync::new(FRAMES_PER_ROTATION * ROTATIONS, 1, total) {
        Ok(sync) => sync,
        Err(e) => {
            return Err(e);
        },
    };
    let phase: u64 = sync.phase(frame as u64);
    proof {
        assert(0 <= (8 * phase) / (total as int) < 8) by (nonlinear_arith)
            requires
                0 <= phase < total,
        ;
    }
    let along: u128 = 8 * (phase as u128);
    let step: u8 = (along / (total as u128)) as u8;
    let into: u128 = along % (total as u128);
    let moved: u64 = if 2 * into >= total as u128 {
        total
    } else {
        (2 * into) as u64
    };
    let z_angle: u32 = tilted(key(step), key(step + 1), moved, total);
    let x_angle: u32 = tilted(key(step + 1), key(step + 2), moved, total);
    Ok((z_angle, x_angle))
}

/// The octant of `p` after both turns.
pub fn octant(p: Point, top: i32, z_angle: u32, x_angle: u32) -> (o: u8)
    ensures
        o == octant_of(p, top as int, z_angle as int, x_angle as int),
        o < 8,
{
    let sz: i128 = sin(z_angle) as i128;
    let cz: i128 = cos(z_angle) as i128;
    let sx: i128 = sin(x_angle) as i128;
    let cx: i128 = cos(x_angle) as i128;
    let x0: i128 = 2 * (p.x as i128);
    let y0: i128 = 2 * (p.y as i128);
    let z0: i128 = (2 * (p.z as i128) - (top as i128)) * 0x4000_0000;
    proof {
        lemma_mul_abs_le(x0 as int, cz as int, 0x1_0000_0000, 0x4000_0000);
        lemma_mul_abs_le(y0 as int, sz as int, 0x1_0000_0000, 0x4000_0000);
        lemma_mul_abs_le(x0 as int, sz as int, 0x1_0000_0000, 0x4000_0000);
        lemma_mul_abs_le(y0 as int, cz as int, 0x1_0000_0000, 0x4000_0000);
    }
    let x1: i128 = x0 * cz - y0 * sz;
    let y1: i128 = x0 * sz + y0 * cz;
    proof {
        lemma_mul_abs_le(y1 as int, cx as int, 0x8000_0000_0000_0000, 0x4000_0000);
        lemma_mul_abs_le(y1 as int, sx as int, 0x8000_0000_0000_0000, 0x4000_0000);
        lemma_mul_abs_le(z0 as int, sx as int, 0x8000_0000_0000_0000, 0x4000_0000);
        lemma_mul_abs_le(z0 as int, cx as int, 0x8000_0000_0000_0000, 0x4000_0000);
    }
    let y2: i128 = y1 * cx - z0 * sx;
    let z2: i128 = y1 * sx + z0 * cx;
    let mut o: u8 = 0;
    if x1 > 0 {
        o = o + 1;
    }
    if y2 > 0 {
        o = o + 2;
    }
    if z2 > 0 {
        o = o + 4;
    }
    o
}

/// The cloud tumbles through a whole number of cycles, and each point takes
/// the hue of its octant: 0.45 of the wheel from one octant to the next.
pub fn roll_around(cloud: &PointCloud, frame: usize, total_frames: usize) -> (colors: Result<
    Vec<Color>,
    EffectError,
>)
    ensures
        roll_cycles(total_frames as int) == 0 ==> colors == Err::<Vec<Color>, EffectError>(
            EffectError::TooShort,
        ),
        roll_cycles(total_frames as int) != 0 ==> colors is Ok && colors->Ok_0@
            == roll_around_frame(cloud@, frame as int, total_frames as int),
{
    let (z_angle, x_angle) = match roll_angles(frame, total_frames) {
        Ok(angles) => angles,
        Err(e) => {
            return Err(e);
        },
    };
    let height: i32 = cloud.max_height();
    let n: usize = cloud.len();
    let mut out: Vec<Color> = Vec::new();
    let mut i: usize = 0;
    while i < n
        invariant
            i <= n,
            n == cloud@.len(),
            out@.len() == i,
            height == top(cloud@),
            forall|j: int|
                0 <= j < i ==> #[trigger] out@[j] == wheel(
                    stepped(
                        octant_of(cloud@[j], height as int, z_angle as int, x_angle as int),
                        OCTANT_HUE_STEP as int,
                    ),
                ),
        decreases n - i,
    {
        let o: u8 = octant(cloud.point(i), height, z_angle, x_angle);
        out.push(saturated_color(stepped_hue(o as u128, OCTANT_HUE_STEP)));
        i = i + 1;
    }
    assert(out@ =~= roll_around_frame(cloud@, frame as int, total_frames as int));
    Ok(out)
}

/// The cloud is turned by the same angles in the first frame and in the
/// frame that would follow the last, so the two frames are equal: the
/// sequence wraps without a jump.
pub proof fn law_roll_around_closes(points: Seq<Point>, total: usize)
    requires
        roll_cycles(total as int) != 0,
    ensures
        z_angle_in_frame(total as int, total as int) == z_angle_in_frame(0, total as int),
        x_angle_in_frame(total as int, total as int) == x_angle_in_frame(0, total as int),
        roll_around_frame(points, total as int, total as int) == roll_around_frame(
            points,
            0,
            total as int,
        ),
{
    if total == 0 {
        assert(0 * 1 == 0);
    } else {
        crate::cycle::law_phase_closes(roll_cycles(total as int), total as int);
    }
}

} // verus!
