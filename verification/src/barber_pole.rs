//! A red stripe that winds around the vertical axis and turns.
//!
//! The stripe is at the angle `atan2(x, y) + 5 * z + offset`, in radians
//! with `z` in length units, and a point is red where the sine of that
//! angle is positive.  With `b` for `5 * z + offset`, the sine of the sum
//! has the sign of `x * cos(b) + y * sin(b)`, which needs no arc tangent; on
//! the axis itself the first term of the sum is zero and the sine of `b`
//! decides.  The offset grows at 0.05 radians per frame, slowed down so
//! that it makes a whole number of turns over the sequence.

use vstd::prelude::*;
use crate::arith::{lemma_mul_abs_le, lemma_mul_le};
use crate::cloud::{Point, PointCloud};
use crate::color::{Color, ONE};
use crate::cycle::{phase_at, whole_cycles, CycleSync};
use crate::error::EffectError;
use crate::trig::{angle_of_fraction, cos, cosine, opposite, opposite_angle, sin, sine, turn_fraction};

verus! {

/// The nominal number of frames in one turn of the stripe, the full turn
/// divided by 0.05 radians, as a count of `1 / TURN_DEN` of a frame.
pub const TURN_NUM: u64 = 125_663_706_144;

pub const TURN_DEN: u64 = 1_000_000_000;

/// How far the stripe winds per coordinate step of height, five radians per
/// length unit, as a count of `1 / WIND_DEN` of an angle step.
pub const WIND_NUM: u64 = 3_417_826_377_882;

pub const WIND_DEN: u64 = 1_000_000_000;

/// The colour of the stripe.
pub open spec fn red() -> Color {
    Color { r: ONE, g: 0, b: 0 }
}

/// The colour beside the stripe: every channel at one half.
pub open spec fn grey() -> Color {
    Color { r: (ONE / 2) as u32, g: (ONE / 2) as u32, b: (ONE / 2) as u32 }
}

/// The number of whole turns that the stripe makes in `total` frames.
pub open spec fn barber_turns(total: int) -> int {
    whole_cycles(TURN_NUM as int, TURN_DEN as int, total)
}

/// The angle by which the stripe has wound at height `z`.  Its size is
/// rounded down, whichever way it winds.
pub open spec fn wind(z: int) -> int {
    let size: int = if z >= 0 {
        z
    } else {
        -z
    };
    let turned: int = ((size * (WIND_NUM as int)) / (WIND_DEN as int)) % 0x1_0000_0000;
    if z >= 0 {
        turned
    } else {
        opposite(turned)
    }
}

/// The angle by which the stripe has turned in frame `frame` of `total`.
pub open spec fn spin(frame: int, total: int) -> int {
    turn_fraction(phase_at(barber_turns(total), total, frame), total)
}

/// Whether `p` is on the stripe when the stripe is at `angle` on the side
/// that `y` points to.
pub open spec fn on_stripe(p: Point, angle: int) -> bool {
    if p.x == 0 && p.y == 0 {
        sine(angle) > 0
    } else {
        p.x * cosine(angle) + p.y * sine(angle) > 0
    }
}

/// The colour of `p` in frame `frame` of `total`.
pub open spec fn barber_color(p: Point, frame: int, total: int) -> Color {
    if on_stripe(p, (wind(p.z as int) + spin(frame, total)) % 0x1_0000_0000) {
        red()
    } else {
        grey()
    }
}

/// The frame of the effect.
pub open spec fn barber_pole_frame(points: Seq<Point>, frame: int, total: int) -> Seq<Color> {
    Seq::new(points.len(), |i: int| barber_color(points[i], frame, total))
}

fn wound(z: i32) -> (angle: u32)
    ensures
        angle == wind(z as int),
{
    let size: u64 = if z >= 0 {
        z as u64
    } else {
        (-(z as i64)) as u64
    };
    proof {
        lemma_mul_le(size as int, WIND_NUM as int, 0x8000_0000, WIND_NUM as int);
    }
    let turned: u32 = ((((size as u128) * (WIND_NUM as u128)) / (WIND_DEN as u128))
        % 0x1_0000_0000) as u32;
    if z >= 0 {
        turned
    } else {
        opposite_angle(turned)
    }
}

fn striped(p: Point, angle: u32) -> (on: bool)
    ensures
        on == on_stripe(p, angle as int),
{
    let s: i32 = sin(angle);
    if p.x == 0 && p.y == 0 {
        s > 0
    } else {
        let c: i32 = cos(angle);
        proof {
            lemma_mul_abs_le(p.x as int, c as int, 0x8000_0000, 0x4000_0000);
            lemma_mul_abs_le(p.y as int, s as int, 0x8000_0000, 0x4000_0000);
        }
        (p.x as i128) * (c as i128) + (p.y as i128) * (s as i128) > 0
    }
}

/// Every point is red or grey: red on the stripe, grey beside it.  Fails
/// when the sequence is too short for one turn of the stripe.
pub fn barber_pole(cloud: &PointCloud, frame: usize, total_frames: usize) -> (colors: Result<
    Vec<Color>,
    EffectError,
>)
    ensures
        barber_turns(total_frames as int) == 0 ==> colors == Err::<Vec<Color>, EffectError>(
            EffectError::TooShort,
        ),
        barber_turns(total_frames as int) != 0 ==> colors is Ok && colors->Ok_0@
            == barber_pole_frame(cloud@, frame as int, total_frames as int),
        colors is Ok ==> forall|i: int|
            0 <= i < colors->Ok_0@.len() ==> (#[trigger] colors->Ok_0@[i]) == red()
                || colors->Ok_0@[i] == grey(),
{
    let total: u64 = total_frames as u64;
    let sync: CycleSync = match CycleSync::new(TURN_NUM, TURN_DEN, total) {
        Ok(sync) => sync,
        Err(e) => {
            return Err(e);
        },
    };
    let spun: u32 = angle_of_fraction(sync.phase(frame as u64), total);
    let n: usize = cloud.len();
    let mut out: Vec<Color> = Vec::new();
    let mut i: usize = 0;
    while i < n
        invariant
            i <= n,
            n == cloud@.len(),
            out@.len() == i,
            spun == spin(frame as int, total_frames as int),
            forall|j: int|
                0 <= j < i ==> #[trigger] out@[j] == barber_color(
                    cloud@[j],
                    frame as int,
                    total_frames as int,
                ),
        decreases n - i,
    {
        let p: Point = cloud.point(i);
        let angle: u32 = (((wound(p.z) as u64) + (spun as u64)) % 0x1_0000_0000) as u32;
        if striped(p, angle) {
            out.push(Color { r: ONE, g: 0, b: 0 });
        } else {
            out.push(Color { r: ONE / 2, g: ONE / 2, b: ONE / 2 });
        }
        i = i + 1;
    }
    assert(out@ =~= barber_pole_frame(cloud@, frame as int, total_frames as int));
    Ok(out)
}

/// Whatever the points, the frame and the length of the sequence: no colour
/// other than red and grey occurs.
pub proof fn law_barber_pole_two_colors(points: Seq<Point>, frame: int, total: int, i: int)
    requires
        0 <= i < points.len(),
    ensures
        barber_pole_frame(points, frame, total)[i] == red() || barber_pole_frame(
            points,
            frame,
            total,
        )[i] == grey(),
{
}

/// The stripe has made a whole number of turns when the sequence ends, so
/// the frame that would follow the last equals the first.
pub proof fn law_barber_pole_closes(points: Seq<Point>, total: usize)
    requires
        barber_turns(total as int) != 0,
    ensures
        spin(total as int, total as int) == 0,
        spin(0, total as int) == 0,
        barber_pole_frame(points, total as int, total as int) == barber_pole_frame(
            points,
            0,
            total as int,
        ),
{
    if total == 0 {
        assert(0 * (TURN_DEN as int) == 0);
    } else {
        crate::cycle::law_phase_closes(barber_turns(total as int), total as int);
        assert(0 * 0x1_0000_0000 == 0);
    }
}

} // verus!
