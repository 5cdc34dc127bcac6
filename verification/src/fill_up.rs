//! The cloud fills with one colour after the other, from the floor up.
//!
//! The sequence is cut into as many segments as times sixty frames fit into
//! it.  Within a segment a threshold rises from the floor to the highest
//! point.  Every segment has its hue; the points up to the threshold show
//! the hue of the current segment, the points above it the hue of the next,
//! and after the last segment comes the first.

use vstd::prelude::*;
use crate::arith::{lemma_div_mul_le, lemma_mul_abs_le, lemma_mul_le};
use crate::cloud::{top, Point, PointCloud};
use crate::color::{lemma_stepped, saturated_color, stepped, stepped_hue, wheel, Color};
use crate::cycle::{cycle_at, whole_cycles, CycleSync};
use crate::error::EffectError;

verus! {

/// The nominal number of frames in one segment.
pub const FRAMES_PER_FILL: u64 = 60;

/// The hue step from one segment to the next, in sixtieths of the wheel:
/// 0.45.
pub const FILL_HUE_STEP: u8 = 27;

/// The number of segments in `total` frames.
pub open spec fn fills(total: int) -> int {
    whole_cycles(FRAMES_PER_FILL as int, 1, total)
}

/// The segment that frame `frame` of `total` lies in.
pub open spec fn segment_at(frame: int, total: int) -> int {
    cycle_at(fills(total), total, frame)
}

/// The segment after `segment`.
pub open spec fn next_segment(segment: int, total: int) -> int {
    (segment + 1) % fills(total)
}

/// The first frame of segment `segment`.
pub open spec fn segment_start(segment: int, total: int) -> int {
    (segment * total) / fills(total)
}

/// The number of frames in which the threshold rises to the top.
pub open spec fn rise_frames(total: int) -> int {
    total / fills(total)
}

/// Whether a point at height `z` is above the threshold in frame `frame`.
/// The threshold is at `top * (frame - start) / rise`, where `start` is the
/// first frame of the segment and `rise` the number of frames of the rise.
pub open spec fn above(z: int, top: int, frame: int, total: int) -> bool {
    z * rise_frames(total) > (frame - segment_start(segment_at(frame, total), total)) * top
}

/// The colour of a point at height `z` in frame `frame`.
pub open spec fn fill_color(z: int, top: int, frame: int, total: int) -> Color {
    if above(z, top, frame, total) {
        wheel(stepped(next_segment(segment_at(frame, total), total), FILL_HUE_STEP as int))
    } else {
        wheel(stepped(segment_at(frame, total), FILL_HUE_STEP as int))
    }
}

/// The frame of the effect.
pub open spec fn fill_up_frame(points: Seq<Point>, frame: int, total: int) -> Seq<Color> {
    Seq::new(points.len(), |i: int| fill_color(points[i].z as int, top(points), frame, total))
}

/// The cloud fills with the hue of the current segment while the rest still
/// shows the hue of the next.  Fails when the sequence is shorter than one
/// segment.
pub fn fill_up(cloud: &PointCloud, frame: usize, total_frames: usize) -> (colors: Result<
    Vec<Color>,
    EffectError,
>)
    ensures
        fills(total_frames as int) == 0 ==> colors == Err::<Vec<Color>, EffectError>(
            EffectError::TooShort,
        ),
        fills(total_frames as int) != 0 ==> colors is Ok && colors->Ok_0@ == fill_up_frame(
            cloud@,
            frame as int,
            total_frames as int,
        ),
{
    let total: u64 = total_frames as u64;
    let sync: CycleSync = match CycleSync::new(FRAMES_PER_FILL, 1, total) {
        Ok(sync) => sync,
        Err(e) => {
            return Err(e);
        },
    };
    let count: u64 = sync.cycle_count();
    let segment: u64 = sync.cycle_index(frame as u64);
    let next: u64 = ((segment as u128 + 1) % (count as u128)) as u64;
    proof {
        lemma_mul_le(frame as int, count as int, u64::MAX as int, u64::MAX as int);
        lemma_div_mul_le(frame * count, total as int);
        lemma_div_mul_le(segment * total, count as int);
        assert((segment * total) / (count as int) <= frame) by (nonlinear_arith)
            requires
                segment * total <= frame * count,
                0 < count,
                0 <= segment * total,
        ;
    }
    let start: u64 = (((segment as u128) * (total as u128)) / (count as u128)) as u64;
    let rise: u64 = total / count;
    let passed: u64 = (frame as u64) - start;
    let height: i32 = cloud.max_height();
    let current_hue: Color = saturated_color(stepped_hue(segment as u128, FILL_HUE_STEP));
    let next_hue: Color = saturated_color(stepped_hue(next as u128, FILL_HUE_STEP));
    proof {
        lemma_mul_abs_le(passed as int, height as int, u64::MAX as int, 0x8000_0000);
    }
    let level: i128 = (passed as i128) * (height as i128);
    let n: usize = cloud.len();
    let mut out: Vec<Color> = Vec::new();
    let mut i: usize = 0;
    while i < n
        invariant
            i <= n,
            n == cloud@.len(),
            out@.len() == i,
            height == top(cloud@),
            rise == rise_frames(total_frames as int),
            level == (frame - segment_start(
                segment_at(frame as int, total_frames as int),
                total_frames as int,
            )) * top(cloud@),
            current_hue == wheel(
                stepped(segment_at(frame as int, total_frames as int), FILL_HUE_STEP as int),
            ),
            next_hue == wheel(
                stepped(
                    next_segment(segment_at(frame as int, total_frames as int), total_frames as int),
                    FILL_HUE_STEP as int,
                ),
            ),
            forall|j: int|
                0 <= j < i ==> #[trigger] out@[j] == fill_color(
                    cloud@[j].z as int,
                    top(cloud@),
                    frame as int,
                    total_frames as int,
                ),
        decreases n - i,
    {
        let z: i32 = cloud.point(i).z;
        proof {
            lemma_mul_abs_le(z as int, rise as int, 0x8000_0000, u64::MAX as int);
        }
        if (z as i128) * (rise as i128) > level {
            out.push(next_hue);
        } else {
            out.push(current_hue);
        }
        i = i + 1;
    }
    assert(out@ =~= fill_up_frame(cloud@, frame as int, total_frames as int));
    Ok(out)
}

/// In the first frame, and in the frame that would follow the last, a
/// segment has just begun: the threshold is at the floor, and the segment
/// after the current one is the same in both.
proof fn lemma_floor_threshold(z: int, h: int, total: usize)
    requires
        fills(total as int) != 0,
    ensures
        total > 0,
        segment_at(0, total as int) == 0,
        segment_at(total as int, total as int) == fills(total as int),
        next_segment(fills(total as int), total as int) == next_segment(0, total as int),
        above(z, h, 0, total as int) == (z > 0),
        above(z, h, total as int, total as int) == (z > 0),
{
    let t: int = total as int;
    let c: int = fills(t);
    if total == 0 {
        assert(0 * 1 == 0);
    }
    assert(t * 1 == t);
    crate::arith::lemma_div_zero_iff(t, 60);
    crate::arith::lemma_div_mul_le(t, 60);
    crate::cycle::law_phase_closes(c, t);
    assert(segment_start(0, t) == 0) by {
        assert(0 * t == 0);
    }
    assert(segment_start(c, t) == t) by {
        crate::arith::lemma_div_exact(t, c);
    }
    assert(next_segment(c, t) == next_segment(0, t)) by {
        vstd::arithmetic::div_mod::lemma_mod_add_multiples_vanish(1, c);
    }
    let rise: int = rise_frames(t);
    assert(rise > 0) by {
        crate::arith::lemma_div_zero_iff(t, c);
    }
    assert((0 - 0) * h == 0 && (t - t) * h == 0) by (nonlinear_arith);
    assert((z * rise > 0) == (z > 0)) by (nonlinear_arith)
        requires
            rise > 0,
    ;
}

/// In the first frame, and in the frame that would follow the last, the
/// threshold is at the floor and the next segment is the second: every point
/// above the floor has the same colour in both.  A point at or below the
/// floor shows the hue of the current segment, which has by then advanced by
/// 0.45 of the wheel for every segment.  So the two frames are equal exactly
/// when every point lies above the floor or the number of segments is a
/// multiple of twenty.
pub proof fn law_fill_up_closes(points: Seq<Point>, total: usize)
    requires
        points.len() >= 1,
        fills(total as int) != 0,
    ensures
        forall|i: int|
            0 <= i < points.len() && (#[trigger] points[i]).z > 0 ==> fill_up_frame(
                points,
                total as int,
                total as int,
            )[i] == fill_up_frame(points, 0, total as int)[i],
        fill_up_frame(points, total as int, total as int) == fill_up_frame(points, 0, total as int)
            <==> (fills(total as int) % 20 == 0 || forall|i: int|
            0 <= i < points.len() ==> (#[trigger] points[i]).z > 0),
{
    let t: int = total as int;
    let c: int = fills(t);
    let h: int = top(points);
    let first: Seq<Color> = fill_up_frame(points, 0, t);
    let after: Seq<Color> = fill_up_frame(points, t, t);
    assert forall|i: int| 0 <= i < points.len() && (#[trigger] points[i]).z > 0 implies after[i]
        == first[i] by {
        lemma_floor_threshold(points[i].z as int, h, total);
    }
    lemma_stepped(c, 27);
    lemma_stepped(0, 27);
    assert((c * 27) % 60 == 0 <==> c % 20 == 0);
    assert((0int * 27) % 60 == 0);
    if c % 20 == 0 {
        assert forall|i: int| 0 <= i < points.len() implies after[i] == first[i] by {
            lemma_floor_threshold(points[i].z as int, h, total);
        }
        assert(after =~= first);
    } else if forall|i: int| 0 <= i < points.len() ==> (#[trigger] points[i]).z > 0 {
        assert(after =~= first);
    } else {
        let w: int = choose|i: int| 0 <= i < points.len() && !((#[trigger] points[i]).z > 0);
        lemma_floor_threshold(points[w].z as int, h, total);
        assert(first[w] == wheel(stepped(0, 27)));
        assert(after[w] == wheel(stepped(c, 27)));
        if wheel(stepped(c, 27)) == wheel(0) {
            crate::color::law_wheel_injective(stepped(c, 27), 0);
        }
        assert(after[w] != first[w]);
    }
}

} // verus!
