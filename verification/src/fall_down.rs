//! Layers that drop from the top of the cloud and pile up from the floor.
//!
//! The height range from the floor to the highest point is cut into eight
//! layers of equal height.  In each cycle the layers appear one after the
//! other at the top, drop at a constant speed onto the pile, and rest for a
//! pause; when all eight lie on the pile, the pile sinks into the floor.
//!
//! Time is counted in ticks and height in marks, chosen so that everything
//! is a whole number: one frame of the nominal motion has
//! `8 * FALL_SPEED * total` ticks, one coordinate step has `8 * total` marks,
//! and a falling layer drops one mark per tick.

use vstd::prelude::*;
use crate::arith::{lemma_mul_abs_le, lemma_mul_le};
use crate::cloud::{lemma_top, top, Point, PointCloud};
use crate::color::{dark, saturated_color, stepped, stepped_hue, wheel, Color};
use crate::cycle::{cycle_at, phase_at, whole_cycles, CycleSync};
use crate::error::EffectError;

verus! {

/// The number of layers.
pub const LAYERS: u8 = 8;

/// How many coordinate steps a layer drops per frame: 0.15 length units.
pub const FALL_SPEED: u32 = 150_000;

/// How many frames each layer rests after its drop, and the pile before it
/// sinks.
pub const PAUSE: u32 = 10;

/// The hue step from one cycle, or one layer, to the next, in sixtieths of
/// the wheel: 0.45.
pub const HUE_STEP: u8 = 27;

/// Where the motion stands at one moment of a cycle.
#[derive(Clone, Copy, Debug, PartialEq, Eq, Structural)]
pub struct Stack {
    /// The layer that is dropping, or `LAYERS` when all lie on the pile.
    pub layer: u8,
    /// The top of the pile, in marks: points below it are lit.
    pub base: i128,
    /// The lower edge of the dropping layer, in marks.
    pub low: i128,
    /// The upper edge of the dropping layer, in marks.
    pub high: i128,
}

/// The nominal length of a cycle, as a count of `1 / (2 * FALL_SPEED)` of a
/// frame, for a cloud whose highest point is at `top`.  A cycle is nine
/// pauses and the time to drop the total distance: each layer from the top
/// of the cloud to its place on the pile, and the pile through its own
/// height, eleven halves of `top` in all.
pub open spec fn nominal_cycle(top: int) -> int {
    2 * (PAUSE as int) * (LAYERS as int + 1) * (FALL_SPEED as int) + 11 * top
}

/// How many ticks layer `k` takes: the drop from `top` onto a pile of `k`
/// layers, and the pause.
pub open spec fn layer_ticks(top: int, total: int, k: int) -> int {
    (top * (LAYERS as int - k) + 8 * (PAUSE as int) * (FALL_SPEED as int)) * total
}

/// The state `ticks` ticks after layer `k` has appeared at the top, with `k`
/// layers on the pile.
pub open spec fn stack_at(top: int, total: int, ticks: int, k: int) -> Stack
    decreases LAYERS as int - k,
{
    if k >= LAYERS as int {
        Stack { layer: LAYERS, base: (8 * top * total - ticks) as i128, low: 0, high: 0 }
    } else if ticks < layer_ticks(top, total, k) {
        let pile: int = k * top * total;
        let dropped: int = 8 * top * total - ticks;
        let low: int = if dropped >= pile { dropped } else { pile };
        Stack {
            layer: k as u8,
            base: pile as i128,
            low: low as i128,
            high: (low + top * total) as i128,
        }
    } else {
        stack_at(top, total, ticks - layer_ticks(top, total, k), k + 1)
    }
}

/// The state of the motion in frame `frame` of `total`, for a cloud whose
/// highest point is at `top`.
pub open spec fn stack_in_frame(top: int, frame: int, total: int) -> Stack {
    let cycles: int = whole_cycles(nominal_cycle(top), 2 * (FALL_SPEED as int), total);
    stack_at(top, total, 4 * nominal_cycle(top) * phase_at(cycles, total, frame), 0)
}

/// The cycle that frame `frame` of `total` lies in.
pub open spec fn cycle_in_frame(top: int, frame: int, total: int) -> int {
    let cycles: int = whole_cycles(nominal_cycle(top), 2 * (FALL_SPEED as int), total);
    cycle_at(cycles, total, frame)
}

/// Whether a point at height `z` lies in the pile.
pub open spec fn in_pile(stack: Stack, total: int, z: int) -> bool {
    8 * total * z < stack.base
}

/// Whether a point at height `z` lies in the dropping layer.
pub open spec fn in_drop(stack: Stack, total: int, z: int) -> bool {
    stack.low <= 8 * total * z < stack.high
}

/// The layer that a point at height `z` belongs to once it lies in the
/// pile; points below the floor count to the lowest layer.
pub open spec fn layer_of(top: int, z: int) -> int {
    if z < 0 {
        0
    } else {
        (8 * z) / top
    }
}

/// The colour of a point at height `z`, one hue for the whole cycle.
pub open spec fn plain_color(stack: Stack, cycle: int, total: int, z: int) -> Color {
    if in_pile(stack, total, z) || in_drop(stack, total, z) {
        wheel(stepped(cycle, HUE_STEP as int))
    } else {
        dark()
    }
}

/// The colour of a point at height `z`, one hue for each layer.
pub open spec fn rainbow_color(stack: Stack, cycle: int, top: int, total: int, z: int) -> Color {
    if in_pile(stack, total, z) {
        wheel(stepped(layer_of(top, z) + (LAYERS as int) * cycle, HUE_STEP as int))
    } else if in_drop(stack, total, z) {
        wheel(stepped(stack.layer as int + (LAYERS as int) * cycle, HUE_STEP as int))
    } else {
        dark()
    }
}

/// The frame of the one-hue effect.
pub open spec fn fall_down_frame(points: Seq<Point>, frame: int, total: int) -> Seq<Color> {
    Seq::new(
        points.len(),
        |i: int|
            plain_color(
                stack_in_frame(top(points), frame, total),
                cycle_in_frame(top(points), frame, total),
                total,
                points[i].z as int,
            ),
    )
}

/// The frame of the one-hue-per-layer effect.
pub open spec fn fall_down_rainbow_frame(points: Seq<Point>, frame: int, total: int) -> Seq<
    Color,
> {
    Seq::new(
        points.len(),
        |i: int|
            rainbow_color(
                stack_in_frame(top(points), frame, total),
                cycle_in_frame(top(points), frame, total),
                top(points),
                total,
                points[i].z as int,
            ),
    )
}

/// Whether the effects can run: the highest point lies above the floor and
/// at least one cycle fits into `total` frames.
pub open spec fn fall_down_error(points: Seq<Point>, total: int) -> Option<EffectError> {
    if top(points) <= 0 {
        Some(EffectError::FlatCloud)
    } else if whole_cycles(nominal_cycle(top(points)), 2 * (FALL_SPEED as int), total) == 0 {
        Some(EffectError::TooShort)
    } else {
        None
    }
}

/// The state of the motion `ticks` ticks into a cycle.
fn settle(top: i32, total: u64, ticks: u128) -> (stack: Stack)
    requires
        top > 0,
        ticks <= 0x40_0000_0000_0000_0000_0000_0000,
    ensures
        stack == stack_at(top as int, total as int, ticks as int, 0),
        stack.layer <= LAYERS,
{
    let mut left: u128 = ticks;
    let mut k: u8 = 0;
    proof {
        lemma_mul_le(top as int, total as int, i32::MAX as int, u64::MAX as int);
        assert(8 * (top as int) * (total as int) == 8 * (top * total)) by (nonlinear_arith);
    }
    let step: u128 = (top as u128) * (total as u128);
    let full: u128 = 8 * step;
    while k < LAYERS
        invariant
            top > 0,
            k <= LAYERS,
            left <= ticks <= 0x40_0000_0000_0000_0000_0000_0000,
            full == 8 * top * total,
            full == 8 * step,
            step == top * total,
            step <= i32::MAX * u64::MAX,
            stack_at(top as int, total as int, ticks as int, 0) == stack_at(
                top as int,
                total as int,
                left as int,
                k as int,
            ),
        decreases LAYERS - k,
    {
        proof {
            assert(8 * PAUSE * FALL_SPEED == 12_000_000);
            lemma_mul_le(top as int, (LAYERS - k) as int, i32::MAX as int, 8);
            lemma_mul_le(
                top * (LAYERS - k) + 12_000_000,
                total as int,
                i32::MAX * 8 + 12_000_000,
                u64::MAX as int,
            );
        }
        let span: u128 = ((top as u128) * ((LAYERS - k) as u128) + 12_000_000) * (total as u128);
        assert(span == layer_ticks(top as int, total as int, k as int));
        if left < span {
            proof {
                lemma_mul_le(k as int, step as int, 8, i32::MAX * u64::MAX);
                assert(k * (top * total) == k * top * total) by (nonlinear_arith);
            }
            let pile: u128 = (k as u128) * step;
            let dropped: i128 = (full as i128) - (left as i128);
            let low: i128 = if dropped >= pile as i128 {
                dropped
            } else {
                pile as i128
            };
            return Stack { layer: k, base: pile as i128, low, high: low + (step as i128) };
        }
        left = left - span;
        k = k + 1;
    }
    Stack { layer: LAYERS, base: (full as i128) - (left as i128), low: 0, high: 0 }
}

/// What both effects share: the state of the motion, the cycle and the
/// highest point.
fn plan(cloud: &PointCloud, frame: usize, total_frames: usize) -> (planned: Result<
    (Stack, u64, i32),
    EffectError,
>)
    ensures
        match fall_down_error(cloud@, total_frames as int) {
            Some(e) => planned == Err::<(Stack, u64, i32), EffectError>(e),
            None => planned is Ok && planned->Ok_0.0 == stack_in_frame(
                top(cloud@),
                frame as int,
                total_frames as int,
            ) && planned->Ok_0.1 == cycle_in_frame(top(cloud@), frame as int, total_frames as int)
                && planned->Ok_0.2 == top(cloud@) && planned->Ok_0.2 > 0
                && planned->Ok_0.0.layer <= LAYERS,
        },
{
    let top: i32 = cloud.max_height();
    if top <= 0 {
        return Err(EffectError::FlatCloud);
    }
    assert(2 * PAUSE * (LAYERS + 1) * FALL_SPEED == 27_000_000);
    let nominal: u64 = 27_000_000 + 11 * (top as u64);
    let sync: CycleSync = match CycleSync::new(nominal, 2 * (FALL_SPEED as u64), total_frames as u64) {
        Ok(sync) => sync,
        Err(e) => {
            return Err(e);
        },
    };
    let cycle: u64 = sync.cycle_index(frame as u64);
    let phase: u64 = sync.phase(frame as u64);
    proof {
        lemma_mul_le(nominal as int, phase as int, 27_000_000 + 11 * i32::MAX, u64::MAX as int);
        assert(4 * (nominal as int) * (phase as int) == 4 * (nominal * phase))
            by (nonlinear_arith);
    }
    let ticks: u128 = 4 * (nominal as u128) * (phase as u128);
    let stack: Stack = settle(top, total_frames as u64, ticks);
    Ok((stack, cycle, top))
}

/// The position of height `z` in marks.
fn mark_of(total: u64, z: i32) -> (mark: i128)
    ensures
        mark == 8 * total * z,
{
    proof {
        lemma_mul_abs_le(total as int, z as int, u64::MAX as int, 0x8000_0000);
        assert(8 * (total as int) * (z as int) == 8 * (total * z)) by (nonlinear_arith);
    }
    8 * (total as i128) * (z as i128)
}

/// The layers drop and pile up in one hue, which advances by 0.45 of the
/// wheel with every cycle.  A point is lit while it lies in the pile or in
/// the dropping layer.
pub fn fall_down(cloud: &PointCloud, frame: usize, total_frames: usize) -> (colors: Result<
    Vec<Color>,
    EffectError,
>)
    ensures
        match fall_down_error(cloud@, total_frames as int) {
            Some(e) => colors == Err::<Vec<Color>, EffectError>(e),
            None => colors is Ok && colors->Ok_0@ == fall_down_frame(
                cloud@,
                frame as int,
                total_frames as int,
            ),
        },
{
    let (stack, cycle, _top) = match plan(cloud, frame, total_frames) {
        Ok(planned) => planned,
        Err(e) => {
            return Err(e);
        },
    };
    let lit: Color = saturated_color(stepped_hue(cycle as u128, HUE_STEP));
    let n: usize = cloud.len();
    let mut out: Vec<Color> = Vec::new();
    let mut i: usize = 0;
    while i < n
        invariant
            i <= n,
            n == cloud@.len(),
            out@.len() == i,
            lit == wheel(stepped(cycle as int, HUE_STEP as int)),
            forall|j: int|
                0 <= j < i ==> #[trigger] out@[j] == plain_color(
                    stack,
                    cycle as int,
                    total_frames as int,
                    cloud@[j].z as int,
                ),
        decreases n - i,
    {
        let mark: i128 = mark_of(total_frames as u64, cloud.point(i).z);
        if mark < stack.base || (mark >= stack.low && mark < stack.high) {
            out.push(lit);
        } else {
            out.push(Color::black());
        }
        i = i + 1;
    }
    assert(out@ =~= fall_down_frame(cloud@, frame as int, total_frames as int));
    Ok(out)
}

/// The layers drop and pile up, each in a hue of its own: 0.45 of the wheel
/// from one layer to the next, and on from the last layer of one cycle to
/// the first of the next.  A point in the pile keeps the hue of its layer.
pub fn fall_down_rainbow(cloud: &PointCloud, frame: usize, total_frames: usize) -> (colors:
    Result<Vec<Color>, EffectError>)
    ensures
        match fall_down_error(cloud@, total_frames as int) {
            Some(e) => colors == Err::<Vec<Color>, EffectError>(e),
            None => colors is Ok && colors->Ok_0@ == fall_down_rainbow_frame(
                cloud@,
                frame as int,
                total_frames as int,
            ),
        },
{
    let (stack, cycle, top) = match plan(cloud, frame, total_frames) {
        Ok(planned) => planned,
        Err(e) => {
            return Err(e);
        },
    };
    let first: u128 = (LAYERS as u128) * (cycle as u128);
    let n: usize = cloud.len();
    let mut out: Vec<Color> = Vec::new();
    let mut i: usize = 0;
    while i < n
        invariant
            i <= n,
            n == cloud@.len(),
            out@.len() == i,
            top > 0,
            stack.layer <= LAYERS,
            first == LAYERS * cycle,
            forall|j: int|
                0 <= j < i ==> #[trigger] out@[j] == rainbow_color(
                    stack,
                    cycle as int,
                    top as int,
                    total_frames as int,
                    cloud@[j].z as int,
                ),
        decreases n - i,
    {
        let z: i32 = cloud.point(i).z;
        let mark: i128 = mark_of(total_frames as u64, z);
        if mark < stack.base {
            let layer: u64 = if z < 0 {
                0
            } else {
                (8 * (z as u64)) / (top as u64)
            };
            out.push(saturated_color(stepped_hue(layer as u128 + first, HUE_STEP)));
        } else if mark >= stack.low && mark < stack.high {
            out.push(saturated_color(stepped_hue(stack.layer as u128 + first, HUE_STEP)));
        } else {
            out.push(Color::black());
        }
        i = i + 1;
    }
    assert(out@ =~= fall_down_rainbow_frame(cloud@, frame as int, total_frames as int));
    Ok(out)
}

/// The number of whole cycles that the effects fit into `total` frames.
pub open spec fn fall_down_cycles(points: Seq<Point>, total: int) -> int {
    whole_cycles(nominal_cycle(top(points)), 2 * (FALL_SPEED as int), total)
}

/// In the first frame the first layer has just appeared: it sits on top of
/// the cloud, the pile is empty, and the highest point is lit.
proof fn lemma_first_frame(points: Seq<Point>, total: int)
    requires
        points.len() >= 1,
        0 < total <= u64::MAX,
        top(points) > 0,
    ensures
        stack_at(top(points), total, 0, 0).layer == 0,
        stack_at(top(points), total, 0, 0).base == 0,
        exists|i: int|
            0 <= i < points.len() && in_drop(
                stack_at(top(points), total, 0, 0),
                total,
                (#[trigger] points[i]).z as int,
            ) && !in_pile(stack_at(top(points), total, 0, 0), total, points[i].z as int),
{
    let h: int = top(points);
    lemma_top(points);
    lemma_mul_le(h, total, i32::MAX as int, u64::MAX as int);
    assert(0 < h * total) by (nonlinear_arith)
        requires
            0 < h,
            0 < total,
    ;
    assert(8 * h * total == 8 * (h * total) && 8 * total * h == 8 * (h * total)) by (nonlinear_arith);
    assert(layer_ticks(h, total, 0) > 0) by (nonlinear_arith)
        requires
            0 < h,
            0 < total,
            layer_ticks(h, total, 0) == (h * 8 + 8 * 10 * 150_000) * total,
    ;
    assert(0 * h * total == 0) by (nonlinear_arith);
    let w: int = choose|i: int| 0 <= i < points.len() && (#[trigger] points[i]).z == h;
    assert(in_drop(stack_at(h, total, 0, 0), total, points[w].z as int));
}

/// The hue of a cycle is back at the start of the wheel exactly in every
/// twentieth cycle.
proof fn lemma_cycle_hue(cycles: int)
    ensures
        0 <= stepped(cycles, HUE_STEP as int) < crate::color::ONE,
        stepped(cycles, HUE_STEP as int) == 0 <==> cycles % 20 == 0,
{
    crate::color::lemma_stepped(cycles, 27);
    assert((cycles * 27) % 60 == 0 <==> cycles % 20 == 0);
}

/// The hue of a layer is the same in two cycles exactly when they are a
/// multiple of five cycles apart.
proof fn lemma_layer_hue(layer: int, cycles: int)
    ensures
        0 <= stepped(layer + (LAYERS as int) * cycles, HUE_STEP as int) < crate::color::ONE,
        stepped(layer + (LAYERS as int) * cycles, HUE_STEP as int) == stepped(
            layer,
            HUE_STEP as int,
        ) <==> cycles % 5 == 0,
{
    let a: int = layer * 27;
    let b: int = cycles * 216;
    crate::color::lemma_stepped(layer + 8 * cycles, 27);
    crate::color::lemma_stepped(layer, 27);
    assert((layer + 8 * cycles) * 27 == a + b);
    assert((a + b) % 60 == a % 60 <==> b % 60 == 0);
    assert(b % 60 == 0 <==> cycles % 5 == 0);
}

/// The motion of the layers is the same in the first frame and in the frame
/// that would follow the last: the sequence wraps without a jump in which
/// points are lit.
pub proof fn law_fall_down_motion_closes(points: Seq<Point>, total: usize)
    requires
        points.len() >= 1,
        fall_down_error(points, total as int) is None,
    ensures
        total > 0,
        stack_in_frame(top(points), total as int, total as int) == stack_in_frame(
            top(points),
            0,
            total as int,
        ),
        stack_in_frame(top(points), 0, total as int) == stack_at(top(points), total as int, 0, 0),
        cycle_in_frame(top(points), 0, total as int) == 0,
        cycle_in_frame(top(points), total as int, total as int) == fall_down_cycles(
            points,
            total as int,
        ),
{
    if total == 0 {
        assert(0 * (2 * (FALL_SPEED as int)) == 0);
    } else {
        crate::cycle::law_phase_closes(fall_down_cycles(points, total as int), total as int);
        assert(4 * nominal_cycle(top(points)) * 0 == 0);
    }
}

/// The frame that would follow the last equals the first exactly when the
/// hue, which advances by 0.45 of the wheel per cycle, has come back to
/// where it started: when the number of cycles is a multiple of twenty.
pub proof fn law_fall_down_closes(points: Seq<Point>, total: usize)
    requires
        points.len() >= 1,
        fall_down_error(points, total as int) is None,
    ensures
        fall_down_frame(points, total as int, total as int) == fall_down_frame(
            points,
            0,
            total as int,
        ) <==> fall_down_cycles(points, total as int) % 20 == 0,
{
    let t: int = total as int;
    let h: int = top(points);
    let cycles: int = fall_down_cycles(points, t);
    let stack: Stack = stack_at(h, t, 0, 0);
    law_fall_down_motion_closes(points, total);
    lemma_first_frame(points, t);
    lemma_cycle_hue(cycles);
    lemma_cycle_hue(0);
    let first: Seq<Color> = fall_down_frame(points, 0, t);
    let after: Seq<Color> = fall_down_frame(points, t, t);
    assert forall|i: int| 0 <= i < points.len() implies first[i] == plain_color(
        stack,
        0,
        t,
        points[i].z as int,
    ) && after[i] == plain_color(stack, cycles, t, points[i].z as int) by {}
    if cycles % 20 == 0 {
        assert(after =~= first);
    } else {
        let w: int = choose|i: int|
            0 <= i < points.len() && in_drop(stack, t, (#[trigger] points[i]).z as int)
                && !in_pile(stack, t, points[i].z as int);
        if wheel(stepped(cycles, HUE_STEP as int)) == wheel(0) {
            crate::color::law_wheel_injective(stepped(cycles, HUE_STEP as int), 0);
        }
        assert(after[w] != first[w]);
    }
}

/// With one hue per layer, the frame that would follow the last equals the
/// first exactly when the hues of the layers have come back to where they
/// started: when the number of cycles is a multiple of five.
pub proof fn law_fall_down_rainbow_closes(points: Seq<Point>, total: usize)
    requires
        points.len() >= 1,
        fall_down_error(points, total as int) is None,
    ensures
        fall_down_rainbow_frame(points, total as int, total as int) == fall_down_rainbow_frame(
            points,
            0,
            total as int,
        ) <==> fall_down_cycles(points, total as int) % 5 == 0,
{
    let t: int = total as int;
    let h: int = top(points);
    let cycles: int = fall_down_cycles(points, t);
    let stack: Stack = stack_at(h, t, 0, 0);
    law_fall_down_motion_closes(points, total);
    lemma_first_frame(points, t);
    let first: Seq<Color> = fall_down_rainbow_frame(points, 0, t);
    let after: Seq<Color> = fall_down_rainbow_frame(points, t, t);
    assert forall|i: int| 0 <= i < points.len() implies first[i] == rainbow_color(
        stack,
        0,
        h,
        t,
        points[i].z as int,
    ) && after[i] == rainbow_color(stack, cycles, h, t, points[i].z as int) by {}
    if cycles % 5 == 0 {
        assert forall|i: int| 0 <= i < points.len() implies after[i] == first[i] by {
            lemma_layer_hue(layer_of(h, points[i].z as int), cycles);
            lemma_layer_hue(stack.layer as int, cycles);
            assert((LAYERS as int) * 0 == 0);
        }
        assert(after =~= first);
    } else {
        let w: int = choose|i: int|
            0 <= i < points.len() && in_drop(stack, t, (#[trigger] points[i]).z as int)
                && !in_pile(stack, t, points[i].z as int);
        lemma_layer_hue(0, cycles);
        lemma_layer_hue(0, 0);
        assert((LAYERS as int) * 0 == 0);
        let hue: int = stepped(0 + (LAYERS as int) * cycles, HUE_STEP as int);
        if wheel(hue) == wheel(0) {
            crate::color::law_wheel_injective(hue, 0);
        }
        assert(first[w] == wheel(stepped(0, HUE_STEP as int)));
        assert(after[w] == wheel(hue));
        assert(after[w] != first[w]);
    }
}

} // verus!
