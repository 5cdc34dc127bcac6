//! Four groups of lights that swell and fade one after the other.
//!
//! Where a light is does not matter.  Each channel belongs to one of four
//! classes, dealt out by a shuffle that is the same in every call; each class
//! has its hue and its place in the round, a quarter turn from the next.  A
//! sweep angle makes three full turns over the sequence, and a class is as
//! bright as the sine of its place minus the sweep, or dark where that sine
//! is negative.

use vstd::prelude::*;
use crate::arith::lemma_mul_le;
use crate::cloud::{Point, PointCloud};
use crate::color::{saturated_color, stepped, stepped_hue, wheel, Color, ONE};
use crate::error::EffectError;
use crate::shuffle::{seeded_shuffle, shuffle_seeded};
use crate::trig::{angle_of_fraction, sin, sine, turn_fraction, QUARTER};

verus! {

/// The number of classes.
pub const CLASSES: u8 = 4;

/// The seed of the shuffle that deals out the classes.
pub const SEED: u64 = 42;

/// How many full turns the sweep makes over the sequence.
pub const SWEEPS: u64 = 3;

/// The hue step from one class to the next, in sixtieths of the wheel: 0.3.
pub const CLASS_HUE_STEP: u8 = 18;

/// The classes before the shuffle: channel `i` has class `i % 4`.
pub open spec fn dealt(n: nat) -> Seq<u8> {
    Seq::new(n, |i: int| (i % (CLASSES as int)) as u8)
}

/// The class of each channel of a cloud of `n` points.
pub open spec fn class_order(n: nat) -> Seq<u8> {
    seeded_shuffle(SEED, dealt(n))
}

/// The sweep angle in frame `frame` of `total`.
pub open spec fn sweep(frame: int, total: int) -> int {
    turn_fraction((SWEEPS as int * frame) % total, total)
}

/// The brightness of class `class` in frame `frame` of `total`, as a count
/// of `1 / ONE`.
pub open spec fn glow(class: int, frame: int, total: int) -> int {
    let angle: int = (class * (QUARTER as int) + 0x1_0000_0000 - sweep(frame, total))
        % 0x1_0000_0000;
    if sine(angle) <= 0 {
        0
    } else {
        (sine(angle) * (ONE as int)) / (QUARTER as int)
    }
}

/// The colour of class `class` in frame `frame` of `total`.
pub open spec fn class_color(class: int, frame: int, total: int) -> Color {
    wheel(stepped(class, CLASS_HUE_STEP as int)).dimmed(glow(class, frame, total))
}

/// The frame for channels of the classes `classes`.
pub open spec fn twinkle_frame(classes: Seq<u8>, frame: int, total: int) -> Seq<Color> {
    Seq::new(classes.len(), |i: int| class_color(classes[i] as int, frame, total))
}

/// The class of each channel of a cloud of `n` points.  The classes are
/// dealt out in turn and then shuffled with a fixed seed, so the same count
/// gives the same classes in every call, and each class is one of the four.
pub fn phase_classes(n: usize) -> (classes: Vec<u8>)
    ensures
        classes@ == class_order(n as nat),
        classes@.len() == n,
        classes@.to_multiset() == dealt(n as nat).to_multiset(),
        forall|i: int| 0 <= i < n ==> (#[trigger] classes@[i]) < CLASSES,
{
    let mut classes: Vec<u8> = Vec::new();
    let mut i: usize = 0;
    while i < n
        invariant
            i <= n,
            classes@.len() == i,
            forall|j: int| 0 <= j < i ==> (#[trigger] classes@[j]) == (j % (CLASSES as int)) as u8,
        decreases n - i,
    {
        classes.push((i % (CLASSES as usize)) as u8);
        i = i + 1;
    }
    assert(classes@ =~= dealt(n as nat));
    let ghost before: Seq<u8> = classes@;
    shuffle_seeded(&mut classes, SEED);
    proof {
        assert forall|i: int| 0 <= i < n implies (#[trigger] classes@[i]) < CLASSES by {
            let c: u8 = classes@[i];
            classes@.to_multiset_ensures();
            before.to_multiset_ensures();
            assert(classes@.contains(c));
            assert(before.to_multiset().count(c) > 0);
            assert(before.contains(c));
            let w: int = choose|w: int| 0 <= w < before.len() && before[w] == c;
            assert(before[w] == (w % (CLASSES as int)) as u8);
        }
    }
    classes
}

/// The brightness of class `class`.
fn class_glow(class: u8, swept: u32) -> (g: u32)
    ensures
        g <= ONE,
        g == {
            let angle: int = (class * (QUARTER as int) + 0x1_0000_0000 - swept) % 0x1_0000_0000;
            if sine(angle) <= 0 {
                0
            } else {
                (sine(angle) * (ONE as int)) / (QUARTER as int)
            }
        },
{
    proof {
        lemma_mul_le(class as int, QUARTER as int, 255, QUARTER as int);
    }
    let angle: u32 = (((class as u64) * (QUARTER as u64) + 0x1_0000_0000 - (swept as u64))
        % 0x1_0000_0000) as u32;
    let s: i32 = sin(angle);
    if s <= 0 {
        0
    } else {
        proof {
            lemma_mul_le(s as int, ONE as int, QUARTER as int, ONE as int);
            assert((s * ONE) / (QUARTER as int) <= ONE) by (nonlinear_arith)
                requires
                    0 <= s <= QUARTER,
                    QUARTER == 0x4000_0000,
                    ONE == 6_000_000,
            ;
        }
        (((s as u64) * (ONE as u64)) / (QUARTER as u64)) as u32
    }
}

/// The frame for channels whose classes are `classes`.  Fails when no frame
/// is requested.
pub fn twinkle_with_phases(classes: &Vec<u8>, frame: usize, total_frames: usize) -> (colors:
    Result<Vec<Color>, EffectError>)
    ensures
        total_frames == 0 ==> colors == Err::<Vec<Color>, EffectError>(EffectError::TooShort),
        total_frames != 0 ==> colors is Ok && colors->Ok_0@ == twinkle_frame(
            classes@,
            frame as int,
            total_frames as int,
        ),
{
    if total_frames == 0 {
        return Err(EffectError::TooShort);
    }
    let total: u64 = total_frames as u64;
    let turned: u64 = ((SWEEPS as u128 * (frame as u128)) % (total as u128)) as u64;
    let swept: u32 = angle_of_fraction(turned, total);
    let n: usize = classes.len();
    let mut out: Vec<Color> = Vec::new();
    let mut i: usize = 0;
    while i < n
        invariant
            i <= n,
            n == classes@.len(),
            out@.len() == i,
            swept == sweep(frame as int, total_frames as int),
            forall|j: int|
                0 <= j < i ==> #[trigger] out@[j] == class_color(
                    classes@[j] as int,
                    frame as int,
                    total_frames as int,
                ),
        decreases n - i,
    {
        let class: u8 = classes[i];
        let hue: Color = saturated_color(stepped_hue(class as u128, CLASS_HUE_STEP));
        out.push(hue.scaled(class_glow(class, swept)));
        i = i + 1;
    }
    assert(out@ =~= twinkle_frame(classes@, frame as int, total_frames as int));
    Ok(out)
}

/// Each light swells and fades in the hue of its class: 0.3 of the wheel
/// from one class to the next.
pub fn twinkle(cloud: &PointCloud, frame: usize, total_frames: usize) -> (colors: Result<
    Vec<Color>,
    EffectError,
>)
    ensures
        total_frames == 0 ==> colors == Err::<Vec<Color>, EffectError>(EffectError::TooShort),
        total_frames != 0 ==> colors is Ok && colors->Ok_0@ == twinkle_frame(
            class_order(cloud@.len()),
            frame as int,
            total_frames as int,
        ) && colors->Ok_0@.len() == cloud@.len(),
{
    let classes: Vec<u8> = phase_classes(cloud.len());
    twinkle_with_phases(&classes, frame, total_frames)
}

/// Which class a channel belongs to depends on the number of points alone:
/// not on where the points are, and not on the frame.  In every frame the
/// colour of a channel is the hue of its class, dimmed.
pub proof fn law_twinkle_classes_fixed(
    a: Seq<Point>,
    b: Seq<Point>,
    frame: int,
    total: int,
    i: int,
)
    requires
        a.len() == b.len(),
        0 <= i < class_order(a.len()).len(),
    ensures
        class_order(a.len()) == class_order(b.len()),
        twinkle_frame(class_order(a.len()), frame, total) == twinkle_frame(
            class_order(b.len()),
            frame,
            total,
        ),
        twinkle_frame(class_order(a.len()), frame, total)[i] == wheel(
            stepped(class_order(a.len())[i] as int, CLASS_HUE_STEP as int),
        ).dimmed(glow(class_order(a.len())[i] as int, frame, total)),
{
}

} // verus!
