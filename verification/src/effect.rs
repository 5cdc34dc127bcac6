//! The effects by name, and one way to run any of them.

use vstd::prelude::*;
use crate::accelerate::{accelerate, accelerate_error, accelerate_frame};
use crate::barber_pole::{barber_pole, barber_pole_frame, barber_turns};
use crate::cloud::{Point, PointCloud};
use crate::color::Color;
use crate::error::EffectError;
use crate::fall_down::{
    fall_down, fall_down_error, fall_down_frame, fall_down_rainbow, fall_down_rainbow_frame,
};
use crate::fill_up::{fill_up, fill_up_frame, fills};
use crate::roll_around::{roll_around, roll_around_frame, roll_cycles};
use crate::snake::{snake, snake_frame};
use crate::twinkle::{class_order, twinkle, twinkle_frame};

verus! {

/// The effects.
#[derive(Clone, Copy, Debug, PartialEq, Eq, Structural)]
pub enum Effect {
    BarberPole,
    FillUp,
    Snake,
    FallDown,
    FallDownRainbow,
    Accelerate,
    RollAround,
    Twinkle,
}

/// The effect that goes by `name`, if there is one.
pub open spec fn effect_named(name: Seq<char>) -> Option<Effect> {
    if name == "barber-pole"@ {
        Some(Effect::BarberPole)
    } else if name == "fill-up"@ {
        Some(Effect::FillUp)
    } else if name == "snake"@ {
        Some(Effect::Snake)
    } else if name == "fall-down"@ {
        Some(Effect::FallDown)
    } else if name == "fall-down-rainbow"@ {
        Some(Effect::FallDownRainbow)
    } else if name == "accelerate"@ {
        Some(Effect::Accelerate)
    } else if name == "roll-around"@ {
        Some(Effect::RollAround)
    } else if name == "twinkle"@ {
        Some(Effect::Twinkle)
    } else {
        None
    }
}

/// What `effect` gives for `points` in frame `frame` of `total`: the frame,
/// or the reason why there is none.
pub open spec fn outcome(effect: Effect, points: Seq<Point>, frame: int, total: int) -> Result<
    Seq<Color>,
    EffectError,
> {
    match effect {
        Effect::BarberPole => if barber_turns(total) == 0 {
            Err(EffectError::TooShort)
        } else {
            Ok(barber_pole_frame(points, frame, total))
        },
        Effect::FillUp => if fills(total) == 0 {
            Err(EffectError::TooShort)
        } else {
            Ok(fill_up_frame(points, frame, total))
        },
        Effect::Snake => Ok(snake_frame(points.len(), frame)),
        Effect::FallDown => match fall_down_error(points, total) {
            Some(e) => Err(e),
            None => Ok(fall_down_frame(points, frame, total)),
        },
        Effect::FallDownRainbow => match fall_down_error(points, total) {
            Some(e) => Err(e),
            None => Ok(fall_down_rainbow_frame(points, frame, total)),
        },
        Effect::Accelerate => match accelerate_error(points, frame) {
            Some(e) => Err(e),
            None => Ok(accelerate_frame(points, frame)),
        },
        Effect::RollAround => if roll_cycles(total) == 0 {
            Err(EffectError::TooShort)
        } else {
            Ok(roll_around_frame(points, frame, total))
        },
        Effect::Twinkle => if total == 0 {
            Err(EffectError::TooShort)
        } else {
            Ok(twinkle_frame(class_order(points.len()), frame, total))
        },
    }
}

/// Whether `made` is what `wanted` says: the same error, or a frame with
/// the same colours.
pub open spec fn agrees(made: Result<Vec<Color>, EffectError>, wanted: Result<
    Seq<Color>,
    EffectError,
>) -> bool {
    match wanted {
        Ok(colors) => made is Ok && made->Ok_0@ == colors,
        Err(e) => made == Err::<Vec<Color>, EffectError>(e),
    }
}

impl Effect {
    /// Looks an effect up by its name.  A name that no effect goes by gives
    /// `None`.
    pub fn from_name(name: &str) -> (found: Option<Effect>)
        ensures
            found == effect_named(name@),
    {
        let wanted: String = name.to_owned();
        if wanted == "barber-pole".to_owned() {
            Some(Effect::BarberPole)
        } else if wanted == "fill-up".to_owned() {
            Some(Effect::FillUp)
        } else if wanted == "snake".to_owned() {
            Some(Effect::Snake)
        } else if wanted == "fall-down".to_owned() {
            Some(Effect::FallDown)
        } else if wanted == "fall-down-rainbow".to_owned() {
            Some(Effect::FallDownRainbow)
        } else if wanted == "accelerate".to_owned() {
            Some(Effect::Accelerate)
        } else if wanted == "roll-around".to_owned() {
            Some(Effect::RollAround)
        } else if wanted == "twinkle".to_owned() {
            Some(Effect::Twinkle)
        } else {
            None
        }
    }

    /// The name that this effect goes by.
    pub fn name(self) -> (name: &'static str)
        ensures
            effect_named(name@) == Some(self),
    {
        proof {
            reveal_strlit("barber-pole");
            reveal_strlit("fill-up");
            reveal_strlit("snake");
            reveal_strlit("fall-down");
            reveal_strlit("fall-down-rainbow");
            reveal_strlit("accelerate");
            reveal_strlit("roll-around");
            reveal_strlit("twinkle");
            assert("barber-pole"@.len() == 11 && "fill-up"@.len() == 7 && "snake"@.len() == 5);
            assert("fall-down"@.len() == 9 && "fall-down-rainbow"@.len() == 17);
            assert("accelerate"@.len() == 10 && "roll-around"@.len() == 11);
            assert("twinkle"@.len() == 7);
            assert("barber-pole"@[0] == 'b' && "roll-around"@[0] == 'r');
            assert("fill-up"@[0] == 'f' && "twinkle"@[0] == 't');
        }
        match self {
            Effect::BarberPole => "barber-pole",
            Effect::FillUp => "fill-up",
            Effect::Snake => "snake",
            Effect::FallDown => "fall-down",
            Effect::FallDownRainbow => "fall-down-rainbow",
            Effect::Accelerate => "accelerate",
            Effect::RollAround => "roll-around",
            Effect::Twinkle => "twinkle",
        }
    }

    /// The frame of this effect for `cloud` at index `frame` of
    /// `total_frames`.
    pub fn render(self, cloud: &PointCloud, frame: usize, total_frames: usize) -> (colors: Result<
        Vec<Color>,
        EffectError,
    >)
        ensures
            agrees(colors, outcome(self, cloud@, frame as int, total_frames as int)),
    {
        match self {
            Effect::BarberPole => barber_pole(cloud, frame, total_frames),
            Effect::FillUp => fill_up(cloud, frame, total_frames),
            Effect::Snake => Ok(snake(cloud, frame, total_frames)),
            Effect::FallDown => fall_down(cloud, frame, total_frames),
            Effect::FallDownRainbow => fall_down_rainbow(cloud, frame, total_frames),
            Effect::Accelerate => accelerate(cloud, frame, total_frames),
            Effect::RollAround => roll_around(cloud, frame, total_frames),
            Effect::Twinkle => twinkle(cloud, frame, total_frames),
        }
    }
}

/// Dimming a colour of the wheel by no more than the full factor keeps it
/// within full intensity.
proof fn lemma_dimmed_in_gamut(hue: int, factor: int)
    requires
        0 <= factor <= crate::color::ONE,
    ensures
        crate::color::wheel(hue).dimmed(factor).in_gamut(),
{
    let c: Color = crate::color::wheel(hue);
    let one: int = crate::color::ONE as int;
    crate::arith::lemma_scaled_le(c.r as int, factor, one);
    crate::arith::lemma_scaled_le(c.g as int, factor, one);
    crate::arith::lemma_scaled_le(c.b as int, factor, one);
}

/// Whatever the effect, the points, the frame and the length of the
/// sequence: no channel of a frame exceeds full intensity, so a frame can be
/// put on a scale of 0 to 255 without clamping.
pub proof fn law_frames_in_gamut(
    effect: Effect,
    points: Seq<Point>,
    frame: usize,
    total: usize,
    i: int,
)
    requires
        points.len() >= 1,
        outcome(effect, points, frame as int, total as int) is Ok,
        0 <= i < outcome(effect, points, frame as int, total as int)->Ok_0.len(),
    ensures
        outcome(effect, points, frame as int, total as int)->Ok_0[i].in_gamut(),
{
    let f: int = frame as int;
    let t: int = total as int;
    match effect {
        Effect::Snake => {
            let n: int = points.len() as int;
            let k: int = crate::snake::place(i, f, n);
            if k < crate::snake::SNAKE_LEN {
                crate::snake::law_snake_ramp(i, f, n);
                lemma_dimmed_in_gamut(crate::snake::snake_hue(f), crate::snake::ramp(k));
            }
        },
        Effect::Twinkle => {
            let class: int = class_order(points.len())[i] as int;
            let glow: int = crate::twinkle::glow(class, f, t);
            let angle: int = (class * (crate::trig::QUARTER as int) + 0x1_0000_0000
                - crate::twinkle::sweep(f, t)) % 0x1_0000_0000;
            crate::trig::law_sine_bounded(angle);
            let s: int = crate::trig::sine(angle);
            if s > 0 {
                crate::arith::lemma_mul_le(s, crate::color::ONE as int, 0x4000_0000, crate::color::ONE as int);
                crate::arith::lemma_div_mono(
                    s * crate::color::ONE,
                    0x4000_0000 * crate::color::ONE,
                    0x4000_0000,
                );
                crate::arith::lemma_div_mul_le(s * crate::color::ONE, 0x4000_0000);
            }
            assert(0 <= glow <= crate::color::ONE);
            lemma_dimmed_in_gamut(
                crate::color::stepped(class, crate::twinkle::CLASS_HUE_STEP as int),
                glow,
            );
        },
        _ => {},
    }
}

} // verus!
