//! A run of twenty lights that moves along the string.
//!
//! Where a light is in space does not matter: the run goes by channel.  In
//! frame `frame`, channel `i` has place `(i + frame) % n` in the round; the
//! places below twenty are the run, brightest at place zero and fading by a
//! twentieth from each place to the next.

use vstd::prelude::*;
use crate::arith::{lemma_div_exact, lemma_mul_le};
use crate::cloud::PointCloud;
use crate::color::{
    dark, dim, law_wheel_saturated, saturated_color, stepped, stepped_hue, wheel, Color, ONE,
};

verus! {

/// The number of places in the run.
pub const SNAKE_LEN: u32 = 20;

/// The place of channel `i` in frame `frame`, on a string of `n` lights.
pub open spec fn place(i: int, frame: int, n: int) -> int {
    (i + frame) % n
}

/// The brightness at place `k` of the run, as a count of `1 / ONE`.
pub open spec fn ramp(k: int) -> int {
    (SNAKE_LEN as int - k) * (ONE as int / SNAKE_LEN as int)
}

/// The hue of the run in frame `frame`: one trip around the wheel every
/// sixty frames.
pub open spec fn snake_hue(frame: int) -> int {
    stepped(frame, 1)
}

/// The colour of channel `i` in frame `frame`.
pub open spec fn snake_color(i: int, frame: int, n: int) -> Color {
    if place(i, frame, n) < SNAKE_LEN as int {
        wheel(snake_hue(frame)).dimmed(ramp(place(i, frame, n)))
    } else {
        dark()
    }
}

/// The frame of the effect for `n` lights.
pub open spec fn snake_frame(n: nat, frame: int) -> Seq<Color> {
    Seq::new(n, |i: int| snake_color(i, frame, n as int))
}

/// The run moves on by one channel per frame and changes its hue as it
/// goes.  The requested number of frames plays no part.
pub fn snake(cloud: &PointCloud, frame: usize, total_frames: usize) -> (colors: Vec<Color>)
    ensures
        colors@ == snake_frame(cloud@.len(), frame as int),
{
    let n: usize = cloud.len();
    let hue: Color = saturated_color(stepped_hue(frame as u128, 1));
    let mut out: Vec<Color> = Vec::new();
    let mut i: usize = 0;
    while i < n
        invariant
            i <= n,
            n == cloud@.len(),
            n >= 1,
            out@.len() == i,
            hue == wheel(snake_hue(frame as int)),
            hue.in_gamut(),
            forall|j: int|
                0 <= j < i ==> #[trigger] out@[j] == snake_color(j, frame as int, n as int),
        decreases n - i,
    {
        let k: u128 = ((i as u128) + (frame as u128)) % (n as u128);
        if k < SNAKE_LEN as u128 {
            proof {
                lemma_mul_le(
                    SNAKE_LEN as int - k as int,
                    (ONE / SNAKE_LEN) as int,
                    SNAKE_LEN as int,
                    300_000,
                );
            }
            let factor: u32 = (SNAKE_LEN - (k as u32)) * (ONE / SNAKE_LEN);
            out.push(hue.scaled(factor));
        } else {
            out.push(Color::black());
        }
        i = i + 1;
    }
    assert(out@ =~= snake_frame(n as nat, frame as int));
    out
}

/// A light in the run is exactly as bright as the ramp says at its place,
/// which is more than nothing and less from place to place; a light outside
/// the run is dark.
pub proof fn law_snake_ramp(i: int, frame: int, n: int)
    requires
        0 <= i < n,
        0 <= frame,
    ensures
        place(i, frame, n) < SNAKE_LEN ==> snake_color(i, frame, n).brightness() == ramp(
            place(i, frame, n),
        ),
        place(i, frame, n) >= SNAKE_LEN ==> snake_color(i, frame, n) == dark(),
        forall|k: int| 0 <= k < SNAKE_LEN ==> 0 < #[trigger] ramp(k) <= ONE,
        forall|k: int| 0 <= k < SNAKE_LEN - 1 ==> #[trigger] ramp(k) > ramp(k + 1),
{
    assert(ONE as int / SNAKE_LEN as int == 300_000);
    assert forall|k: int| 0 <= k < SNAKE_LEN implies 0 < #[trigger] ramp(k) <= ONE by {
        lemma_mul_le(SNAKE_LEN as int - k, 300_000, SNAKE_LEN as int, 300_000);
        assert((SNAKE_LEN as int - k) * 300_000 >= 300_000) by (nonlinear_arith)
            requires
                SNAKE_LEN as int - k >= 1,
        ;
    }
    assert forall|k: int| 0 <= k < SNAKE_LEN - 1 implies #[trigger] ramp(k) > ramp(k + 1) by {
        assert((SNAKE_LEN as int - k) * 300_000 == (SNAKE_LEN as int - (k + 1)) * 300_000
            + 300_000) by (nonlinear_arith);
    }
    let k: int = place(i, frame, n);
    if k < SNAKE_LEN {
        let hue: Color = wheel(snake_hue(frame));
        let f: int = ramp(k);
        law_wheel_saturated(snake_hue(frame));
        lemma_dimmed_brightness(hue, f);
    }
}

/// Dimming keeps the order of the channels, so a dimmed colour is as bright
/// as its brightest channel dimmed; for a colour of the wheel, that is the
/// factor itself.
proof fn lemma_dimmed_brightness(c: Color, f: int)
    requires
        c.in_gamut(),
        c.brightness() == ONE,
        0 <= f <= ONE,
    ensures
        c.dimmed(f).brightness() == f,
{
    let one: int = ONE as int;
    lemma_div_exact(f, one);
    assert(dim(one, f) == f) by {
        assert(one * f == f * one) by (nonlinear_arith);
    }
    crate::arith::lemma_scaled_le(f, c.r as int, one);
    crate::arith::lemma_scaled_le(f, c.g as int, one);
    crate::arith::lemma_scaled_le(f, c.b as int, one);
    assert(c.r * f == f * c.r && c.g * f == f * c.g && c.b * f == f * c.b) by (nonlinear_arith);
}

/// In every frame each place of the round is taken by exactly one channel.
/// So the run, as far as the string is long enough to hold it, is all there:
/// as many lights are lit as the smaller of twenty and the number of lights.
pub proof fn law_snake_places(n: int, frame: int, k: int)
    requires
        0 < n,
        0 <= frame,
        0 <= k < n,
    ensures
        0 <= channel_at(k, frame, n) < n,
        place(channel_at(k, frame, n), frame, n) == k,
        forall|i: int| 0 <= i < n && place(i, frame, n) == k ==> i == channel_at(k, frame, n),
{
    let i0: int = channel_at(k, frame, n);
    let f: int = frame % n;
    vstd::arithmetic::div_mod::lemma_add_mod_noop(i0, frame, n);
    vstd::arithmetic::div_mod::lemma_small_mod(i0 as nat, n as nat);
    assert((i0 + f) % n == k) by {
        if k >= f {
            vstd::arithmetic::div_mod::lemma_small_mod(k as nat, n as nat);
        } else {
            vstd::arithmetic::div_mod::lemma_mod_add_multiples_vanish(k, n);
            vstd::arithmetic::div_mod::lemma_small_mod(k as nat, n as nat);
        }
    }
    assert forall|i: int| 0 <= i < n && place(i, frame, n) == k implies i == i0 by {
        vstd::arithmetic::div_mod::lemma_add_mod_noop(i, frame, n);
        vstd::arithmetic::div_mod::lemma_small_mod(i as nat, n as nat);
        if i + f < n {
            vstd::arithmetic::div_mod::lemma_small_mod((i + f) as nat, n as nat);
        } else {
            vstd::arithmetic::div_mod::lemma_mod_add_multiples_vanish(i + f - n, n);
            vstd::arithmetic::div_mod::lemma_small_mod((i + f - n) as nat, n as nat);
        }
    }
}

/// The channel that takes place `k` in frame `frame`.
pub open spec fn channel_at(k: int, frame: int, n: int) -> int {
    if k >= frame % n {
        k - frame % n
    } else {
        k + n - frame % n
    }
}

/// The channels that are lit in frame `frame`.
pub open spec fn lit_channels(n: int, frame: int) -> Set<int> {
    Set::new(|i: int| 0 <= i < n && snake_color(i, frame, n) != dark())
}

/// Exactly as many lights are lit as the smaller of twenty and the number
/// of lights.
pub proof fn law_snake_count(n: int, frame: int)
    requires
        0 < n,
        0 <= frame,
    ensures
        lit_channels(n, frame).finite(),
        lit_channels(n, frame).len() == if n < SNAKE_LEN {
            n
        } else {
            SNAKE_LEN as int
        },
{
    let run: int = if n < SNAKE_LEN {
        n
    } else {
        SNAKE_LEN as int
    };
    let places: Set<int> = vstd::set_lib::set_int_range(0, run);
    vstd::set_lib::lemma_int_range(0, run);
    let to_channel = |k: int| channel_at(k, frame, n);
    assert forall|a: int, b: int|
        places.contains(a) && places.contains(b) && #[trigger] to_channel(a) == #[trigger] to_channel(b)
        implies a == b by {
        law_snake_places(n, frame, a);
        law_snake_places(n, frame, b);
    }
    assert(vstd::relations::injective_on(to_channel, places));
    let lit: Set<int> = lit_channels(n, frame);
    assert forall|i: int| lit.contains(i) <==> places.map(to_channel).contains(i) by {
        if lit.contains(i) {
            law_snake_ramp(i, frame, n);
            let k: int = place(i, frame, n);
            law_snake_places(n, frame, k);
            assert(places.contains(k));
            assert(to_channel(k) == i);
        }
        if places.map(to_channel).contains(i) {
            let k: int = choose|k: int| places.contains(k) && to_channel(k) == i;
            law_snake_places(n, frame, k);
            law_snake_ramp(i, frame, n);
            assert(ramp(k) > 0);
            assert(snake_color(i, frame, n).brightness() > 0);
        }
    }
    assert(places.map(to_channel) =~= lit);
    vstd::set_lib::lemma_map_size(places, lit, to_channel);
}

} // verus!
