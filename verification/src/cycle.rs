//! Fitting a periodic motion into a requested number of frames.
//!
//! A motion with a nominal period that does not divide the requested length
//! would jump where the sequence wraps around.  The period is therefore
//! stretched so that a whole number of cycles fills the sequence exactly.

use vstd::prelude::*;
use crate::arith::{
    lemma_div_exact, lemma_div_mono, lemma_div_mul_le, lemma_div_zero_iff, lemma_mul_le,
    lemma_mul_mono,
};
use crate::error::EffectError;

verus! {

/// How many whole cycles of `num / den` frames fit into `total` frames.
pub open spec fn whole_cycles(num: int, den: int, total: int) -> int {
    (total * den) / num
}

/// The cycle that frame `frame` lies in, when `cycles` cycles fill `total`
/// frames.
pub open spec fn cycle_at(cycles: int, total: int, frame: int) -> int {
    (frame * cycles) / total
}

/// How far frame `frame` is into its cycle, as a count of `1 / total` of the
/// cycle.
pub open spec fn phase_at(cycles: int, total: int, frame: int) -> int {
    (frame * cycles) % total
}

/// A whole number of cycles fitted into a sequence of frames.
pub struct CycleSync {
    cycles: u64,
    total: u64,
}

impl CycleSync {
    #[verifier::type_invariant]
    closed spec fn fits(self) -> bool {
        1 <= self.cycles <= self.total
    }

    /// The number of cycles in the sequence.
    pub closed spec fn cycles(&self) -> int {
        self.cycles as int
    }

    /// The number of frames in the sequence.
    pub closed spec fn total(&self) -> int {
        self.total as int
    }

    /// Fits cycles of nominally `num / den` frames, at least one frame each,
    /// into `total` frames.  Fails when not even one cycle fits.
    pub fn new(num: u64, den: u64, total: u64) -> (made: Result<CycleSync, EffectError>)
        requires
            0 < den <= num,
        ensures
            whole_cycles(num as int, den as int, total as int) == 0 ==> made == Err::<
                CycleSync,
                EffectError,
            >(EffectError::TooShort),
            whole_cycles(num as int, den as int, total as int) != 0 ==> made is Ok
                && made->Ok_0.cycles() == whole_cycles(num as int, den as int, total as int)
                && made->Ok_0.total() == total,
            total * den < num <==> made is Err,
    {
        proof {
            lemma_mul_le(total as int, den as int, u64::MAX as int, u64::MAX as int);
            lemma_div_mul_le(total * den, num as int);
            lemma_div_zero_iff(total * den, num as int);
            lemma_mul_mono(total as int, den as int, num as int);
            lemma_div_mono(total * den, total * num, num as int);
            lemma_div_exact(total as int, num as int);
        }
        let cycles: u128 = ((total as u128) * (den as u128)) / (num as u128);
        if cycles == 0 {
            Err(EffectError::TooShort)
        } else {
            Ok(CycleSync { cycles: cycles as u64, total })
        }
    }

    /// The number of cycles in the sequence.
    pub fn cycle_count(&self) -> (c: u64)
        ensures
            c == self.cycles(),
            1 <= c <= self.total(),
    {
        proof {
            use_type_invariant(self);
        }
        self.cycles
    }

    /// The cycle that `frame` lies in.
    pub fn cycle_index(&self, frame: u64) -> (c: u64)
        ensures
            c == cycle_at(self.cycles(), self.total(), frame as int),
            c <= frame,
    {
        proof {
            use_type_invariant(self);
            lemma_mul_le(frame as int, self.cycles as int, u64::MAX as int, u64::MAX as int);
            lemma_mul_mono(frame as int, self.cycles as int, self.total as int);
            lemma_div_mono(frame * self.cycles, frame * self.total, self.total as int);
            lemma_div_exact(frame as int, self.total as int);
            lemma_div_mul_le(frame * self.cycles, self.total as int);
        }
        (((frame as u128) * (self.cycles as u128)) / (self.total as u128)) as u64
    }

    /// How far `frame` is into its cycle, as a count of `1 / total` of the
    /// cycle.
    pub fn phase(&self, frame: u64) -> (p: u64)
        ensures
            p == phase_at(self.cycles(), self.total(), frame as int),
            p < self.total(),
    {
        proof {
            use_type_invariant(self);
            lemma_mul_le(frame as int, self.cycles as int, u64::MAX as int, u64::MAX as int);
        }
        (((frame as u128) * (self.cycles as u128)) % (self.total as u128)) as u64
    }
}

/// The cycle and the place within it add up to where the stretched motion
/// stands: frame `frame` lies `frame * cycles / total` nominal cycles into
/// the motion.
pub proof fn law_cycle_position(cycles: int, total: int, frame: int)
    requires
        0 < total,
    ensures
        cycle_at(cycles, total, frame) * total + phase_at(cycles, total, frame) == frame * cycles,
        0 <= phase_at(cycles, total, frame) < total,
{
    vstd::arithmetic::div_mod::lemma_fundamental_div_mod(frame * cycles, total);
    assert(total * cycle_at(cycles, total, frame) == cycle_at(cycles, total, frame) * total)
        by (nonlinear_arith);
}

/// The motion is at the start of a cycle both in the first frame and in the
/// frame that would follow the last, so the sequence wraps without a jump.
pub proof fn law_phase_closes(cycles: int, total: int)
    requires
        0 < total,
    ensures
        phase_at(cycles, total, 0) == 0,
        phase_at(cycles, total, total) == 0,
        cycle_at(cycles, total, 0) == 0,
        cycle_at(cycles, total, total) == cycles,
{
    lemma_div_exact(cycles, total);
    assert(0 * cycles == 0);
}

} // verus!
