//! The ways in which a request for frames can fail.

use vstd::prelude::*;

verus! {

/// Why no frame was produced.
#[derive(Clone, Copy, Debug, PartialEq, Eq, Structural)]
pub enum EffectError {
    /// The cloud holds no point.
    EmptyCloud,
    /// The requested number of frames is zero, or smaller than one cycle of
    /// the effect's motion.
    TooShort,
    /// The effect stacks layers between the floor and the highest point, and
    /// the highest point does not lie above the floor.
    FlatCloud,
    /// The frame index is beyond what the effect's distance arithmetic can
    /// hold.
    FrameTooLarge,
}

} // verus!
