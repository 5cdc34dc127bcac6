//! Frame-by-frame colour sequences for a string of lights placed in space.
//!
//! Every quantity is an integer: coordinates are counted in millionths of a
//! length unit, colour channels and hues in fractions of [`color::ONE`], and
//! angles in fractions of a full turn.  An effect maps a point cloud, a frame
//! index and the requested number of frames to one colour per point.

pub mod accelerate;
pub mod arith;
pub mod barber_pole;
pub mod cloud;
pub mod color;
pub mod cycle;
pub mod effect;
pub mod error;
pub mod fall_down;
pub mod fill_up;
pub mod roll_around;
pub mod sequence;
pub mod shuffle;
pub mod snake;
pub mod trig;
pub mod twinkle;
