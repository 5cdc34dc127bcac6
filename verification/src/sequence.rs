//! All frames of a sequence, in order.

use vstd::prelude::*;
use crate::cloud::{Point, PointCloud};
use crate::color::Color;
use crate::effect::{outcome, Effect};
use crate::error::EffectError;

verus! {

/// Whether `effect` gives a frame for every index below `upto`.
pub open spec fn all_frames_exist(effect: Effect, points: Seq<Point>, upto: int, total: int) -> bool {
    forall|f: int| 0 <= f < upto ==> (#[trigger] outcome(effect, points, f, total)) is Ok
}

/// Runs `effect` over the whole sequence: the frames with the indices from
/// zero to below `total_frames`, one row of colours each, in the order of
/// the points.  Either every frame is there or none is: a request for no
/// frames fails as too short, and otherwise the first frame that fails gives
/// the error.
pub fn generate(effect: Effect, cloud: &PointCloud, total_frames: usize) -> (frames: Result<
    Vec<Vec<Color>>,
    EffectError,
>)
    ensures
        total_frames == 0 ==> frames == Err::<Vec<Vec<Color>>, EffectError>(EffectError::TooShort),
        total_frames > 0 && all_frames_exist(effect, cloud@, total_frames as int, total_frames as int)
            ==> frames is Ok,
        frames is Ok ==> frames->Ok_0@.len() == total_frames && forall|f: int|
            0 <= f < total_frames ==> outcome(effect, cloud@, f, total_frames as int) == Ok::<
                Seq<Color>,
                EffectError,
            >((#[trigger] frames->Ok_0@[f])@),
        frames is Err && total_frames > 0 ==> exists|f: int|
            0 <= f < total_frames && all_frames_exist(effect, cloud@, f, total_frames as int)
                && #[trigger] outcome(effect, cloud@, f, total_frames as int) == Err::<
                Seq<Color>,
                EffectError,
            >(frames->Err_0),
{
    if total_frames == 0 {
        return Err(EffectError::TooShort);
    }
    let mut rows: Vec<Vec<Color>> = Vec::new();
    let mut frame: usize = 0;
    while frame < total_frames
        invariant
            frame <= total_frames,
            rows@.len() == frame,
            all_frames_exist(effect, cloud@, frame as int, total_frames as int),
            forall|f: int|
                0 <= f < frame ==> outcome(effect, cloud@, f, total_frames as int) == Ok::<
                    Seq<Color>,
                    EffectError,
                >((#[trigger] rows@[f])@),
        decreases total_frames - frame,
    {
        match effect.render(cloud, frame, total_frames) {
            Ok(row) => {
                rows.push(row);
            },
            Err(e) => {
                assert(outcome(effect, cloud@, frame as int, total_frames as int) == Err::<
                    Seq<Color>,
                    EffectError,
                >(e));
                return Err(e);
            },
        }
        frame = frame + 1;
    }
    Ok(rows)
}

} // verus!
