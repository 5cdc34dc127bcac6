//! The positions of the lights.

use vstd::prelude::*;
use crate::error::EffectError;

verus! {

/// How many coordinate steps make one length unit.
pub const UNIT: i32 = 1_000_000;

/// A position, each coordinate counted in steps of `1 / UNIT`.  The `z` axis
/// points up.
#[derive(Clone, Copy, Debug, PartialEq, Eq, Structural)]
pub struct Point {
    pub x: i32,
    pub y: i32,
    pub z: i32,
}

/// The largest `z` among `points`, which must not be empty.
pub open spec fn top(points: Seq<Point>) -> int
    decreases points.len(),
{
    if points.len() <= 1 {
        points[0].z as int
    } else {
        let rest: int = top(points.drop_last());
        if points.last().z >= rest {
            points.last().z as int
        } else {
            rest
        }
    }
}

/// `top` is attained by some point and exceeded by none.
pub proof fn lemma_top(points: Seq<Point>)
    requires
        points.len() >= 1,
    ensures
        forall|i: int| 0 <= i < points.len() ==> (#[trigger] points[i]).z <= top(points),
        exists|i: int| 0 <= i < points.len() && (#[trigger] points[i]).z == top(points),
        i32::MIN <= top(points) <= i32::MAX,
    decreases points.len(),
{
    if points.len() > 1 {
        let head: Seq<Point> = points.drop_last();
        lemma_top(head);
        let w: int = choose|i: int| 0 <= i < head.len() && (#[trigger] head[i]).z == top(head);
        assert(points[w] == head[w]);
        assert forall|i: int| 0 <= i < points.len() implies (#[trigger] points[i]).z <= top(
            points,
        ) by {
            if i < head.len() {
                assert(points[i] == head[i]);
            }
        }
        if points.last().z >= top(head) {
            assert(points[points.len() - 1].z == top(points));
        } else {
            assert(points[w].z == top(points));
        }
    } else {
        assert(points[0].z == top(points));
    }
}

/// A non-empty sequence of points.  The position of a point in the sequence
/// is the channel of its light, and every frame lists its colours in that
/// order.
pub struct PointCloud {
    points: Vec<Point>,
}

impl PointCloud {
    #[verifier::type_invariant]
    closed spec fn holds_a_point(self) -> bool {
        self.points@.len() >= 1
    }

    /// The points in channel order.
    pub closed spec fn view(&self) -> Seq<Point> {
        self.points@
    }

    /// Takes the points in channel order; an empty list is rejected.
    pub fn new(points: Vec<Point>) -> (made: Result<PointCloud, EffectError>)
        ensures
            points@.len() == 0 ==> made == Err::<PointCloud, EffectError>(EffectError::EmptyCloud),
            points@.len() >= 1 ==> made is Ok && made->Ok_0@ == points@,
    {
        if points.len() == 0 {
            Err(EffectError::EmptyCloud)
        } else {
            Ok(PointCloud { points })
        }
    }

    /// The number of points.
    pub fn len(&self) -> (n: usize)
        ensures
            n == self@.len(),
            n >= 1,
    {
        proof {
            use_type_invariant(self);
        }
        self.points.len()
    }

    /// The point on channel `i`.
    pub fn point(&self, i: usize) -> (p: Point)
        requires
            i < self@.len(),
        ensures
            p == self@[i as int],
    {
        self.points[i]
    }

    /// The height of the highest point.
    pub fn max_height(&self) -> (h: i32)
        ensures
            h == top(self@),
    {
        proof {
            use_type_invariant(self);
        }
        let mut h: i32 = self.points[0].z;
        let mut i: usize = 1;
        assert(self.points@.subrange(0, 1).len() == 1);
        while i < self.points.len()
            invariant
                1 <= i <= self.points@.len(),
                h == top(self.points@.subrange(0, i as int)),
            decreases self.points@.len() - i,
        {
            let z: i32 = self.points[i].z;
            proof {
                let next: Seq<Point> = self.points@.subrange(0, i + 1);
                assert(next.drop_last() =~= self.points@.subrange(0, i as int));
                assert(next.last() == self.points@[i as int]);
            }
            if z >= h {
                h = z;
            }
            i = i + 1;
        }
        assert(self.points@.subrange(0, i as int) =~= self.points@);
        h
    }
}

} // verus!
