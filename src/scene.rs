//! A scene: the union of its top-level shapes.
use vstd::prelude::*;
use crate::fixed::{in_range, LIMIT};
use crate::math::min_int;
use crate::vec3::Vec3;
use crate::shapes::{SceneObject, DistanceField};

verus! {

/// The nearest surface over the first `n` shapes; `LIMIT` where there are none.
pub open spec fn nearest(shapes: Seq<SceneObject>, n: int, p: Vec3) -> int
    decreases n,
{
    if n <= 0 {
        LIMIT as int
    } else {
        min_int(nearest(shapes, n - 1, p), shapes[n - 1].distance(p))
    }
}

pub struct Scene {
    pub shapes: Vec<SceneObject>,
}

impl Scene {
    pub open spec fn wf(&self) -> bool {
        forall|i: int| 0 <= i < self.shapes@.len() ==> (#[trigger] self.shapes@[i]).wf()
    }

    /// The scene's signed distance: the least over its shapes.
    pub open spec fn distance(&self, p: Vec3) -> int {
        nearest(self.shapes@, self.shapes@.len() as int, p)
    }
}

impl Scene {
    /// Whether every shape of the scene is valid.
    pub fn is_valid(&self) -> (r: bool)
        ensures
            r == self.wf(),
    {
        let mut i: usize = 0;
        while i < self.shapes.len()
            invariant
                i <= self.shapes@.len(),
                forall|j: int| 0 <= j < i ==> (#[trigger] self.shapes@[j]).wf(),
            decreases self.shapes@.len() - i,
        {
            if !self.shapes[i].is_valid() {
                return false;
            }
            i += 1;
        }
        true
    }
}

impl DistanceField for Scene {
    open spec fn field_wf(&self) -> bool {
        self.wf()
    }

    open spec fn field_at(&self, p: Vec3) -> int {
        self.distance(p)
    }

    fn sdf(&self, from: &Vec3) -> (r: i64) {
        let mut min: i64 = LIMIT;
        let mut i: usize = 0;
        while i < self.shapes.len()
            invariant
                self.wf(),
                from.wf(),
                i <= self.shapes@.len(),
                min == nearest(self.shapes@, i as int, *from),
                in_range(min as int),
            decreases self.shapes@.len() - i,
        {
            let dist = self.shapes[i].sdf(from);
            if dist < min {
                min = dist;
            }
            i += 1;
        }
        min
    }
}

} // verus!
