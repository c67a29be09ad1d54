use vstd::prelude::*;

verus! {

/// A point of the scene, one signed 64-bit ordinate per axis.
///
/// An ordinate is a coordinate already pushed through the caller's
/// order-preserving embedding, so comparing two ordinates compares the two
/// coordinates they stand for, and componentwise minima and maxima agree with
/// the embedded ones.
#[derive(Clone, Copy, PartialEq, Eq, Structural, Debug)]
pub struct Vec3 {
    pub x: i64,
    pub y: i64,
    pub z: i64,
}

impl Vec3 {
    pub fn new(x: i64, y: i64, z: i64) -> (v: Vec3)
        ensures
            v == (Vec3 { x, y, z }),
    {
        Vec3 { x, y, z }
    }

    /// The ordinate on the given axis: 0 is x, 1 is y, 2 is z.
    pub open spec fn spec_axis(self, a: int) -> i64 {
        if a == 0 {
            self.x
        } else if a == 1 {
            self.y
        } else {
            self.z
        }
    }

    pub fn axis(&self, a: usize) -> (r: i64)
        requires
            a < 3,
        ensures
            r == self.spec_axis(a as int),
    {
        if a == 0 {
            self.x
        } else if a == 1 {
            self.y
        } else {
            self.z
        }
    }

    /// Componentwise order: `self` at or below `o` on every axis.
    pub open spec fn le(self, o: Vec3) -> bool {
        self.x <= o.x && self.y <= o.y && self.z <= o.z
    }

    pub open spec fn spec_min_with(self, o: Vec3) -> Vec3 {
        Vec3 {
            x: if self.x <= o.x { self.x } else { o.x },
            y: if self.y <= o.y { self.y } else { o.y },
            z: if self.z <= o.z { self.z } else { o.z },
        }
    }

    pub open spec fn spec_max_with(self, o: Vec3) -> Vec3 {
        Vec3 {
            x: if self.x >= o.x { self.x } else { o.x },
            y: if self.y >= o.y { self.y } else { o.y },
            z: if self.z >= o.z { self.z } else { o.z },
        }
    }

    /// Componentwise minimum of two points.
    pub fn min_with(&self, o: &Vec3) -> (r: Vec3)
        ensures
            r == self.spec_min_with(*o),
            r.le(*self) && r.le(*o),
    {
        Vec3 {
            x: if self.x <= o.x { self.x } else { o.x },
            y: if self.y <= o.y { self.y } else { o.y },
            z: if self.z <= o.z { self.z } else { o.z },
        }
    }

    /// Componentwise maximum of two points.
    pub fn max_with(&self, o: &Vec3) -> (r: Vec3)
        ensures
            r == self.spec_max_with(*o),
            self.le(r) && o.le(r),
    {
        Vec3 {
            x: if self.x >= o.x { self.x } else { o.x },
            y: if self.y >= o.y { self.y } else { o.y },
            z: if self.z >= o.z { self.z } else { o.z },
        }
    }
}

} // verus!
