use vstd::prelude::*;

verus! {

use crate::vec3::Vec3;

/// Axis-aligned bounding box, given by its componentwise smallest and largest
/// corners.
#[derive(Clone, Copy, PartialEq, Eq, Structural, Debug)]
pub struct Aabb {
    pub min: Vec3,
    pub max: Vec3,
}

impl Aabb {
    /// The smallest corner at or below the largest on every axis. A fold seed
    /// may violate this; no bounding-box query returns such a box.
    pub open spec fn is_valid(self) -> bool {
        self.min.le(self.max)
    }

    /// Every point of `o` lies in `self`.
    pub open spec fn spec_contains_box(self, o: Aabb) -> bool {
        self.min.le(o.min) && o.max.le(self.max)
    }

    pub open spec fn spec_contains_point(self, p: Vec3) -> bool {
        self.min.le(p) && p.le(self.max)
    }

    pub fn new(min: Vec3, max: Vec3) -> (b: Aabb)
        ensures
            b == (Aabb { min, max }),
    {
        Aabb { min, max }
    }

    pub fn valid(&self) -> (r: bool)
        ensures
            r == self.is_valid(),
    {
        self.min.x <= self.max.x && self.min.y <= self.max.y && self.min.z <= self.max.z
    }

    pub fn contains_box(&self, o: &Aabb) -> (r: bool)
        ensures
            r == self.spec_contains_box(*o),
    {
        self.min.x <= o.min.x && self.min.y <= o.min.y && self.min.z <= o.min.z
            && o.max.x <= self.max.x && o.max.y <= self.max.y && o.max.z <= self.max.z
    }

    pub open spec fn spec_surrounding_box(box0: Aabb, box1: Aabb) -> Aabb {
        Aabb { min: box0.min.spec_min_with(box1.min), max: box0.max.spec_max_with(box1.max) }
    }

    /// The union box: componentwise minimum of the two minima and maximum of
    /// the two maxima. It contains both arguments, and any box containing both
    /// contains it, so it is the smallest such box on each axis independently.
    pub fn surrounding_box(box0: Aabb, box1: Aabb) -> (r: Aabb)
        ensures
            r == Aabb::spec_surrounding_box(box0, box1),
            r.spec_contains_box(box0),
            r.spec_contains_box(box1),
            forall|c: Aabb|
                c.spec_contains_box(box0) && c.spec_contains_box(box1) ==> c.spec_contains_box(r),
            box0.is_valid() && box1.is_valid() ==> r.is_valid(),
    {
        Aabb { min: box0.min.min_with(&box1.min), max: box0.max.max_with(&box1.max) }
    }
}

/// One axis of the slab test against a box: the ray parameters at which the
/// ray crosses the axis's two box planes, smallest plane first, and whether
/// the ray runs toward smaller ordinates on this axis, in which case the two
/// crossings come in reversed parameter order.
#[derive(Clone, Copy, PartialEq, Eq, Structural, Debug)]
pub struct AxisSlab {
    pub t0: i64,
    pub t1: i64,
    pub reversed: bool,
}

impl AxisSlab {
    /// The parameter at which the ray enters this axis's slab.
    pub open spec fn spec_low(self) -> i64 {
        if self.reversed {
            self.t1
        } else {
            self.t0
        }
    }

    /// The parameter at which the ray leaves this axis's slab.
    pub open spec fn spec_high(self) -> i64 {
        if self.reversed {
            self.t0
        } else {
            self.t1
        }
    }

    pub fn low(&self) -> (r: i64)
        ensures
            r == self.spec_low(),
    {
        if self.reversed {
            self.t1
        } else {
            self.t0
        }
    }

    pub fn high(&self) -> (r: i64)
        ensures
            r == self.spec_high(),
    {
        if self.reversed {
            self.t0
        } else {
            self.t1
        }
    }
}

/// The three axis crossings of one ray against one box: everything the slab
/// test reads.
#[derive(Clone, Copy, PartialEq, Eq, Structural, Debug)]
pub struct RaySlabs {
    pub x: AxisSlab,
    pub y: AxisSlab,
    pub z: AxisSlab,
}

impl RaySlabs {
    /// The last of the three axis entries: where the ray is first inside all
    /// three slabs.
    pub open spec fn spec_low(self) -> i64 {
        max_i64(self.x.spec_low(), max_i64(self.y.spec_low(), self.z.spec_low()))
    }

    /// The first of the three axis exits: where the ray first leaves a slab.
    pub open spec fn spec_high(self) -> i64 {
        min_i64(self.x.spec_high(), min_i64(self.y.spec_high(), self.z.spec_high()))
    }

    /// Whether the search window `[t_min, t_max]`, narrowed by the three axis
    /// intervals in turn, stays nonempty.
    pub open spec fn spec_hit(self, t_min: i64, t_max: i64) -> bool {
        min_i64(t_max, self.spec_high()) > max_i64(t_min, self.spec_low())
    }

    pub fn low_bound(&self) -> (r: i64)
        ensures
            r == self.spec_low(),
    {
        let yz = if self.y.low() >= self.z.low() { self.y.low() } else { self.z.low() };
        if self.x.low() >= yz { self.x.low() } else { yz }
    }

    pub fn high_bound(&self) -> (r: i64)
        ensures
            r == self.spec_high(),
    {
        let yz = if self.y.high() <= self.z.high() { self.y.high() } else { self.z.high() };
        if self.x.high() <= yz { self.x.high() } else { yz }
    }

    /// The slab rejection test: narrow the running window by each axis's
    /// crossing interval and reject as soon as it closes. Produces no record;
    /// it only prunes.
    pub fn hit(&self, t_min: i64, t_max: i64) -> (hit: bool)
        ensures
            hit == self.spec_hit(t_min, t_max),
    {
        let mut lo = t_min;
        let mut hi = t_max;

        let l = self.x.low();
        if l > lo {
            lo = l;
        }
        let h = self.x.high();
        if h < hi {
            hi = h;
        }
        if hi <= lo {
            return false;
        }

        let l = self.y.low();
        if l > lo {
            lo = l;
        }
        let h = self.y.high();
        if h < hi {
            hi = h;
        }
        if hi <= lo {
            return false;
        }

        let l = self.z.low();
        if l > lo {
            lo = l;
        }
        let h = self.z.high();
        if h < hi {
            hi = h;
        }
        hi > lo
    }
}

pub open spec fn min_i64(a: i64, b: i64) -> i64 {
    if a <= b {
        a
    } else {
        b
    }
}

pub open spec fn max_i64(a: i64, b: i64) -> i64 {
    if a >= b {
        a
    } else {
        b
    }
}

} // verus!
