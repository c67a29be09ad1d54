use vstd::prelude::*;

verus! {

use crate::aabb::Aabb;

/// What an intersection query yields: the ray parameter of the hit and the
/// caller's identity for the primitive that was hit. Surface data tied to
/// real arithmetic — hit point, oriented normal, texture coordinates — is
/// recomputed by the caller from the identity and the parameter.
#[derive(Clone, Copy, PartialEq, Eq, Structural, Debug)]
pub struct HitRecord {
    pub t: i64,
    pub id: usize,
}

/// One primitive as the spatial index sees it: its bounding box and the
/// caller's identity for it.
#[derive(Clone, Copy, PartialEq, Eq, Structural, Debug)]
pub struct Primitive {
    pub bb: Aabb,
    pub id: usize,
}

/// The hit window is half-open: a candidate at `t` counts when
/// `t_min < t <= t_max`.
pub open spec fn in_window(t: i64, t_min: i64, t_max: i64) -> bool {
    t_min < t && t <= t_max
}

pub open spec fn sorted_asc(s: Seq<i64>) -> bool {
    forall|i: int, j: int| 0 <= i <= j < s.len() ==> s[i] <= s[j]
}

pub fn is_sorted_asc(v: &Vec<i64>) -> (r: bool)
    ensures
        r == sorted_asc(v@),
{
    let mut i: usize = 1;
    while i < v.len()
        invariant
            1 <= i || v@.len() == 0,
            i <= v@.len() || v@.len() == 0,
            forall|p: int, q: int| 0 <= p <= q < i && q < v@.len() ==> v@[p] <= v@[q],
        decreases v@.len() - i,
    {
        if v[i - 1] > v[i] {
            return false;
        }
        i += 1;
    }
    true
}

/// The smallest of one primitive's candidate parameters that lies in the
/// window, the candidates given in ascending order. This is the root
/// selection every quadratic shape uses: take the nearer crossing if the
/// window admits it, otherwise the farther, otherwise report no hit.
pub fn first_in_window(cands: &Vec<i64>, t_min: i64, t_max: i64) -> (r: Option<i64>)
    requires
        sorted_asc(cands@),
    ensures
        match r {
            None => forall|j: int| 0 <= j < cands@.len() ==> !in_window(cands@[j], t_min, t_max),
            Some(t) => cands@.contains(t) && in_window(t, t_min, t_max) && forall|j: int|
                0 <= j < cands@.len() && in_window(cands@[j], t_min, t_max) ==> t <= cands@[j],
        },
{
    let mut i: usize = 0;
    while i < cands.len()
        invariant
            i <= cands@.len(),
            sorted_asc(cands@),
            forall|j: int| 0 <= j < i ==> !in_window(cands@[j], t_min, t_max),
        decreases cands@.len() - i,
    {
        let c = cands[i];
        if t_min < c && c <= t_max {
            assert(cands@.contains(cands@[i as int]));
            return Some(c);
        }
        i += 1;
    }
    None
}

/// Turns a pool of per-primitive candidate vectors into its mathematical
/// view, one sequence of parameters per primitive.
pub open spec fn views_of(cands: Seq<Vec<i64>>) -> Seq<Seq<i64>> {
    cands.map_values(|v: Vec<i64>| v@)
}

pub open spec fn hit_t(r: Option<HitRecord>) -> Option<i64> {
    match r {
        None => None,
        Some(rec) => Some(rec.t),
    }
}

/// `r` is the nearest hit the candidate pool admits in the window: `None`
/// exactly when no candidate list holds a parameter in the window, and
/// otherwise the smallest such parameter. The parameter is pinned; which of
/// two primitives hitting at exactly the same parameter reports it is not.
pub open spec fn is_nearest_t(cands: Seq<Seq<i64>>, t_min: i64, t_max: i64, r: Option<i64>) -> bool {
    match r {
        None => forall|c: Seq<i64>, t: i64|
            #![trigger cands.contains(c), c.contains(t)]
            cands.contains(c) && c.contains(t) ==> !in_window(t, t_min, t_max),
        Some(t) => {
            &&& in_window(t, t_min, t_max)
            &&& exists|c: Seq<i64>| #[trigger] cands.contains(c) && c.contains(t)
            &&& forall|c: Seq<i64>, u: i64|
                #![trigger cands.contains(c), c.contains(u)]
                cands.contains(c) && c.contains(u) && in_window(u, t_min, t_max) ==> t <= u
        },
    }
}

/// The nearest hit in a window is a function of which candidate lists are in
/// the pool, not of their order: two answers over pools holding the same
/// lists agree outright. With the traversal of a bounding-volume hierarchy
/// and the linear scan of the same primitives each pinned to this
/// description, this is what makes the two find the same nearest hit.
pub proof fn lemma_nearest_t_unique(
    c1: Seq<Seq<i64>>,
    c2: Seq<Seq<i64>>,
    t_min: i64,
    t_max: i64,
    a: Option<i64>,
    b: Option<i64>,
)
    requires
        c1.to_multiset() == c2.to_multiset(),
        is_nearest_t(c1, t_min, t_max, a),
        is_nearest_t(c2, t_min, t_max, b),
    ensures
        a == b,
{
    broadcast use vstd::seq_lib::group_to_multiset_ensures;

    assert(forall|c: Seq<i64>| c1.contains(c) <==> c2.contains(c)) by {
        assert(forall|c: Seq<i64>| #[trigger]
            c1.contains(c) ==> c1.to_multiset().count(c) > 0 && c2.contains(c));
        assert(forall|c: Seq<i64>| #[trigger]
            c2.contains(c) ==> c2.to_multiset().count(c) > 0 && c1.contains(c));
    }
    match (a, b) {
        (None, None) => {},
        (None, Some(tb)) => {
            let c = choose|c: Seq<i64>| #[trigger] c2.contains(c) && c.contains(tb);
            assert(c1.contains(c) && c.contains(tb));
        },
        (Some(ta), None) => {
            let c = choose|c: Seq<i64>| #[trigger] c1.contains(c) && c.contains(ta);
            assert(c2.contains(c) && c.contains(ta));
        },
        (Some(ta), Some(tb)) => {
            let ca = choose|c: Seq<i64>| #[trigger] c1.contains(c) && c.contains(ta);
            let cb = choose|c: Seq<i64>| #[trigger] c2.contains(c) && c.contains(tb);
            assert(c2.contains(ca) && c1.contains(cb));
            assert(ta <= tb && tb <= ta);
        },
    }
}

/// A set of primitives probed one after the other, with no spatial index.
pub struct HittableList {
    pub objects: Vec<Primitive>,
}

impl HittableList {
    pub fn new(objects: Vec<Primitive>) -> (l: HittableList)
        ensures
            l.objects == objects,
    {
        HittableList { objects }
    }

    /// Nearest hit by linear scan: probe every primitive, shrinking the far
    /// end of the window to the closest hit found so far. `cands[i]` holds
    /// the candidate parameters of `objects[i]` for the ray being traced, in
    /// ascending order.
    pub fn hit(&self, cands: &Vec<Vec<i64>>, t_min: i64, t_max: i64) -> (r: Option<HitRecord>)
        requires
            cands@.len() == self.objects@.len(),
            forall|i: int| 0 <= i < cands@.len() ==> sorted_asc(#[trigger] cands@[i]@),
        ensures
            is_nearest_t(views_of(cands@), t_min, t_max, hit_t(r)),
            r matches Some(rec) ==> exists|i: int|
                0 <= i < cands@.len() && self.objects@[i].id == rec.id && (
                #[trigger] cands@[i]@).contains(rec.t),
    {
        let mut best: Option<HitRecord> = None;
        let mut closest: i64 = t_max;
        let mut i: usize = 0;
        while i < self.objects.len()
            invariant
                cands@.len() == self.objects@.len(),
                forall|k: int| 0 <= k < cands@.len() ==> sorted_asc(#[trigger] cands@[k]@),
                i <= cands@.len(),
                match best {
                    None => closest == t_max && forall|j: int, k: int|
                        0 <= j < i && 0 <= k < cands@[j]@.len() ==> !in_window(
                            #[trigger] cands@[j]@[k],
                            t_min,
                            t_max,
                        ),
                    Some(rec) => {
                        &&& closest == rec.t
                        &&& in_window(rec.t, t_min, t_max)
                        &&& exists|j: int|
                            0 <= j < i && self.objects@[j].id == rec.id && (
                            #[trigger] cands@[j]@).contains(rec.t)
                        &&& forall|j: int, k: int|
                            0 <= j < i && 0 <= k < cands@[j]@.len() && in_window(
                                #[trigger] cands@[j]@[k],
                                t_min,
                                t_max,
                            ) ==> rec.t <= cands@[j]@[k]
                    },
                },
            decreases self.objects@.len() - i,
        {
            match first_in_window(&cands[i], t_min, closest) {
                Some(t) => {
                    best = Some(HitRecord { t, id: self.objects[i].id });
                    closest = t;
                },
                None => {},
            }
            i += 1;
        }
        proof {
            Self::lemma_scan_characterizes(cands@, self.objects@, t_min, t_max, best);
        }
        best
    }

    /// The box around the whole list: the fold of `surrounding_box` over the
    /// objects' boxes — it contains every object's box, any box containing
    /// them all contains it, and an empty list has none.
    pub fn bounding_box(&self) -> (r: Option<Aabb>)
        ensures
            r is None <==> self.objects@.len() == 0,
            r matches Some(b) ==> {
                &&& forall|i: int|
                    0 <= i < self.objects@.len() ==> b.spec_contains_box(
                        (#[trigger] self.objects@[i]).bb,
                    )
                &&& forall|c: Aabb|
                    (forall|i: int|
                        0 <= i < self.objects@.len() ==> c.spec_contains_box(
                            (#[trigger] self.objects@[i]).bb,
                        )) ==> #[trigger] c.spec_contains_box(b)
                &&& (forall|i: int|
                    0 <= i < self.objects@.len() ==> (#[trigger] self.objects@[i]).bb.is_valid())
                    ==> b.is_valid()
            },
    {
        if self.objects.len() == 0 {
            return None;
        }
        let mut acc = self.objects[0].bb;
        let mut i: usize = 1;
        while i < self.objects.len()
            invariant
                1 <= i <= self.objects@.len(),
                forall|j: int|
                    0 <= j < i ==> acc.spec_contains_box((#[trigger] self.objects@[j]).bb),
                forall|c: Aabb|
                    (forall|j: int|
                        0 <= j < i ==> c.spec_contains_box((#[trigger] self.objects@[j]).bb))
                        ==> #[trigger] c.spec_contains_box(acc),
                (forall|j: int| 0 <= j < i ==> (#[trigger] self.objects@[j]).bb.is_valid())
                    ==> acc.is_valid(),
            decreases self.objects@.len() - i,
        {
            acc = Aabb::surrounding_box(acc, self.objects[i].bb);
            i += 1;
        }
        Some(acc)
    }

    /// Bridges the index form of the scan invariant to the order-free
    /// description of the nearest hit.
    proof fn lemma_scan_characterizes(
        cands: Seq<Vec<i64>>,
        objects: Seq<Primitive>,
        t_min: i64,
        t_max: i64,
        best: Option<HitRecord>,
    )
        requires
            cands.len() == objects.len(),
            match best {
                None => forall|j: int, k: int|
                    0 <= j < cands.len() && 0 <= k < cands[j]@.len() ==> !in_window(
                        #[trigger] cands[j]@[k],
                        t_min,
                        t_max,
                    ),
                Some(rec) => {
                    &&& in_window(rec.t, t_min, t_max)
                    &&& exists|j: int|
                        0 <= j < cands.len() && (#[trigger] cands[j]@).contains(rec.t)
                    &&& forall|j: int, k: int|
                        0 <= j < cands.len() && 0 <= k < cands[j]@.len() && in_window(
                            #[trigger] cands[j]@[k],
                            t_min,
                            t_max,
                        ) ==> rec.t <= cands[j]@[k]
                },
            },
        ensures
            is_nearest_t(views_of(cands), t_min, t_max, hit_t(best)),
    {
        let views = views_of(cands);
        assert(forall|c: Seq<i64>| #[trigger]
            views.contains(c) ==> exists|j: int| 0 <= j < cands.len() && cands[j]@ == c);
        match best {
            None => {
                assert forall|c: Seq<i64>, t: i64|
                    views.contains(c) && c.contains(t) implies !in_window(t, t_min, t_max) by {
                    let j = choose|j: int| 0 <= j < cands.len() && cands[j]@ == c;
                    let k = choose|k: int| 0 <= k < c.len() && c[k] == t;
                    assert(cands[j]@[k] == t);
                }
            },
            Some(rec) => {
                let j0 = choose|j: int| 0 <= j < cands.len() && (#[trigger] cands[j]@).contains(
                    rec.t,
                );
                assert(views[j0] == cands[j0]@);
                assert(views.contains(cands[j0]@));
                assert forall|c: Seq<i64>, u: i64|
                    views.contains(c) && c.contains(u) && in_window(u, t_min, t_max) implies rec.t
                    <= u by {
                    let j = choose|j: int| 0 <= j < cands.len() && cands[j]@ == c;
                    let k = choose|k: int| 0 <= k < c.len() && c[k] == u;
                    assert(cands[j]@[k] == u);
                }
            },
        }
    }
}

} // verus!
