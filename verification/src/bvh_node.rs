use vstd::prelude::*;

verus! {

use crate::aabb::Aabb;
use crate::hittable::{
    first_in_window, hit_t, in_window, is_nearest_t, sorted_asc, HitRecord, Primitive,
};

/// A node of the bounding-volume hierarchy: a single primitive, or a box
/// holding two subtrees that it surrounds. The tree is built once per scene
/// and read-only afterwards.
pub enum BvhNode {
    Leaf(Primitive),
    Branch { bb: Aabb, left: Box<BvhNode>, right: Box<BvhNode> },
}

/// The deterministic build order: lexicographic comparison of the boxes'
/// minimum corners over x, then y, then z. Sorting by a fixed total order
/// makes the tree reproducible for a given scene.
pub open spec fn box_le(a: Primitive, b: Primitive) -> bool {
    let am = a.bb.min;
    let bm = b.bb.min;
    am.x < bm.x || (am.x == bm.x && (am.y < bm.y || (am.y == bm.y && am.z <= bm.z)))
}

pub fn box_compare(a: &Primitive, b: &Primitive) -> (r: bool)
    ensures
        r == box_le(*a, *b),
{
    let am = a.bb.min;
    let bm = b.bb.min;
    am.x < bm.x || (am.x == bm.x && (am.y < bm.y || (am.y == bm.y && am.z <= bm.z)))
}

pub open spec fn sorted_by_box(s: Seq<Primitive>) -> bool {
    forall|i: int, j: int| 0 <= i <= j < s.len() ==> box_le(s[i], s[j])
}

/// Sorts the primitives by `box_le`, keeping exactly the given collection.
fn sort_objects(v: &mut Vec<Primitive>)
    ensures
        sorted_by_box(final(v)@),
        final(v)@.to_multiset() == old(v)@.to_multiset(),
        final(v)@.len() == old(v)@.len(),
{
    broadcast use vstd::seq_lib::group_to_multiset_ensures;
    broadcast use vstd::multiset::group_multiset_axioms;

    if v.len() <= 1 {
        return ;
    }
    let mut i: usize = 1;
    while i < v.len()
        invariant
            1 <= i,
            i <= v@.len() || v@.len() == 0,
            sorted_by_box(v@.take(i as int)),
            v@.to_multiset() == old(v)@.to_multiset(),
            v@.len() == old(v)@.len(),
        decreases v@.len() - i,
    {
        let mut j: usize = i;
        proof {
            assert forall|p: int, q: int|
                0 <= p <= q <= i && p != j && q != j implies box_le(v@[p], v@[q]) by {
                assert(v@.take(i as int)[p] == v@[p]);
                assert(v@.take(i as int)[q] == v@[q]);
            }
        }
        while j >= 1 && !box_compare(&v[j - 1], &v[j])
            invariant
                j <= i,
                i < v@.len(),
                v@.to_multiset() == old(v)@.to_multiset(),
                v@.len() == old(v)@.len(),
                forall|p: int, q: int|
                    0 <= p <= q <= i && p != j && q != j ==> box_le(v@[p], v@[q]),
                forall|q: int| j < q <= i ==> box_le(v@[j as int], v@[q]),
            decreases j,
        {
            let ghost pre = v@;
            let a = v[j - 1];
            let b = v[j];
            v.set(j - 1, b);
            v.set(j, a);
            proof {
                broadcast use vstd::multiset::group_multiset_axioms;

                let s1 = pre.update(j - 1, pre[j as int]);
                assert(s1[j as int] == pre[j as int]);
                assert(v@ =~= s1.update(j as int, pre[j - 1]));
                assert(pre.contains(pre[j - 1]));
                assert(s1.contains(s1[j as int]));
                vstd::seq_lib::to_multiset_update(pre, j - 1, pre[j as int]);
                vstd::seq_lib::to_multiset_update(s1, j as int, pre[j - 1]);
                assert(s1.to_multiset() == pre.to_multiset().insert(pre[j as int]).remove(
                    pre[j - 1],
                ));
                assert(v@.to_multiset() == s1.to_multiset().insert(pre[j - 1]).remove(
                    pre[j as int],
                ));
                vstd::seq_lib::to_multiset_contains(pre, pre[j - 1]);
                vstd::seq_lib::to_multiset_contains(pre, pre[j as int]);
                assert(pre.to_multiset().count(pre[j - 1]) > 0);
                assert(pre.to_multiset().count(pre[j as int]) > 0);
                assert(v@.to_multiset() =~= pre.to_multiset());
            }
            j -= 1;
        }
        proof {
            assert forall|p: int, q: int| 0 <= p <= q <= i implies box_le(v@[p], v@[q]) by {
                if p == q {
                } else if q == j {
                    assert(box_le(v@[j - 1], v@[j as int]));
                    if p < j - 1 {
                        assert(box_le(v@[p], v@[j - 1]));
                    }
                } else if p == j {
                }
            }
            assert(sorted_by_box(v@.take(i + 1)));
        }
        i += 1;
    }
    proof {
        assert(v@.take(v@.len() as int) =~= v@);
    }
}

impl BvhNode {
    /// The box of this node.
    pub open spec fn spec_bb(self) -> Aabb {
        match self {
            BvhNode::Leaf(p) => p.bb,
            BvhNode::Branch { bb, .. } => bb,
        }
    }

    pub fn bounding_box(&self) -> (r: Aabb)
        ensures
            r == self.spec_bb(),
    {
        match self {
            BvhNode::Leaf(p) => p.bb,
            BvhNode::Branch { bb, .. } => *bb,
        }
    }

    /// The primitives at the leaves, left to right.
    pub open spec fn leaves(self) -> Seq<Primitive>
        decreases self,
    {
        match self {
            BvhNode::Leaf(p) => seq![p],
            BvhNode::Branch { bb, left, right } => left.leaves() + right.leaves(),
        }
    }

    /// Well-formed: every leaf box is valid, and every branch's box is
    /// exactly the union of its children's boxes.
    pub open spec fn wf(self) -> bool
        decreases self,
    {
        match self {
            BvhNode::Leaf(p) => p.bb.is_valid(),
            BvhNode::Branch { bb, left, right } => left.wf() && right.wf() && bb
                == Aabb::spec_surrounding_box(left.spec_bb(), right.spec_bb()),
        }
    }

    /// A well-formed node's box contains both children's boxes — and with
    /// that, by induction, the box of every primitive anywhere below it.
    pub proof fn lemma_box_contains_leaves(self)
        requires
            self.wf(),
        ensures
            self.spec_bb().is_valid(),
            forall|i: int|
                0 <= i < self.leaves().len() ==> self.spec_bb().spec_contains_box(
                    (#[trigger] self.leaves()[i]).bb,
                ),
        decreases self,
    {
        match self {
            BvhNode::Leaf(p) => {},
            BvhNode::Branch { bb, left, right } => {
                left.lemma_box_contains_leaves();
                right.lemma_box_contains_leaves();
                let ll = left.leaves();
                let rl = right.leaves();
                assert forall|i: int| 0 <= i < self.leaves().len() implies bb.spec_contains_box(
                    (#[trigger] self.leaves()[i]).bb,
                ) by {
                    if i < ll.len() {
                        assert(self.leaves()[i] == ll[i]);
                    } else {
                        assert(self.leaves()[i] == rl[i - ll.len()]);
                    }
                }
            },
        }
    }

    /// Builds the hierarchy over the given primitives: sort by the
    /// deterministic order, split at the midpoint, recurse on the halves,
    /// and surround the children's boxes. One primitive stands alone; two
    /// are ordered directly. The leaves come out in build order, so the same
    /// scene always produces the same tree up to primitives with equal keys.
    pub fn new(objects: Vec<Primitive>) -> (t: BvhNode)
        requires
            objects@.len() >= 1,
            forall|i: int| 0 <= i < objects@.len() ==> (#[trigger] objects@[i]).bb.is_valid(),
        ensures
            t.wf(),
            t.leaves().to_multiset() == objects@.to_multiset(),
            sorted_by_box(t.leaves()),
        decreases objects@.len(),
    {
        broadcast use vstd::seq_lib::group_to_multiset_ensures;

        let mut objects = objects;
        if objects.len() == 1 {
            let p = objects[0];
            proof {
                assert(objects@ =~= seq![p]);
                assert(BvhNode::Leaf(p).leaves() =~= seq![p]);
            }
            BvhNode::Leaf(p)
        } else if objects.len() == 2 {
            let a = objects[0];
            let b = objects[1];
            let (l, r) = if box_compare(&a, &b) {
                (a, b)
            } else {
                (b, a)
            };
            let bb = Aabb::surrounding_box(l.bb, r.bb);
            let t = BvhNode::Branch {
                bb,
                left: Box::new(BvhNode::Leaf(l)),
                right: Box::new(BvhNode::Leaf(r)),
            };
            proof {
                assert(BvhNode::Leaf(l).leaves() =~= seq![l]);
                assert(BvhNode::Leaf(r).leaves() =~= seq![r]);
                assert(BvhNode::Leaf(l).wf() && BvhNode::Leaf(r).wf());
                assert(t.wf());
                assert(objects@ =~= seq![a] + seq![b]);
                assert(t.leaves() =~= seq![l] + seq![r]);
                vstd::seq_lib::lemma_seq_union_to_multiset_commutative(seq![a], seq![b]);
                assert(t.leaves().to_multiset() == objects@.to_multiset());
                assert(box_le(l, r));
                assert(sorted_by_box(t.leaves()));
            }
            t
        } else {
            let ghost entry = objects@;
            sort_objects(&mut objects);
            proof {
                assert forall|x: Primitive| objects@.contains(x) implies x.bb.is_valid() by {
                    assert(objects@.to_multiset().count(x) > 0);
                    assert(entry.contains(x));
                }
            }
            let mid = objects.len() / 2;
            let ghost sorted = objects@;
            let right_vec = objects.split_off(mid);
            proof {
                assert(objects@ + right_vec@ =~= sorted);
                vstd::seq_lib::lemma_multiset_commutative(objects@, right_vec@);
                assert forall|i: int| 0 <= i < objects@.len() implies (
                #[trigger] objects@[i]).bb.is_valid() by {
                    assert(sorted.contains(sorted[i]));
                }
                assert forall|i: int| 0 <= i < right_vec@.len() implies (
                #[trigger] right_vec@[i]).bb.is_valid() by {
                    assert(sorted.contains(sorted[i + objects@.len()]));
                }
            }
            let ghost left_seq = objects@;
            let ghost right_seq = right_vec@;
            let left = BvhNode::new(objects);
            let right = BvhNode::new(right_vec);
            let bb = Aabb::surrounding_box(left.bounding_box(), right.bounding_box());
            let t = BvhNode::Branch { bb, left: Box::new(left), right: Box::new(right) };
            proof {
                assert(t.leaves() =~= left.leaves() + right.leaves());
                vstd::seq_lib::lemma_multiset_commutative(left.leaves(), right.leaves());
                vstd::seq_lib::lemma_multiset_commutative(left_seq, right_seq);
                assert(left_seq + right_seq =~= sorted);
                assert(t.leaves().to_multiset() == sorted.to_multiset());
                let ll = left.leaves();
                let rl = right.leaves();
                assert forall|p: int, q: int|
                    0 <= p <= q < t.leaves().len() implies box_le(
                    t.leaves()[p],
                    t.leaves()[q],
                ) by {
                    if q < ll.len() {
                        assert(t.leaves()[p] == ll[p] && t.leaves()[q] == ll[q]);
                    } else if p >= ll.len() {
                        assert(t.leaves()[p] == rl[p - ll.len()]);
                        assert(t.leaves()[q] == rl[q - ll.len()]);
                    } else {
                        let x = ll[p];
                        let y = rl[q - ll.len()];
                        assert(t.leaves()[p] == x && t.leaves()[q] == y);
                        assert(ll.contains(x) && rl.contains(y));
                        vstd::seq_lib::to_multiset_contains(ll, x);
                        vstd::seq_lib::to_multiset_contains(left_seq, x);
                        vstd::seq_lib::to_multiset_contains(rl, y);
                        vstd::seq_lib::to_multiset_contains(right_seq, y);
                        let i = choose|i: int| 0 <= i < left_seq.len() && left_seq[i] == x;
                        let j = choose|j: int| 0 <= j < right_seq.len() && right_seq[j] == y;
                        assert(sorted[i] == x);
                        assert(sorted[left_seq.len() + j] == y);
                        assert(box_le(sorted[i], sorted[left_seq.len() + j]));
                    }
                }
            }
            t
        }
    }
}

/// The per-ray data of one subtree, mirroring the subtree's shape. A branch
/// carries the parameters at which the ray enters and leaves the branch's box
/// (the folded slab crossings of `RaySlabs`); a leaf carries the identity of
/// its primitive and the primitive's candidate hit parameters for this ray,
/// in ascending order. The caller derives one such tree per ray; the
/// traversal decides everything else.
pub enum RaySlabTree {
    Leaf { id: usize, cands: Vec<i64> },
    Branch { low: i64, high: i64, left: Box<RaySlabTree>, right: Box<RaySlabTree> },
}

impl RaySlabTree {
    /// Shape and leaf identities line up with the given hierarchy node.
    pub open spec fn matches(self, t: BvhNode) -> bool
        decreases self,
    {
        match (self, t) {
            (RaySlabTree::Leaf { id, cands }, BvhNode::Leaf(p)) => id == p.id,
            (
                RaySlabTree::Branch { low, high, left, right },
                BvhNode::Branch { bb, left: tl, right: tr },
            ) => left.matches(*tl) && right.matches(*tr),
            _ => false,
        }
    }

    /// The candidate lists at the leaves, left to right.
    pub open spec fn leaf_cands(self) -> Seq<Seq<i64>>
        decreases self,
    {
        match self {
            RaySlabTree::Leaf { id, cands } => seq![cands@],
            RaySlabTree::Branch { low, high, left, right } => left.leaf_cands()
                + right.leaf_cands(),
        }
    }

    /// Every candidate parameter anywhere below lies strictly between `low`
    /// and `high`.
    pub open spec fn cands_within(self, low: i64, high: i64) -> bool {
        forall|c: Seq<i64>, t: i64|
            #![trigger self.leaf_cands().contains(c), c.contains(t)]
            self.leaf_cands().contains(c) && c.contains(t) ==> low < t && t < high
    }

    /// Sound for pruning: each leaf's candidates are sorted ascending, and at
    /// every branch the candidates below lie strictly inside the branch's
    /// slab span — a hit inside a box is only reachable while the ray is
    /// inside the box. A candidate lying exactly on a box's slab plane does
    /// not qualify; such a hit may legitimately be pruned away.
    pub open spec fn consistent(self) -> bool
        decreases self,
    {
        match self {
            RaySlabTree::Leaf { id, cands } => sorted_asc(cands@),
            RaySlabTree::Branch { low, high, left, right } => left.consistent()
                && right.consistent() && left.cands_within(low, high) && right.cands_within(
                low,
                high,
            ),
        }
    }

    /// Checks that every candidate below lies strictly between `low` and
    /// `high`, so that callers can establish consistency at run time.
    pub fn check_within(&self, low: i64, high: i64) -> (r: bool)
        ensures
            r == self.cands_within(low, high),
        decreases *self,
    {
        match self {
            RaySlabTree::Leaf { id, cands } => {
                let mut i: usize = 0;
                let mut all = true;
                while i < cands.len()
                    invariant
                        i <= cands@.len(),
                        all == (forall|k: int| 0 <= k < i ==> low < #[trigger] cands@[k] < high),
                    decreases cands@.len() - i,
                {
                    if !(low < cands[i] && cands[i] < high) {
                        all = false;
                    }
                    i += 1;
                }
                proof {
                    assert(self.leaf_cands() =~= seq![cands@]);
                    assert(self.leaf_cands()[0] == cands@);
                    if all {
                        assert forall|c: Seq<i64>, t: i64|
                            #![trigger self.leaf_cands().contains(c), c.contains(t)]
                            self.leaf_cands().contains(c) && c.contains(t) implies low < t && t
                            < high by {
                            assert(c == cands@);
                            let k = choose|k: int| 0 <= k < c.len() && c[k] == t;
                            assert(cands@[k] == t);
                        }
                    } else {
                        let k = choose|k: int|
                            0 <= k < cands@.len() && !(low < cands@[k] && cands@[k] < high);
                        assert(self.leaf_cands().contains(cands@));
                        assert(cands@.contains(cands@[k]));
                    }
                }
                all
            },
            RaySlabTree::Branch { low: l2, high: h2, left, right } => {
                let rl = left.check_within(low, high);
                let rr = right.check_within(low, high);
                proof {
                    Self::lemma_within_concat(**left, **right, *self, low, high);
                }
                rl && rr
            },
        }
    }

    /// Containment below a branch is containment below both children.
    proof fn lemma_within_concat(
        left: RaySlabTree,
        right: RaySlabTree,
        whole: RaySlabTree,
        low: i64,
        high: i64,
    )
        requires
            whole.leaf_cands() == left.leaf_cands() + right.leaf_cands(),
        ensures
            whole.cands_within(low, high) == (left.cands_within(low, high) && right.cands_within(
                low,
                high,
            )),
    {
        let lc = left.leaf_cands();
        let rc = right.leaf_cands();
        if left.cands_within(low, high) && right.cands_within(low, high) {
            assert forall|c: Seq<i64>, t: i64|
                #![trigger whole.leaf_cands().contains(c), c.contains(t)]
                whole.leaf_cands().contains(c) && c.contains(t) implies low < t && t < high by {
                vstd::seq_lib::lemma_seq_concat_contains_all_elements(lc, rc, c);
            }
        }
        if whole.cands_within(low, high) {
            assert forall|c: Seq<i64>, t: i64|
                #![trigger left.leaf_cands().contains(c), c.contains(t)]
                lc.contains(c) && c.contains(t) implies low < t && t
                < high by {
                vstd::seq_lib::lemma_seq_concat_contains_all_elements(lc, rc, c);
            }
            assert forall|c: Seq<i64>, t: i64|
                #![trigger right.leaf_cands().contains(c), c.contains(t)]
                rc.contains(c) && c.contains(t) implies low < t && t
                < high by {
                vstd::seq_lib::lemma_seq_concat_contains_all_elements(lc, rc, c);
            }
        }
    }

    /// Checks the whole consistency condition the traversal relies on.
    pub fn check_consistent(&self) -> (r: bool)
        ensures
            r == self.consistent(),
        decreases *self,
    {
        match self {
            RaySlabTree::Leaf { id, cands } => crate::hittable::is_sorted_asc(cands),
            RaySlabTree::Branch { low, high, left, right } => {
                let a = left.check_consistent();
                let b = right.check_consistent();
                let c = left.check_within(*low, *high);
                let d = right.check_within(*low, *high);
                a && b && c && d
            },
        }
    }

    /// Shapes and leaf identities can be checked at run time too.
    pub fn check_matches(&self, t: &BvhNode) -> (r: bool)
        ensures
            r == self.matches(*t),
        decreases *self,
    {
        match (self, t) {
            (RaySlabTree::Leaf { id, cands }, BvhNode::Leaf(p)) => *id == p.id,
            (
                RaySlabTree::Branch { low, high, left, right },
                BvhNode::Branch { bb, left: tl, right: tr },
            ) => {
                let a = left.check_matches(tl);
                let b = right.check_matches(tr);
                a && b
            },
            _ => false,
        }
    }

    /// Matching trees have the same number of leaves.
    pub proof fn lemma_matches_lengths(self, t: BvhNode)
        requires
            self.matches(t),
        ensures
            self.leaf_cands().len() == t.leaves().len(),
        decreases self,
    {
        match (self, t) {
            (RaySlabTree::Leaf { id, cands }, BvhNode::Leaf(p)) => {},
            (
                RaySlabTree::Branch { low, high, left, right },
                BvhNode::Branch { bb, left: tl, right: tr },
            ) => {
                left.lemma_matches_lengths(*tl);
                right.lemma_matches_lengths(*tr);
            },
            _ => {},
        }
    }
}

impl BvhNode {
    /// Nearest hit by traversal: reject the whole subtree when the ray's
    /// slab span misses the search window; otherwise probe the left child
    /// over the window, probe the right child over the window shrunk to the
    /// left hit, and keep the closer record. The result satisfies the same
    /// nearest-hit description as the linear scan over the same candidate
    /// pool; `lemma_nearest_t_unique` turns that into their agreement.
    pub fn hit(&self, view: &RaySlabTree, t_min: i64, t_max: i64) -> (r: Option<HitRecord>)
        requires
            view.matches(*self),
            view.consistent(),
        ensures
            is_nearest_t(view.leaf_cands(), t_min, t_max, hit_t(r)),
            r matches Some(rec) ==> exists|i: int|
                0 <= i < self.leaves().len() && (#[trigger] self.leaves()[i]).id == rec.id
                    && view.leaf_cands()[i].contains(rec.t),
        decreases *self,
    {
        match (self, view) {
            (BvhNode::Leaf(p), RaySlabTree::Leaf { id, cands }) => {
                let res = first_in_window(cands, t_min, t_max);
                proof {
                    assert(view.leaf_cands() =~= seq![cands@]);
                    assert(view.leaf_cands()[0] == cands@);
                    assert(self.leaves() =~= seq![*p]);
                }
                match res {
                    Some(t) => {
                        proof {
                            assert(view.leaf_cands().contains(cands@));
                            assert forall|c: Seq<i64>, u: i64|
                                #![trigger view.leaf_cands().contains(c), c.contains(u)]
                                view.leaf_cands().contains(c) && c.contains(u) && in_window(
                                    u,
                                    t_min,
                                    t_max,
                                ) implies t <= u by {
                                assert(c == cands@);
                                let k = choose|k: int| 0 <= k < c.len() && c[k] == u;
                                assert(cands@[k] == u);
                            }
                            assert(self.leaves()[0] == *p);
                            assert(view.leaf_cands()[0].contains(t));
                        }
                        Some(HitRecord { t, id: *id })
                    },
                    None => {
                        proof {
                            assert forall|c: Seq<i64>, u: i64|
                                #![trigger view.leaf_cands().contains(c), c.contains(u)]
                                view.leaf_cands().contains(c) && c.contains(u) implies !in_window(
                                    u,
                                    t_min,
                                    t_max,
                                ) by {
                                assert(c == cands@);
                                let k = choose|k: int| 0 <= k < c.len() && c[k] == u;
                                assert(cands@[k] == u);
                            }
                        }
                        None
                    },
                }
            },
            (
                BvhNode::Branch { bb, left, right },
                RaySlabTree::Branch { low, high, left: vl, right: vr },
            ) => {
                let ghost lc = vl.leaf_cands();
                let ghost rc = vr.leaf_cands();
                let ghost whole = view.leaf_cands();
                proof {
                    assert(whole =~= lc + rc);
                    assert(self.leaves() =~= left.leaves() + right.leaves());
                    vl.lemma_matches_lengths(**left);
                    vr.lemma_matches_lengths(**right);
                }
                let hi_cap = if t_max <= *high {
                    t_max
                } else {
                    *high
                };
                let lo_cap = if t_min >= *low {
                    t_min
                } else {
                    *low
                };
                if hi_cap <= lo_cap {
                    proof {
                        assert forall|c: Seq<i64>, u: i64|
                            #![trigger whole.contains(c), c.contains(u)]
                            whole.contains(c) && c.contains(u) implies !in_window(
                                u,
                                t_min,
                                t_max,
                            ) by {
                            vstd::seq_lib::lemma_seq_concat_contains_all_elements(lc, rc, c);
                        }
                    }
                    return None;
                }
                let hl = left.hit(&**vl, t_min, t_max);
                let hr = match hl {
                    Some(rec) => right.hit(&**vr, t_min, rec.t),
                    None => right.hit(&**vr, t_min, t_max),
                };
                match (hl, hr) {
                    (Some(rec), Some(rec_r)) => {
                        let res = if rec.t < rec_r.t {
                            Some(rec)
                        } else {
                            Some(rec_r)
                        };
                        proof {
                            assert(rec_r.t <= rec.t);
                            assert(in_window(rec_r.t, t_min, t_max));
                            let cw = choose|c: Seq<i64>| #[trigger]
                                rc.contains(c) && c.contains(rec_r.t);
                            vstd::seq_lib::lemma_seq_concat_contains_all_elements(lc, rc, cw);
                            assert(whole.contains(cw));
                            assert forall|c: Seq<i64>, u: i64|
                                #![trigger whole.contains(c), c.contains(u)]
                                whole.contains(c) && c.contains(u) && in_window(
                                    u,
                                    t_min,
                                    t_max,
                                ) implies rec_r.t <= u by {
                                vstd::seq_lib::lemma_seq_concat_contains_all_elements(lc, rc, c);
                                if lc.contains(c) {
                                    assert(rec.t <= u);
                                } else {
                                    if u <= rec.t {
                                        assert(in_window(u, t_min, rec.t));
                                    }
                                }
                            }
                            let i0 = choose|i: int|
                                0 <= i < right.leaves().len() && (#[trigger] right.leaves()[
                                i]).id == rec_r.id && vr.leaf_cands()[i].contains(rec_r.t);
                            assert(self.leaves()[lc.len() + i0] == right.leaves()[i0]);
                            assert(whole[lc.len() + i0] == rc[i0]);
                        }
                        res
                    },
                    (Some(rec), None) => {
                        proof {
                            let cw = choose|c: Seq<i64>| #[trigger]
                                lc.contains(c) && c.contains(rec.t);
                            vstd::seq_lib::lemma_seq_concat_contains_all_elements(lc, rc, cw);
                            assert(whole.contains(cw));
                            assert forall|c: Seq<i64>, u: i64|
                                #![trigger whole.contains(c), c.contains(u)]
                                whole.contains(c) && c.contains(u) && in_window(
                                    u,
                                    t_min,
                                    t_max,
                                ) implies rec.t <= u by {
                                vstd::seq_lib::lemma_seq_concat_contains_all_elements(lc, rc, c);
                                if rc.contains(c) {
                                    assert(!in_window(u, t_min, rec.t));
                                }
                            }
                            let i0 = choose|i: int|
                                0 <= i < left.leaves().len() && (#[trigger] left.leaves()[i]).id
                                    == rec.id && vl.leaf_cands()[i].contains(rec.t);
                            assert(self.leaves()[i0] == left.leaves()[i0]);
                            assert(whole[i0] == lc[i0]);
                        }
                        Some(rec)
                    },
                    (None, Some(rec_r)) => {
                        proof {
                            let cw = choose|c: Seq<i64>| #[trigger]
                                rc.contains(c) && c.contains(rec_r.t);
                            vstd::seq_lib::lemma_seq_concat_contains_all_elements(lc, rc, cw);
                            assert(whole.contains(cw));
                            assert forall|c: Seq<i64>, u: i64|
                                #![trigger whole.contains(c), c.contains(u)]
                                whole.contains(c) && c.contains(u) && in_window(
                                    u,
                                    t_min,
                                    t_max,
                                ) implies rec_r.t <= u by {
                                vstd::seq_lib::lemma_seq_concat_contains_all_elements(lc, rc, c);
                            }
                            let i0 = choose|i: int|
                                0 <= i < right.leaves().len() && (#[trigger] right.leaves()[
                                i]).id == rec_r.id && vr.leaf_cands()[i].contains(rec_r.t);
                            assert(self.leaves()[lc.len() + i0] == right.leaves()[i0]);
                            assert(whole[lc.len() + i0] == rc[i0]);
                        }
                        Some(rec_r)
                    },
                    (None, None) => {
                        proof {
                            assert forall|c: Seq<i64>, u: i64|
                                #![trigger whole.contains(c), c.contains(u)]
                                whole.contains(c) && c.contains(u) implies !in_window(
                                    u,
                                    t_min,
                                    t_max,
                                ) by {
                                vstd::seq_lib::lemma_seq_concat_contains_all_elements(lc, rc, c);
                            }
                        }
                        None
                    },
                }
            },
            _ => {
                proof {
                    assert(false);
                }
                None
            },
        }
    }
}

} // verus!
