use vstd::prelude::*;

verus! {

use crate::bvh_node::BvhNode;
use crate::hittable::{HittableList, Primitive};

/// Assembles the environment an image is rendered from: collects the
/// primitives a scene catalog constructed and builds the hierarchy over
/// them. Cameras, materials and textures live with the caller; what is
/// indexed here is each primitive's box and identity.
pub struct ImageEnvBuilder {
    pub objects: Vec<Primitive>,
}

impl ImageEnvBuilder {
    pub fn new() -> (b: ImageEnvBuilder)
        ensures
            b.objects@.len() == 0,
    {
        ImageEnvBuilder { objects: Vec::new() }
    }

    pub fn push(&mut self, p: Primitive)
        ensures
            final(self).objects@ == old(self).objects@.push(p),
    {
        self.objects.push(p);
    }

    /// The scene as a flat list, for the linear scan the hierarchy is held
    /// against.
    pub fn into_list(self) -> (l: HittableList)
        ensures
            l.objects@ == self.objects@,
    {
        HittableList { objects: self.objects }
    }

    /// Builds the hierarchy over everything pushed so far. An empty scene
    /// has no tree, and a primitive whose box is invalid cannot be spatially
    /// indexed: both report `None`. The second is the one unrecoverable
    /// failure a build can meet; there is no meaningful partial tree.
    pub fn build(self) -> (r: Option<BvhNode>)
        ensures
            r is None <==> (self.objects@.len() == 0 || exists|i: int|
                0 <= i < self.objects@.len() && !(#[trigger] self.objects@[i]).bb.is_valid()),
            r matches Some(t) ==> t.wf() && t.leaves().to_multiset()
                == self.objects@.to_multiset() && crate::bvh_node::sorted_by_box(t.leaves()),
    {
        if self.objects.len() == 0 {
            return None;
        }
        let mut i: usize = 0;
        while i < self.objects.len()
            invariant
                i <= self.objects@.len(),
                forall|j: int| 0 <= j < i ==> (#[trigger] self.objects@[j]).bb.is_valid(),
            decreases self.objects@.len() - i,
        {
            if !self.objects[i].bb.valid() {
                return None;
            }
            i += 1;
        }
        Some(BvhNode::new(self.objects))
    }
}

} // verus!
