use ray_core::aabb::{Aabb, AxisSlab, RaySlabs};
use ray_core::bvh_node::{BvhNode, RaySlabTree};
use ray_core::hittable::{HittableList, Primitive};
use ray_core::image_env_builder::ImageEnvBuilder;
use ray_core::path::{run_path, TraceEnd, TraceEvent};
use ray_core::vec3::Vec3;

/// Order-preserving embedding of an IEEE double into the library's ordinate
/// scale, and its inverse.
fn ord(x: f64) -> i64 {
    let b = x.to_bits() as i64;
    b ^ ((((b >> 63) as u64) >> 1) as i64)
}

fn unord(k: i64) -> f64 {
    f64::from_bits((k ^ ((((k >> 63) as u64) >> 1) as i64)) as u64)
}

#[derive(Clone, Copy)]
struct Sphere {
    center: [f64; 3],
    radius: f64,
}

const PAD: f64 = 0.005;

fn sphere_primitive(s: &Sphere, id: usize) -> Primitive {
    let bb = Aabb::new(
        Vec3::new(
            ord(s.center[0] - s.radius - PAD),
            ord(s.center[1] - s.radius - PAD),
            ord(s.center[2] - s.radius - PAD),
        ),
        Vec3::new(
            ord(s.center[0] + s.radius + PAD),
            ord(s.center[1] + s.radius + PAD),
            ord(s.center[2] + s.radius + PAD),
        ),
    );
    Primitive { bb, id }
}

fn dot(a: [f64; 3], b: [f64; 3]) -> f64 {
    a[0] * b[0] + a[1] * b[1] + a[2] * b[2]
}

/// Both quadratic roots of the sphere along the ray, ascending; empty when
/// the ray misses.
fn sphere_cands(s: &Sphere, origin: [f64; 3], dir: [f64; 3]) -> Vec<i64> {
    let oc = [
        origin[0] - s.center[0],
        origin[1] - s.center[1],
        origin[2] - s.center[2],
    ];
    let a = dot(dir, dir);
    let half_b = dot(oc, dir);
    let c = dot(oc, oc) - s.radius * s.radius;
    let disc = half_b * half_b - a * c;
    if disc < 0.0 {
        return Vec::new();
    }
    let sq = disc.sqrt();
    vec![ord((-half_b - sq) / a), ord((-half_b + sq) / a)]
}

fn axis_slab(min: i64, max: i64, origin: f64, dir: f64) -> AxisSlab {
    let inv = 1.0 / dir;
    AxisSlab {
        t0: ord((unord(min) - origin) * inv),
        t1: ord((unord(max) - origin) * inv),
        reversed: inv < 0.0,
    }
}

fn slabs_for(bb: &Aabb, origin: [f64; 3], dir: [f64; 3]) -> RaySlabs {
    RaySlabs {
        x: axis_slab(bb.min.x, bb.max.x, origin[0], dir[0]),
        y: axis_slab(bb.min.y, bb.max.y, origin[1], dir[1]),
        z: axis_slab(bb.min.z, bb.max.z, origin[2], dir[2]),
    }
}

fn build_view(node: &BvhNode, spheres: &[Sphere], origin: [f64; 3], dir: [f64; 3]) -> RaySlabTree {
    match node {
        BvhNode::Leaf(p) => RaySlabTree::Leaf {
            id: p.id,
            cands: sphere_cands(&spheres[p.id], origin, dir),
        },
        BvhNode::Branch { bb, left, right } => {
            let s = slabs_for(bb, origin, dir);
            RaySlabTree::Branch {
                low: s.low_bound(),
                high: s.high_bound(),
                left: Box::new(build_view(left, spheres, origin, dir)),
                right: Box::new(build_view(right, spheres, origin, dir)),
            }
        }
    }
}

fn assert_branch_boxes_contain_children(node: &BvhNode) {
    if let BvhNode::Branch { bb, left, right } = node {
        let lb = left.bounding_box();
        let rb = right.bounding_box();
        assert!(bb.contains_box(&lb));
        assert!(bb.contains_box(&rb));
        assert_branch_boxes_contain_children(left);
        assert_branch_boxes_contain_children(right);
    }
}

fn scene() -> Vec<Sphere> {
    vec![
        Sphere { center: [0.0, 0.0, 0.0], radius: 1.0 },
        Sphere { center: [3.0, 1.0, -2.0], radius: 1.5 },
        Sphere { center: [-2.0, -1.0, 1.0], radius: 0.8 },
        Sphere { center: [1.0, 4.0, 2.0], radius: 1.2 },
        Sphere { center: [-3.0, 3.0, -3.0], radius: 1.0 },
        Sphere { center: [4.0, -2.0, 3.0], radius: 0.6 },
    ]
}

#[test]
fn every_branch_box_contains_its_children() {
    let spheres = scene();
    let objects: Vec<Primitive> = spheres
        .iter()
        .enumerate()
        .map(|(i, s)| sphere_primitive(s, i))
        .collect();
    let tree = BvhNode::new(objects.clone());
    assert_branch_boxes_contain_children(&tree);
    let root = tree.bounding_box();
    for o in &objects {
        assert!(root.contains_box(&o.bb));
    }
}

fn collect_leaves(node: &BvhNode, out: &mut Vec<Primitive>) {
    match node {
        BvhNode::Leaf(p) => out.push(*p),
        BvhNode::Branch { left, right, .. } => {
            collect_leaves(left, out);
            collect_leaves(right, out);
        }
    }
}

#[test]
fn the_build_order_is_deterministic() {
    let spheres = scene();
    let objects: Vec<Primitive> = spheres
        .iter()
        .enumerate()
        .map(|(i, s)| sphere_primitive(s, i))
        .collect();
    let tree = BvhNode::new(objects.clone());
    let mut leaves = Vec::new();
    collect_leaves(&tree, &mut leaves);
    assert_eq!(leaves.len(), objects.len());
    // the leaves are the input primitives, ordered by the box-minimum key
    for w in leaves.windows(2) {
        let (a, b) = (w[0].bb.min, w[1].bb.min);
        assert!((a.x, a.y, a.z) <= (b.x, b.y, b.z));
    }
    let mut seen: Vec<usize> = leaves.iter().map(|p| p.id).collect();
    seen.sort_unstable();
    assert_eq!(seen, (0..objects.len()).collect::<Vec<_>>());
    // building again from the same list gives the same leaf order
    let tree2 = BvhNode::new(objects);
    let mut leaves2 = Vec::new();
    collect_leaves(&tree2, &mut leaves2);
    assert_eq!(leaves, leaves2);
}

#[test]
fn traversal_and_linear_scan_find_the_same_nearest_hit() {
    let spheres = scene();
    let objects: Vec<Primitive> = spheres
        .iter()
        .enumerate()
        .map(|(i, s)| sphere_primitive(s, i))
        .collect();
    let tree = BvhNode::new(objects.clone());
    let list = HittableList::new(objects);
    let rays: Vec<([f64; 3], [f64; 3])> = vec![
        ([0.1, 0.2, 8.0], [0.01, -0.03, -1.0]),
        ([-5.0, 1.0, 4.0], [0.8, -0.1, -0.7]),
        ([2.0, 2.0, 6.0], [0.1, -0.2, -1.0]),
        ([0.0, -6.0, 0.5], [0.05, 1.0, 0.02]),
        ([6.0, 0.0, 0.0], [-1.0, 0.15, 0.1]),
    ];
    let t_min = ord(0.001);
    let t_max = ord(1.0e30);
    let mut hits = 0;
    for (origin, dir) in rays {
        let view = build_view(&tree, &spheres, origin, dir);
        assert!(view.check_matches(&tree));
        assert!(view.check_consistent());
        let by_tree = tree.hit(&view, t_min, t_max);
        let cands: Vec<Vec<i64>> = spheres
            .iter()
            .map(|s| sphere_cands(s, origin, dir))
            .collect();
        let by_scan = list.hit(&cands, t_min, t_max);
        assert_eq!(by_tree.map(|h| h.t), by_scan.map(|h| h.t));
        assert_eq!(by_tree.map(|h| h.id), by_scan.map(|h| h.id));
        if by_tree.is_some() {
            hits += 1;
        }
    }
    assert!(hits >= 3);
}

#[test]
fn scene_build_rejects_nothing_valid_and_anything_invalid() {
    let mut b = ImageEnvBuilder::new();
    assert!(b.build().is_none());

    let mut b = ImageEnvBuilder::new();
    b.push(Primitive { bb: Aabb::new(Vec3::new(0, 0, 0), Vec3::new(1, 1, 1)), id: 0 });
    b.push(Primitive { bb: Aabb::new(Vec3::new(2, 0, 0), Vec3::new(3, 1, 1)), id: 1 });
    let tree = b.build().unwrap();
    assert_branch_boxes_contain_children(&tree);

    let mut b = ImageEnvBuilder::new();
    b.push(Primitive { bb: Aabb::new(Vec3::new(0, 0, 0), Vec3::new(1, 1, 1)), id: 0 });
    b.push(Primitive { bb: Aabb::new(Vec3::new(2, 5, 0), Vec3::new(3, 1, 1)), id: 1 });
    assert!(b.build().is_none());
}

#[test]
fn a_single_lambertian_sphere_scenario() {
    // One unit sphere at the origin; the probe ray starts at (0, 0, 3) and
    // aims straight down -z, so the near surface lies at t = 3 - 1.
    let sphere = Sphere { center: [0.0, 0.0, 0.0], radius: 1.0 };
    let mut b = ImageEnvBuilder::new();
    b.push(sphere_primitive(&sphere, 0));
    let tree = b.build().unwrap();

    let origin = [0.0, 0.0, 3.0];
    let dir = [0.0, 0.0, -1.0];
    let view = build_view(&tree, &[sphere], origin, dir);
    assert!(view.check_matches(&tree));
    assert!(view.check_consistent());
    let hit = tree.hit(&view, ord(0.001), ord(1.0e30)).unwrap();
    assert_eq!(hit.id, 0);
    assert_eq!(hit.t, ord(3.0 - 1.0));
    assert_eq!(unord(hit.t), 2.0);

    // The diffuse surface scatters once; the scattered ray leaves the scene
    // and the sample closes against the background.
    let events = vec![TraceEvent::Scatter, TraceEvent::Miss];
    assert_eq!(run_path(&events, 50), Some((TraceEnd::Escaped, 2)));
}
