use ray_core::aabb::{Aabb, AxisSlab, RaySlabs};
use ray_core::hittable::{first_in_window, HitRecord, HittableList, Primitive};
use ray_core::objects::{clip_medium_span, rect_hit};
use ray_core::vec3::Vec3;

/// Order-preserving embedding of an IEEE double into the library's ordinate
/// scale (the usual sign-folded bit mapping).
fn ord(x: f64) -> i64 {
    let b = x.to_bits() as i64;
    b ^ ((((b >> 63) as u64) >> 1) as i64)
}

fn vec_of(x: f64, y: f64, z: f64) -> Vec3 {
    Vec3::new(ord(x), ord(y), ord(z))
}

fn axis_slab(min: i64, max: i64, origin: f64, dir: f64) -> AxisSlab {
    let inv = 1.0 / dir;
    let lo = f64::from_bits((min ^ ((((min >> 63) as u64) >> 1) as i64)) as u64);
    let hi = f64::from_bits((max ^ ((((max >> 63) as u64) >> 1) as i64)) as u64);
    AxisSlab { t0: ord((lo - origin) * inv), t1: ord((hi - origin) * inv), reversed: inv < 0.0 }
}

fn slabs_for(bb: &Aabb, origin: [f64; 3], dir: [f64; 3]) -> RaySlabs {
    RaySlabs {
        x: axis_slab(bb.min.x, bb.max.x, origin[0], dir[0]),
        y: axis_slab(bb.min.y, bb.max.y, origin[1], dir[1]),
        z: axis_slab(bb.min.z, bb.max.z, origin[2], dir[2]),
    }
}

#[test]
fn surrounding_box_contains_both_and_is_minimal() {
    let a = Aabb::new(Vec3::new(0, 0, 0), Vec3::new(2, 2, 2));
    let b = Aabb::new(Vec3::new(-1, 1, 0), Vec3::new(1, 3, 1));
    let u = Aabb::surrounding_box(a, b);
    assert_eq!((u.min.x, u.min.y, u.min.z), (-1, 0, 0));
    assert_eq!((u.max.x, u.max.y, u.max.z), (2, 3, 2));
    assert!(u.contains_box(&a));
    assert!(u.contains_box(&b));
    let roomy = Aabb::new(Vec3::new(-5, -5, -5), Vec3::new(5, 5, 5));
    assert!(roomy.contains_box(&a) && roomy.contains_box(&b) && roomy.contains_box(&u));
    let snug = Aabb::new(Vec3::new(-1, 0, 0), Vec3::new(2, 3, 2));
    assert!(snug.contains_box(&a) && snug.contains_box(&b) && snug.contains_box(&u));
}

#[test]
fn surrounding_box_agrees_with_float_union() {
    let a = Aabb::new(vec_of(-0.5, 2.25, -3.0), vec_of(1.5, 4.0, -1.0));
    let b = Aabb::new(vec_of(0.75, -1.0, -2.5), vec_of(0.875, 3.5, 6.0));
    let u = Aabb::surrounding_box(a, b);
    assert_eq!(u.min.x, ord((-0.5f64).min(0.75)));
    assert_eq!(u.min.y, ord(2.25f64.min(-1.0)));
    assert_eq!(u.min.z, ord((-3.0f64).min(-2.5)));
    assert_eq!(u.max.x, ord(1.5f64.max(0.875)));
    assert_eq!(u.max.y, ord(4.0f64.max(3.5)));
    assert_eq!(u.max.z, ord((-1.0f64).max(6.0)));
}

#[test]
fn slab_test_accepts_a_frontal_ray() {
    let bb = Aabb::new(vec_of(-1.0, -1.0, -1.0), vec_of(1.0, 1.0, 1.0));
    let s = slabs_for(&bb, [0.25, -0.25, 3.0], [0.0, 0.0, -1.0]);
    assert!(s.hit(ord(0.001), ord(1.0e30)));
    assert_eq!(s.low_bound(), ord(2.0));
    assert_eq!(s.high_bound(), ord(4.0));
}

#[test]
fn slab_test_rejects_a_ray_beside_the_box() {
    let bb = Aabb::new(vec_of(-1.0, -1.0, -1.0), vec_of(1.0, 1.0, 1.0));
    let s = slabs_for(&bb, [5.0, 0.0, 3.0], [0.0, 0.0, -1.0]);
    assert!(!s.hit(ord(0.001), ord(1.0e30)));
}

#[test]
fn slab_test_rejects_when_the_window_ends_first() {
    let bb = Aabb::new(vec_of(-1.0, -1.0, -1.0), vec_of(1.0, 1.0, 1.0));
    let s = slabs_for(&bb, [0.0, 0.0, 3.0], [0.1, 0.1, -1.0]);
    assert!(s.hit(ord(0.001), ord(1.0e30)));
    assert!(!s.hit(ord(0.001), ord(1.5)));
}

#[test]
fn nearer_sphere_root_wins_while_the_window_admits_it() {
    // Unit sphere at the origin, ray from (0, 0, 3) toward -z: the quadratic
    // roots are t = 2 (near side, distance minus radius) and t = 4.
    let cands = vec![ord(2.0), ord(4.0)];
    assert_eq!(first_in_window(&cands, ord(0.001), ord(1.0e30)), Some(ord(3.0 - 1.0)));
    assert_eq!(first_in_window(&cands, ord(2.5), ord(1.0e30)), Some(ord(4.0)));
    assert_eq!(first_in_window(&cands, ord(4.0), ord(1.0e30)), None);
    assert_eq!(first_in_window(&cands, ord(0.001), ord(1.5)), None);
}

#[test]
fn rect_hit_checks_window_and_bounds() {
    assert_eq!(rect_hit(3, 0, 10, 5, 0, 10, 5, 0, 10), Some(3));
    // the window is half-open: entry at its low end is rejected, at its high
    // end accepted
    assert_eq!(rect_hit(0, 0, 10, 5, 0, 10, 5, 0, 10), None);
    assert_eq!(rect_hit(10, 0, 10, 5, 0, 10, 5, 0, 10), Some(10));
    // rectangle bounds are inclusive on both edges
    assert_eq!(rect_hit(3, 0, 10, 0, 0, 10, 10, 0, 10), Some(3));
    assert_eq!(rect_hit(3, 0, 10, -1, 0, 10, 5, 0, 10), None);
    assert_eq!(rect_hit(3, 0, 10, 5, 0, 10, 11, 0, 10), None);
}

#[test]
fn medium_span_is_clipped_and_clamped() {
    assert_eq!(clip_medium_span(1, 5, 2, 4, 0), Some((2, 4)));
    assert_eq!(clip_medium_span(-3, 5, -10, 10, 0), Some((0, 5)));
    assert_eq!(clip_medium_span(5, 1, 0, 10, 0), None);
    assert_eq!(clip_medium_span(1, 5, 6, 10, 0), None);
    assert_eq!(clip_medium_span(1, 5, 0, 10, 0), Some((1, 5)));
}

#[test]
fn list_bounding_box_folds_every_object() {
    let empty = HittableList::new(Vec::new());
    assert!(empty.bounding_box().is_none());
    let objects = vec![
        Primitive { bb: Aabb::new(Vec3::new(0, 0, 0), Vec3::new(1, 1, 1)), id: 0 },
        Primitive { bb: Aabb::new(Vec3::new(-4, 2, 0), Vec3::new(-2, 5, 3)), id: 1 },
        Primitive { bb: Aabb::new(Vec3::new(1, -1, -1), Vec3::new(2, 0, 0)), id: 2 },
    ];
    let list = HittableList::new(objects.clone());
    let b = list.bounding_box().unwrap();
    for o in &objects {
        assert!(b.contains_box(&o.bb));
    }
    assert_eq!((b.min.x, b.min.y, b.min.z), (-4, -1, -1));
    assert_eq!((b.max.x, b.max.y, b.max.z), (2, 5, 3));
}

#[test]
fn linear_scan_returns_the_nearest_hit() {
    let objects = vec![
        Primitive { bb: Aabb::new(Vec3::new(0, 0, 0), Vec3::new(1, 1, 1)), id: 0 },
        Primitive { bb: Aabb::new(Vec3::new(0, 0, 0), Vec3::new(1, 1, 1)), id: 1 },
        Primitive { bb: Aabb::new(Vec3::new(0, 0, 0), Vec3::new(1, 1, 1)), id: 2 },
    ];
    let list = HittableList::new(objects);
    let cands = vec![vec![7, 9], vec![3, 12], vec![5]];
    assert_eq!(list.hit(&cands, 0, 100), Some(HitRecord { t: 3, id: 1 }));
    // shrink the window: the nearest surviving candidate wins
    assert_eq!(list.hit(&cands, 4, 100), Some(HitRecord { t: 5, id: 2 }));
    assert_eq!(list.hit(&cands, 12, 100), None);
}
