use vstd::prelude::*;

verus! {

use crate::aabb::{max_i64, min_i64};
use crate::hittable::in_window;

/// The hit test of an axis-aligned rectangle, after the caller has solved the
/// single plane crossing: the crossing parameter `t` must lie in the window,
/// and the two in-plane ordinates `a` and `b` of the crossing point must fall
/// inside the rectangle's bounds `[a0, a1] x [b0, b1]`.
pub fn rect_hit(
    t: i64,
    t_min: i64,
    t_max: i64,
    a: i64,
    a0: i64,
    a1: i64,
    b: i64,
    b0: i64,
    b1: i64,
) -> (r: Option<i64>)
    ensures
        r == (if in_window(t, t_min, t_max) && a0 <= a <= a1 && b0 <= b <= b1 {
            Some(t)
        } else {
            None::<i64>
        }),
{
    if t <= t_min || t > t_max {
        return None;
    }
    if a < a0 || a > a1 || b < b0 || b > b1 {
        return None;
    }
    Some(t)
}

/// The window bookkeeping of a constant-density medium. The boundary shape
/// reported the ray entering it at `entry` and leaving it at `exit`; both are
/// clipped to the caller's window, an empty or inverted span rejects the ray,
/// and the span's start is then clamped up to `floor`, the parameter of the
/// ray's own origin. Whether a scattering event falls inside the span that
/// remains is decided by the caller's random free-path draw, not here.
pub fn clip_medium_span(entry: i64, exit: i64, t_min: i64, t_max: i64, floor: i64) -> (r: Option<
    (i64, i64),
>)
    ensures
        r is None <==> max_i64(entry, t_min) >= min_i64(exit, t_max),
        r matches Some(span) ==> span.0 == max_i64(floor, max_i64(entry, t_min)) && span.1
            == min_i64(exit, t_max),
{
    let mut start = entry;
    let mut end = exit;
    if start < t_min {
        start = t_min;
    }
    if end > t_max {
        end = t_max;
    }
    if start >= end {
        return None;
    }
    if start < floor {
        start = floor;
    }
    Some((start, end))
}

} // verus!
