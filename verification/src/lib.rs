//! Core of a Monte Carlo ray tracer: axis-aligned bounding boxes, the
//! bounding-volume hierarchy built over them, the hit-window selection rules
//! shared by the primitive shapes, and the control loop of the path-tracing
//! integrator.
//!
//! The geometry here is exact. Coordinates and ray parameters are signed
//! 64-bit ordinates on a totally ordered scale; a caller embeds its own scalar
//! type into that scale with any order-preserving map (IEEE doubles fit under
//! the usual sign-folded bit mapping). Everything the core decides — box
//! unions, slab tests, nearest-hit selection, traversal pruning — uses only
//! comparisons, minima and maxima, so the decisions proved here are exactly
//! the decisions the embedded scalars would give. What needs real arithmetic
//! (ray evaluation, quadratic roots, shading) stays with the caller, which
//! hands the results in as ordinates.

pub mod aabb;
pub mod bvh_node;
pub mod hittable;
pub mod image_env_builder;
pub mod material;
pub mod objects;
pub mod path;
pub mod vec3;
