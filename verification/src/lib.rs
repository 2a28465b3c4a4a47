//! Exact geometry for visibility culling.
//!
//! A convex region (typically a camera frustum) is described by a set of
//! half-space planes; bounding volumes (axis-aligned boxes, spheres, points)
//! are tested against it for containment and intersection.  All coordinates
//! are fixed-point `i64` scalars and every operation is carried out exactly,
//! so each query result is proved to match its mathematical definition.

pub mod aabb;
pub mod hull;
pub mod mat4;
pub mod plane;
pub mod vec3;

pub use aabb::AABB;
pub use hull::ConvexHull;
pub use hull::IntersectionState;
pub use hull::TransformError;
pub use mat4::Mat4;
pub use plane::Plane;
pub use vec3::Vec3;
