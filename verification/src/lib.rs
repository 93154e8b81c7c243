//! Axis-aligned bounding boxes and rays over exact integer coordinates,
//! with verified intersection tests: box-vs-box overlap by the
//! separating-axis criterion, and ray-vs-box by the slab method carried
//! out in exact rational arithmetic.

pub mod aabb;
pub mod frac;
pub mod point;
pub mod ray;

pub use aabb::AABB;
pub use point::Point3;
pub use point::Vector3;
pub use ray::Ray;
