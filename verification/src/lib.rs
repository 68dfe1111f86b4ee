pub mod convex_hull;
pub mod edge;
pub mod functions;
pub mod plane;
pub mod point;
pub mod records;
pub mod vec3;
