//! Exact computational-geometry kernel: a robust quadratic-root solver and a
//! plane-to-sphere tangent finder for spheres centered at the coordinate
//! origin. All arithmetic is exact integer arithmetic; roots and tangent
//! points that involve a square root are returned in exact symbolic form
//! (p + q*sqrt(d), over a common denominator).

pub mod vec3;
pub mod quadratic;
pub mod tangent;
pub mod plane;
pub mod laws;
