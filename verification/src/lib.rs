//! Two-dimensional signed-distance fields with a small constructive-solid-geometry
//! algebra (union, intersection, inversion) over an exact integer dual-number
//! scalar, plus a rasterizer that classifies every pixel of an image as inside
//! or outside the composed shape.

pub mod dual;
pub mod field;
pub mod laws;
pub mod raster;

pub use dual::Dual;
pub use field::Point;
pub use field::Sdf;
pub use field::Shape;
