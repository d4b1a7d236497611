//! One decoder for each supported shape type.

pub mod point;
pub mod polygon;
pub mod polyline;
