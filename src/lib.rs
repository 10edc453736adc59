pub mod vertex;
pub mod geometry;
pub mod polygon;
pub mod mesh;
pub mod domain;
