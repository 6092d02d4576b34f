pub mod edge;
pub mod eo;
pub mod ops;
pub mod edges;
