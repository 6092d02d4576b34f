pub mod center;
pub mod ops;
pub mod centers;
