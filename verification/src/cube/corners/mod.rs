pub mod co;
pub mod corner;
pub mod corners;
pub mod ops;
pub mod refr;
pub mod htr;
