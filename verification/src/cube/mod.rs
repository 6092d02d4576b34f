pub mod axis;
pub mod centers;
pub mod corners;
pub mod direction;
pub mod edges;
pub mod face;
pub mod slice;
pub mod tetrad;
pub mod transform;
pub mod alg;
pub mod cube;
pub mod sym;
pub mod set;
pub mod spy;
pub mod solver;
pub mod coord;
pub mod text;
