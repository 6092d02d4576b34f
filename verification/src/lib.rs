pub mod cube;
pub mod protocol;

pub use cube::alg::Alg;
pub use cube::axis::Axis;
pub use cube::centers::center::Center;
pub use cube::centers::centers::Centers;
pub use cube::coord::coord::{Coord, CoordSyms};
pub use cube::coord::coud::CoordCOUD;
pub use cube::coord::eofb::CoordEOFB;
pub use cube::corners::co::CO;
pub use cube::corners::corner::Corner;
pub use cube::corners::corners::Corners;
pub use cube::corners::refr::CornerRef;
pub use cube::cube::Cube;
pub use cube::direction::Direction;
pub use cube::edges::edge::Edge;
pub use cube::edges::edges::Edges;
pub use cube::edges::eo::EO;
pub use cube::face::Face;
pub use cube::set::{Set64, Set64Iter, SetElement};
pub use cube::slice::Slice;
pub use cube::solver::searcher::{IDASearcher, Searcher, SearcherMoves};
pub use cube::spy::{DrStatus, Spy, SpyReport};
pub use cube::sym::{Sym, SymTable};
pub use cube::tetrad::Tetrad;
pub use cube::transform::mov::Move;
pub use cube::transform::rotation::Rotation;
pub use cube::transform::slice_move::SliceMove;
pub use cube::transform::transform::Transform;
