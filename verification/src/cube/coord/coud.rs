use vstd::prelude::*;
use crate::cube::coord::coord::Coord;
use crate::cube::corners::corners::Corners;
use crate::cube::corners::ops::{spec_index_coud, spec_lane_coud, spec_unindex_coud_lane};
use crate::cube::cube::Cube;
use crate::cube::edges::edges::Edges;
use crate::cube::edges::ops::spec_ident as edges_ident;
use crate::cube::sym::Sym;

verus! {

/// Coordinate based on CO of 7 corners [0..3^7).
pub struct CoordCOUD;

/// The twists of the first seven corners read in base 3.
pub open spec fn spec_coud_index(a: Seq<u8>) -> int {
    spec_lane_coud(a[0]) + 3 * spec_lane_coud(a[1]) + 9 * spec_lane_coud(a[2])
        + 27 * spec_lane_coud(a[3]) + 81 * spec_lane_coud(a[4]) + 243 * spec_lane_coud(a[5])
        + 729 * spec_lane_coud(a[6])
}

impl Coord for CoordCOUD {
    open spec fn spec_n_values() -> int {
        2187
    }

    open spec fn spec_index(edges: Seq<u8>, corners: Seq<u8>) -> int {
        spec_coud_index(corners)
    }

    open spec fn spec_unindex(coord: int) -> (Seq<u8>, Seq<u8>) {
        (edges_ident(), Seq::new(8, |i: int| (8 * spec_unindex_coud_lane(coord, i) + i) as u8))
    }

    open spec fn spec_name() -> Seq<char> {
        "CoordCO"@
    }

    open spec fn spec_syms() -> Seq<Sym> {
        seq![
            Sym::UF, Sym::UR, Sym::UL, Sym::UB, Sym::DF, Sym::DR, Sym::DL, Sym::DB,
            Sym::UFm, Sym::URm, Sym::ULm, Sym::UBm, Sym::DFm, Sym::DRm, Sym::DLm, Sym::DBm,
        ]
    }

    fn name() -> (r: &'static str) {
        "CoordCO"
    }

    fn n_values() -> (r: usize) {
        2187
    }

    fn syms() -> (r: Vec<Sym>) {
        vec![
            Sym::UF, Sym::UR, Sym::UL, Sym::UB, Sym::DF, Sym::DR, Sym::DL, Sym::DB,
            Sym::UFm, Sym::URm, Sym::ULm, Sym::UBm, Sym::DFm, Sym::DRm, Sym::DLm, Sym::DBm,
        ]
    }

    fn index(c: Cube) -> (r: usize) {
        let r = c.corners.index_coud();
        assert(spec_index_coud(c.corners.0) == spec_coud_index(c.corners.0@));
        r
    }

    fn unindex(coord: usize) -> (r: Cube) {
        let corners = Corners::unindex_coud(coord);
        let r = Cube { edges: Edges::new(), corners };
        assert(r.corners.0@ =~= Seq::new(8, |i: int| (8 * spec_unindex_coud_lane(coord as int, i) + i) as u8));
        assert(spec_index_coud(r.corners.0) == spec_coud_index(r.corners.0@));
        r
    }
}

} // verus!
