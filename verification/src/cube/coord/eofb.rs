use vstd::prelude::*;
use crate::cube::coord::coord::Coord;
use crate::cube::corners::corners::{Corners, spec_ident as corners_ident};
use crate::cube::cube::Cube;
use crate::cube::edges::edges::Edges;
use crate::cube::edges::ops::{spec_index_eofb, spec_lane_set_eofb, spec_unindex_eofb_bit};
use crate::cube::sym::Sym;

verus! {

/// Coordinate based on EO of 11 edges [0..2^11).
pub struct CoordEOFB;

impl Coord for CoordEOFB {
    open spec fn spec_n_values() -> int {
        2048
    }

    open spec fn spec_index(edges: Seq<u8>, corners: Seq<u8>) -> int {
        spec_index_eofb(edges)
    }

    open spec fn spec_unindex(coord: int) -> (Seq<u8>, Seq<u8>) {
        (Seq::new(16, |i: int| spec_lane_set_eofb(i as u8, i, spec_unindex_eofb_bit(coord, i))), corners_ident())
    }

    open spec fn spec_name() -> Seq<char> {
        "CoordEO"@
    }

    open spec fn spec_syms() -> Seq<Sym> {
        seq![Sym::UF, Sym::UB, Sym::DF, Sym::DB, Sym::UFm, Sym::UBm, Sym::DFm, Sym::DBm]
    }

    fn name() -> (r: &'static str) {
        "CoordEO"
    }

    fn n_values() -> (r: usize) {
        2048
    }

    fn syms() -> (r: Vec<Sym>) {
        vec![Sym::UF, Sym::UB, Sym::DF, Sym::DB, Sym::UFm, Sym::UBm, Sym::DFm, Sym::DBm]
    }

    fn index(c: Cube) -> (r: usize) {
        c.edges.index_eofb()
    }

    fn unindex(coord: usize) -> (r: Cube) {
        let r = Cube { edges: Edges::unindex_eofb(coord), corners: Corners::new() };
        assert(r.edges.0@ =~= Seq::new(16, |i: int| spec_lane_set_eofb(i as u8, i, spec_unindex_eofb_bit(coord as int, i))));
        r
    }
}

} // verus!
