use vstd::prelude::*;
use crate::cube::alg::Alg;
use crate::cube::corners::corners::{self as corners_model, Corners};
use crate::cube::edges::edges::{self as edges_model, Edges};
use crate::cube::corners::ops as corner_ops;
use crate::cube::edges::ops as edge_ops;
use crate::cube::sym::{Sym, spec_sym_cube, spec_sym_inverse};
use crate::cube::transform::mov::Move;

verus! {

/// A cube: the positions and orientations of its edges and corners.
#[derive(Clone, Copy, PartialEq, Eq, Debug, Hash)]
pub struct Cube {
    pub edges: Edges,
    pub corners: Corners,
}

/// The edges of the solved cube.
pub open spec fn spec_edges_ident() -> Seq<u8> {
    edge_ops::spec_ident()
}

/// The corners of the solved cube.
pub open spec fn spec_corners_ident() -> Seq<u8> {
    corners_model::spec_ident()
}

/// A valid cube: valid edges and valid corners.
pub open spec fn cube_wf(c: Cube) -> bool {
    edge_ops::wf(c.edges.0@) && corners_model::wf(c.corners.0@)
}

/// The solved cube.
pub open spec fn is_ident(c: Cube) -> bool {
    c.edges.0@ == spec_edges_ident() && c.corners.0@ == spec_corners_ident()
}

/// The edges of `a` followed by `b`.
pub open spec fn spec_compose_edges(a: Cube, b: Cube) -> Seq<u8> {
    edge_ops::spec_compose(a.edges.0@, b.edges.0@)
}

/// The corners of `a` followed by `b`.
pub open spec fn spec_compose_corners(a: Cube, b: Cube) -> Seq<u8> {
    corners_model::spec_compose(a.corners.0@, b.corners.0@)
}

/// The lanes of a cube conjugated by symmetry `s`: the symmetry, then the cube, then the
/// inverse symmetry; a mirror symmetry also turns each corner twist the other way.
pub open spec fn spec_conjugate_lanes(edges: Seq<u8>, corners: Seq<u8>, s: Sym) -> (Seq<u8>, Seq<u8>) {
    (edge_ops::spec_compose(edge_ops::spec_compose(spec_sym_cube(s).0, edges), spec_sym_cube(spec_sym_inverse(s)).0),
    corners_model::spec_conjugate(corners, s))
}

/// The moves `a` followed by the moves `b` act on edges as `a`, then `b`.
pub proof fn lemma_edges_apply_moves_append(e: Seq<u8>, a: Seq<Move>, b: Seq<Move>)
    ensures
        edges_model::spec_apply_moves(e, a + b)
            == edges_model::spec_apply_moves(edges_model::spec_apply_moves(e, a), b),
    decreases b.len(),
{
    if b.len() > 0 {
        assert((a + b).drop_last() =~= a + b.drop_last());
        assert((a + b).last() == b.last());
        lemma_edges_apply_moves_append(e, a, b.drop_last());
    } else {
        assert(a + b =~= a);
    }
}

/// The moves `a` followed by the moves `b` act on corners as `a`, then `b`.
pub proof fn lemma_corners_apply_moves_append(c: Seq<u8>, a: Seq<Move>, b: Seq<Move>)
    ensures
        corners_model::spec_apply_moves(c, a + b)
            == corners_model::spec_apply_moves(corners_model::spec_apply_moves(c, a), b),
    decreases b.len(),
{
    if b.len() > 0 {
        assert((a + b).drop_last() =~= a + b.drop_last());
        assert((a + b).last() == b.last());
        lemma_corners_apply_moves_append(c, a, b.drop_last());
    } else {
        assert(a + b =~= a);
    }
}

/// Composition of cubes is associative (for corners, on valid ones).
pub proof fn lemma_cube_compose_assoc(a: Cube, b: Cube, c: Cube)
    requires
        corners_model::wf(a.corners.0@),
        corners_model::wf(b.corners.0@),
        corners_model::wf(c.corners.0@),
        a.edges.0@.len() == 16,
        b.edges.0@.len() == 16,
        c.edges.0@.len() == 16,
    ensures
        edge_ops::spec_compose(spec_compose_edges(a, b), c.edges.0@)
            == edge_ops::spec_compose(a.edges.0@, spec_compose_edges(b, c)),
        corners_model::spec_compose(spec_compose_corners(a, b), c.corners.0@)
            == corners_model::spec_compose(a.corners.0@, spec_compose_corners(b, c)),
{
    edges_model::lemma_compose_assoc(a.edges.0@, b.edges.0@, c.edges.0@);
    corners_model::lemma_compose_assoc(a.corners.0@, b.corners.0@, c.corners.0@);
}

/// The solved cube is an identity for composition of valid cubes.
pub proof fn lemma_cube_compose_ident(a: Cube)
    requires
        cube_wf(a),
    ensures
        edge_ops::spec_compose(spec_edges_ident(), a.edges.0@) == a.edges.0@,
        edge_ops::spec_compose(a.edges.0@, spec_edges_ident()) == a.edges.0@,
        corners_model::spec_compose(spec_corners_ident(), a.corners.0@) == a.corners.0@,
        corners_model::spec_compose(a.corners.0@, spec_corners_ident()) == a.corners.0@,
{
    edges_model::lemma_compose_ident(a.edges.0@);
    corners_model::lemma_compose_ident(a.corners.0@);
}

impl Cube {
    /// The solved cube.
    pub fn new() -> (r: Cube)
        ensures
            is_ident(r),
    {
        Cube { edges: Edges::new(), corners: Corners::new() }
    }

    /// The solved cube after move `m`.
    pub fn from_move(m: Move) -> (r: Cube)
        ensures
            r.edges.0@ == edge_ops::spec_compose(spec_edges_ident(), edges_model::spec_move(m)),
            r.corners.0@ == corners_model::spec_compose(spec_corners_ident(), corners_model::spec_move(m)),
    {
        Self::new().apply_move(m)
    }

    /// The solved cube after the moves of `a`.
    pub fn from_alg(a: Alg) -> (r: Cube)
        ensures
            r.edges.0@ == edges_model::spec_apply_moves(spec_edges_ident(), a.0@),
            r.corners.0@ == corners_model::spec_apply_moves(spec_corners_ident(), a.0@),
    {
        Self::new().apply_alg(a)
    }

    /// The cube after move `m`.
    pub fn apply_move(self, m: Move) -> (r: Cube)
        ensures
            r.edges.0@ == edge_ops::spec_compose(self.edges.0@, edges_model::spec_move(m)),
            r.corners.0@ == corners_model::spec_compose(self.corners.0@, corners_model::spec_move(m)),
    {
        Cube { edges: self.edges.apply_move(m), corners: self.corners.apply_move(m) }
    }

    /// The cube after the moves of `a`, in order.
    pub fn apply_alg(self, a: Alg) -> (r: Cube)
        ensures
            r.edges.0@ == edges_model::spec_apply_moves(self.edges.0@, a.0@),
            r.corners.0@ == corners_model::spec_apply_moves(self.corners.0@, a.0@),
    {
        Cube { edges: self.edges.apply_alg(&a), corners: self.corners.apply_alg(&a) }
    }

    /// The cube followed by symmetry `s`.
    pub fn apply_sym(self, s: Sym) -> (r: Cube)
        ensures
            r.edges.0@ == edge_ops::spec_compose(self.edges.0@, spec_sym_cube(s).0),
            r.corners.0@ == corners_model::spec_compose(self.corners.0@, spec_sym_cube(s).1),
    {
        Cube { edges: self.edges.apply_sym(s), corners: self.corners.apply_sym(s) }
    }

    /// The cube conjugated by symmetry `s`: the symmetry, then this cube, then the inverse
    /// symmetry; a mirror symmetry also turns each corner twist the other way.
    pub fn conjugate_sym(self, s: Sym) -> (r: Cube)
        ensures
            r.edges.0@ == edge_ops::spec_compose(edge_ops::spec_compose(spec_sym_cube(s).0, self.edges.0@),
                spec_sym_cube(spec_sym_inverse(s)).0),
            r.corners.0@ == corners_model::spec_conjugate(self.corners.0@, s),
            (r.edges.0@, r.corners.0@) == spec_conjugate_lanes(self.edges.0@, self.corners.0@, s),
    {
        Cube { edges: self.edges.conjugate_sym(s), corners: self.corners.conjugate_sym(s) }
    }

    /// Compose: the cube `self` followed by `c`.
    pub fn compose(self, c: Cube) -> (r: Cube)
        ensures
            r.edges.0@ == spec_compose_edges(self, c),
            r.corners.0@ == spec_compose_corners(self, c),
    {
        Cube { edges: self.edges.compose(c.edges), corners: self.corners.compose(c.corners) }
    }

    /// Whether the cube is solved.
    pub fn is_solved(self) -> (r: bool)
        ensures
            r == is_ident(self),
    {
        self.edges.is_solved() && self.corners.is_solved()
    }

    /// Whether every piece is oriented relative to the UD axis.
    pub fn is_drud(self) -> (r: bool)
        ensures
            r == ((forall|i: int| 0 <= i < 8 ==> #[trigger] corner_ops::spec_lane_coud(self.corners.0[i]) == 0)
                && (forall|i: int| 0 <= i < 16 ==> #[trigger] edge_ops::spec_lane_eofb(self.edges.0[i]) == 0)
                && (forall|i: int| 0 <= i < 16 ==> #[trigger] edge_ops::spec_lane_eolr(self.edges.0[i]) == 0)),
    {
        self.corners.is_drud() && self.edges.is_drud()
    }

    /// Whether every edge is oriented relative to the FB axis.
    pub fn is_eofb(self) -> (r: bool)
        ensures
            r == forall|i: int| 0 <= i < 16 ==> #[trigger] edge_ops::spec_lane_eofb(self.edges.0[i]) == 0,
    {
        self.edges.is_eofb()
    }

    /// Whether every edge is oriented relative to the LR axis.
    pub fn is_eolr(self) -> (r: bool)
        ensures
            r == forall|i: int| 0 <= i < 16 ==> #[trigger] edge_ops::spec_lane_eolr(self.edges.0[i]) == 0,
    {
        self.edges.is_eolr()
    }

    /// Whether every edge is oriented relative to the UD axis.
    pub fn is_eoud(self) -> (r: bool)
        ensures
            r == forall|i: int| 0 <= i < 16 ==> #[trigger] edge_ops::spec_lane_eoud(self.edges.0[i]) == 0,
    {
        self.edges.is_eoud()
    }

    /// The inverse of a valid cube: composing with it, in either order, solves the cube.
    /// For a cube that is not valid, the result has no meaning.
    pub fn inverse(self) -> (r: Cube)
        ensures
            cube_wf(self) ==> cube_wf(r),
            cube_wf(self) ==> spec_compose_edges(self, r) == spec_edges_ident()
                && spec_compose_corners(self, r) == spec_corners_ident(),
            cube_wf(self) ==> spec_compose_edges(r, self) == spec_edges_ident()
                && spec_compose_corners(r, self) == spec_corners_ident(),
    {
        Cube { edges: self.edges.inverse(), corners: self.corners.inverse() }
    }
}

impl Default for Cube {
    fn default() -> (r: Cube)
        ensures
            is_ident(r),
    {
        Cube::new()
    }
}

impl core::ops::Add<Cube> for Cube {
    type Output = Cube;

    fn add(self, rhs: Cube) -> (r: Cube)
        ensures
            r.edges.0@ == spec_compose_edges(self, rhs),
            r.corners.0@ == spec_compose_corners(self, rhs),
    {
        self.compose(rhs)
    }
}

impl vstd::std_specs::ops::AddSpecImpl<Cube> for Cube {
    open spec fn obeys_add_spec() -> bool {
        false
    }

    open spec fn add_req(self, rhs: Cube) -> bool {
        true
    }

    open spec fn add_spec(self, rhs: Cube) -> Cube {
        arbitrary()
    }
}

impl core::convert::From<Alg> for Cube {
    fn from(alg: Alg) -> (r: Cube)
        ensures
            r.edges.0@ == edges_model::spec_apply_moves(spec_edges_ident(), alg.0@),
            r.corners.0@ == corners_model::spec_apply_moves(spec_corners_ident(), alg.0@),
    {
        Cube::new().apply_alg(alg)
    }
}

impl vstd::std_specs::convert::FromSpecImpl<Alg> for Cube {
    open spec fn obeys_from_spec() -> bool {
        false
    }

    open spec fn from_spec(alg: Alg) -> Cube {
        arbitrary()
    }
}

impl core::convert::From<Edges> for Cube {
    fn from(edges: Edges) -> (r: Cube)
        ensures
            r.edges == edges,
            r.corners.0@ == spec_corners_ident(),
    {
        Cube { edges, corners: Corners::new() }
    }
}

impl vstd::std_specs::convert::FromSpecImpl<Edges> for Cube {
    open spec fn obeys_from_spec() -> bool {
        false
    }

    open spec fn from_spec(edges: Edges) -> Cube {
        arbitrary()
    }
}

impl core::convert::From<Corners> for Cube {
    fn from(corners: Corners) -> (r: Cube)
        ensures
            r.corners == corners,
            r.edges.0@ == spec_edges_ident(),
    {
        Cube { corners, edges: Edges::new() }
    }
}

impl vstd::std_specs::convert::FromSpecImpl<Corners> for Cube {
    open spec fn obeys_from_spec() -> bool {
        false
    }

    open spec fn from_spec(corners: Corners) -> Cube {
        arbitrary()
    }
}

} // verus!
