use vstd::prelude::*;
use crate::cube::alg::{Alg, spec_canonicalize};
use crate::cube::corners::corners as corners_model;
use crate::cube::corners::ops::{lane_cofb, lane_colr, lane_coud, spec_lane_cofb, spec_lane_colr, spec_lane_coud};
use crate::cube::cube::Cube;
use crate::cube::edges::edges as edges_model;
use crate::cube::edges::ops::{self as edge_ops, lane_eofb, lane_eolr, lane_eoud, spec_lane_eofb, spec_lane_eolr, spec_lane_eoud};
use crate::cube::transform::mov::Move;

verus! {

/// Follows a cube as it is turned: the cube, and the turns so far in canonical order.
pub struct Spy {
    pub cube: Cube,
    pub stack: Alg,
}

/// How far the cube is from domino reduction on one axis.
#[derive(Clone, Copy, Debug, PartialEq, Eq, Structural)]
pub enum DrStatus {
    /// Edges are misoriented relative to both other axes.
    Unoriented,
    /// Twisted corners, and the edges misoriented relative to the one other axis.
    CornersEdges { corners: usize, edges: usize },
    /// Edges are oriented; twisted corners remain.
    Corners { corners: usize },
    /// Domino reduction is reached.
    Done,
}

/// What the spy reports after a turn: misoriented edges relative to each axis, and the
/// distance to domino reduction on each axis.
#[derive(Clone, Copy, Debug, PartialEq, Eq)]
pub struct SpyReport {
    pub eofb: usize,
    pub eolr: usize,
    pub eoud: usize,
    pub drud: DrStatus,
    pub drlr: DrStatus,
    pub drfb: DrStatus,
}

/// How many of the indices below `n` satisfy `p`.
pub open spec fn spec_count(n: int, p: spec_fn(int) -> bool) -> int
    decreases n,
{
    if n <= 0 { 0 } else { spec_count(n - 1, p) + if p(n - 1) { 1int } else { 0 } }
}

/// The number of edges misoriented relative to FB.
pub open spec fn spec_eofb_count(c: Cube) -> int {
    spec_count(12, |i: int| spec_lane_eofb(c.edges.0[i]) != 0)
}

/// The number of edges misoriented relative to LR.
pub open spec fn spec_eolr_count(c: Cube) -> int {
    spec_count(12, |i: int| spec_lane_eolr(c.edges.0[i]) != 0)
}

/// The number of edges misoriented relative to UD.
pub open spec fn spec_eoud_count(c: Cube) -> int {
    spec_count(12, |i: int| spec_lane_eoud(c.edges.0[i]) != 0)
}

/// The number of corners twisted relative to UD.
pub open spec fn spec_coud_count(c: Cube) -> int {
    spec_count(8, |i: int| spec_lane_coud(c.corners.0[i]) != 0)
}

/// The number of corners twisted relative to LR.
pub open spec fn spec_colr_count(c: Cube) -> int {
    spec_count(8, |i: int| spec_lane_colr(c.corners.0[i], i) != 0)
}

/// The number of corners twisted relative to FB.
pub open spec fn spec_cofb_count(c: Cube) -> int {
    spec_count(8, |i: int| spec_lane_cofb(c.corners.0[i], i) != 0)
}

/// The distance to domino reduction on an axis, from the misoriented edges relative to the
/// two other axes and the twisted corners relative to this one.
pub open spec fn spec_dr_status(e1: int, e2: int, c: int) -> DrStatus {
    if e1 != 0 && e2 != 0 {
        DrStatus::Unoriented
    } else if e1 != 0 {
        DrStatus::CornersEdges { corners: c as usize, edges: e1 as usize }
    } else if e2 != 0 {
        DrStatus::CornersEdges { corners: c as usize, edges: e2 as usize }
    } else if c == 0 {
        DrStatus::Done
    } else {
        DrStatus::Corners { corners: c as usize }
    }
}

/// The report on a cube.
pub open spec fn spec_report(c: Cube) -> SpyReport {
    SpyReport {
        eofb: spec_eofb_count(c) as usize,
        eolr: spec_eolr_count(c) as usize,
        eoud: spec_eoud_count(c) as usize,
        drud: spec_dr_status(spec_eofb_count(c), spec_eolr_count(c), spec_coud_count(c)),
        drlr: spec_dr_status(spec_eofb_count(c), spec_eoud_count(c), spec_colr_count(c)),
        drfb: spec_dr_status(spec_eolr_count(c), spec_eoud_count(c), spec_cofb_count(c)),
    }
}

/// A count over `n` indices lies between 0 and `n`.
proof fn lemma_count_bounds(n: int, p: spec_fn(int) -> bool)
    requires
        n >= 0,
    ensures
        0 <= spec_count(n, p) <= n,
    decreases n,
{
    if n > 0 {
        lemma_count_bounds(n - 1, p);
    }
}

/// The distance to domino reduction on an axis, from the edges misoriented relative to the
/// two other axes (`e1`, `e2`) and the corners twisted relative to this one (`c`): the
/// edges must first be oriented relative to one of the other axes; while edges stay
/// misoriented relative to exactly one of them, the status carries the corners and the
/// count of those edges; with all edges oriented, only the corners are left, and domino
/// reduction is reached when none is twisted either.
pub proof fn lemma_dr_status(e1: int, e2: int, c: int)
    requires
        0 <= e1 <= usize::MAX,
        0 <= e2 <= usize::MAX,
        0 <= c <= usize::MAX,
    ensures
        (spec_dr_status(e1, e2, c) == DrStatus::Unoriented) <==> (e1 != 0 && e2 != 0),
        (spec_dr_status(e1, e2, c) == DrStatus::Done) <==> (e1 == 0 && e2 == 0 && c == 0),
        (e1 == 0) != (e2 == 0) ==>
            spec_dr_status(e1, e2, c) == (DrStatus::CornersEdges { corners: c as usize, edges: (e1 + e2) as usize }),
        e1 == 0 && e2 == 0 && c != 0 ==> spec_dr_status(e1, e2, c) == (DrStatus::Corners { corners: c as usize }),
        spec_dr_status(e1, e2, c) is Corners ==> e1 == 0 && e2 == 0,
        spec_dr_status(e1, e2, c) is CornersEdges ==> (e1 == 0) != (e2 == 0),
{
}

/// The distance to domino reduction on an axis.
fn dr_status(e1: usize, e2: usize, c: usize) -> (r: DrStatus)
    ensures
        r == spec_dr_status(e1 as int, e2 as int, c as int),
        (r == DrStatus::Unoriented) <==> (e1 != 0 && e2 != 0),
        (r == DrStatus::Done) <==> (e1 == 0 && e2 == 0 && c == 0),
        (e1 == 0) != (e2 == 0) ==> r == (DrStatus::CornersEdges { corners: c, edges: (e1 + e2) as usize }),
        e1 == 0 && e2 == 0 && c != 0 ==> r == (DrStatus::Corners { corners: c }),
{
    proof {
        lemma_dr_status(e1 as int, e2 as int, c as int);
    }
    if e1 != 0 && e2 != 0 {
        DrStatus::Unoriented
    } else if e1 != 0 {
        DrStatus::CornersEdges { corners: c, edges: e1 }
    } else if e2 != 0 {
        DrStatus::CornersEdges { corners: c, edges: e2 }
    } else if c == 0 {
        DrStatus::Done
    } else {
        DrStatus::Corners { corners: c }
    }
}

/// The numbers of edges misoriented relative to FB, LR and UD.
fn edge_counts(c: &Cube) -> (r: (usize, usize, usize))
    ensures
        r.0 == spec_eofb_count(*c),
        r.1 == spec_eolr_count(*c),
        r.2 == spec_eoud_count(*c),
{
    let mut fb: usize = 0;
    let mut lr: usize = 0;
    let mut ud: usize = 0;
    let mut i: usize = 0;
    while i < 12
        invariant
            i <= 12,
            fb == spec_count(i as int, |k: int| spec_lane_eofb(c.edges.0[k]) != 0),
            lr == spec_count(i as int, |k: int| spec_lane_eolr(c.edges.0[k]) != 0),
            ud == spec_count(i as int, |k: int| spec_lane_eoud(c.edges.0[k]) != 0),
            fb <= i && lr <= i && ud <= i,
        decreases 12 - i,
    {
        if lane_eofb(c.edges.0, i) != 0 {
            fb += 1;
        }
        if lane_eolr(c.edges.0, i) != 0 {
            lr += 1;
        }
        if lane_eoud(c.edges.0, i) != 0 {
            ud += 1;
        }
        i += 1;
    }
    (fb, lr, ud)
}

/// The numbers of corners twisted relative to UD, LR and FB.
fn corner_counts(c: &Cube) -> (r: (usize, usize, usize))
    ensures
        r.0 == spec_coud_count(*c),
        r.1 == spec_colr_count(*c),
        r.2 == spec_cofb_count(*c),
{
    let mut ud: usize = 0;
    let mut lr: usize = 0;
    let mut fb: usize = 0;
    let mut i: usize = 0;
    while i < 8
        invariant
            i <= 8,
            ud == spec_count(i as int, |k: int| spec_lane_coud(c.corners.0[k]) != 0),
            lr == spec_count(i as int, |k: int| spec_lane_colr(c.corners.0[k], k) != 0),
            fb == spec_count(i as int, |k: int| spec_lane_cofb(c.corners.0[k], k) != 0),
            ud <= i && lr <= i && fb <= i,
        decreases 8 - i,
    {
        if lane_coud(c.corners.0, i) != 0 {
            ud += 1;
        }
        if lane_colr(c.corners.0, i) != 0 {
            lr += 1;
        }
        if lane_cofb(c.corners.0, i) != 0 {
            fb += 1;
        }
        i += 1;
    }
    (ud, lr, fb)
}

impl Spy {
    /// A spy on a solved cube with no turns yet.
    pub fn new() -> (r: Spy)
        ensures
            crate::cube::cube::is_ident(r.cube),
            r.stack.0@ == Seq::<Move>::empty(),
    {
        Spy { cube: Cube::new(), stack: Alg::new() }
    }

    /// Take in a turn of the cube: add it to the turns (kept in canonical order), turn the
    /// cube, and report on it.
    pub fn handle(&mut self, m: Move) -> (r: SpyReport)
        ensures
            final(self).stack.0@ == spec_canonicalize(old(self).stack.0@.push(m)),
            final(self).cube.edges.0@ == edge_ops::spec_compose(old(self).cube.edges.0@, edges_model::spec_move(m)),
            final(self).cube.corners.0@ == corners_model::spec_compose(old(self).cube.corners.0@, corners_model::spec_move(m)),
            r == spec_report(final(self).cube),
            r.eofb <= 12 && r.eolr <= 12 && r.eoud <= 12,
            (r.drud == DrStatus::Unoriented) <==> (r.eofb != 0 && r.eolr != 0),
            (r.drlr == DrStatus::Unoriented) <==> (r.eofb != 0 && r.eoud != 0),
            (r.drfb == DrStatus::Unoriented) <==> (r.eolr != 0 && r.eoud != 0),
            (r.eofb == 0) != (r.eolr == 0) ==> r.drud == (DrStatus::CornersEdges {
                corners: spec_coud_count(final(self).cube) as usize, edges: (r.eofb + r.eolr) as usize }),
            (r.eofb == 0) != (r.eoud == 0) ==> r.drlr == (DrStatus::CornersEdges {
                corners: spec_colr_count(final(self).cube) as usize, edges: (r.eofb + r.eoud) as usize }),
            (r.eolr == 0) != (r.eoud == 0) ==> r.drfb == (DrStatus::CornersEdges {
                corners: spec_cofb_count(final(self).cube) as usize, edges: (r.eolr + r.eoud) as usize }),
            r.drud is Corners || r.drud is Done ==> r.eofb == 0 && r.eolr == 0,
            r.drlr is Corners || r.drlr is Done ==> r.eofb == 0 && r.eoud == 0,
            r.drfb is Corners || r.drfb is Done ==> r.eolr == 0 && r.eoud == 0,
    {
        self.stack.push(m);
        self.stack = self.stack.canonicalize();
        self.cube = self.cube.apply_move(m);

        let (eofb_count, eolr_count, eoud_count) = edge_counts(&self.cube);
        let (coud_count, colr_count, cofb_count) = corner_counts(&self.cube);
        proof {
            let c = self.cube;
            lemma_count_bounds(12, |i: int| spec_lane_eofb(c.edges.0[i]) != 0);
            lemma_count_bounds(12, |i: int| spec_lane_eolr(c.edges.0[i]) != 0);
            lemma_count_bounds(12, |i: int| spec_lane_eoud(c.edges.0[i]) != 0);
            lemma_count_bounds(8, |i: int| spec_lane_coud(c.corners.0[i]) != 0);
            lemma_count_bounds(8, |i: int| spec_lane_colr(c.corners.0[i], i) != 0);
            lemma_count_bounds(8, |i: int| spec_lane_cofb(c.corners.0[i], i) != 0);
        }
        let drud = dr_status(eofb_count, eolr_count, coud_count);
        let drlr = dr_status(eofb_count, eoud_count, colr_count);
        let drfb = dr_status(eolr_count, eoud_count, cofb_count);
        SpyReport { eofb: eofb_count, eolr: eolr_count, eoud: eoud_count, drud, drlr, drfb }
    }
}

} // verus!
