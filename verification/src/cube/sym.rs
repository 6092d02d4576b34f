use vstd::prelude::*;
use crate::cube::alg::Alg;
use crate::cube::corners::corner::Corner;
use crate::cube::corners::corners as corners_model;
use crate::cube::corners::corners::Corners;
use crate::cube::cube::{Cube, spec_conjugate_lanes};
use crate::cube::edges::edges::Edges;
use crate::cube::edges::edge::Edge;
use crate::cube::edges::edges as edges_model;
use crate::cube::edges::ops as edge_ops;
use crate::cube::transform::mov::Move;

verus! {

/// A symmetry of the cube. A symmetry `XY` moves the sticker at `XY` to `UF`; `XYm` does the
/// same and then mirrors the cube across the M slice. The first 24 are the rotations.
#[derive(Clone, Copy, Debug, PartialEq, Eq, Structural, PartialOrd, Ord, Hash)]
pub enum Sym {
    UR,
    DR,
    DL,
    UL,
    UF,
    DF,
    DB,
    UB,
    FR,
    BR,
    BL,
    FL,
    RU,
    RD,
    LD,
    LU,
    FU,
    FD,
    BD,
    BU,
    RF,
    RB,
    LB,
    LF,
    URm,
    DRm,
    DLm,
    ULm,
    UFm,
    DFm,
    DBm,
    UBm,
    FRm,
    BRm,
    BLm,
    FLm,
    RUm,
    RDm,
    LDm,
    LUm,
    FUm,
    FDm,
    BDm,
    BUm,
    RFm,
    RBm,
    LBm,
    LFm,
}

/// The symmetry numbered `x`.
pub open spec fn spec_sym_from(x: int) -> Sym {
    if x == 0 { Sym::UR }
    else if x == 1 { Sym::DR }
    else if x == 2 { Sym::DL }
    else if x == 3 { Sym::UL }
    else if x == 4 { Sym::UF }
    else if x == 5 { Sym::DF }
    else if x == 6 { Sym::DB }
    else if x == 7 { Sym::UB }
    else if x == 8 { Sym::FR }
    else if x == 9 { Sym::BR }
    else if x == 10 { Sym::BL }
    else if x == 11 { Sym::FL }
    else if x == 12 { Sym::RU }
    else if x == 13 { Sym::RD }
    else if x == 14 { Sym::LD }
    else if x == 15 { Sym::LU }
    else if x == 16 { Sym::FU }
    else if x == 17 { Sym::FD }
    else if x == 18 { Sym::BD }
    else if x == 19 { Sym::BU }
    else if x == 20 { Sym::RF }
    else if x == 21 { Sym::RB }
    else if x == 22 { Sym::LB }
    else if x == 23 { Sym::LF }
    else if x == 24 { Sym::URm }
    else if x == 25 { Sym::DRm }
    else if x == 26 { Sym::DLm }
    else if x == 27 { Sym::ULm }
    else if x == 28 { Sym::UFm }
    else if x == 29 { Sym::DFm }
    else if x == 30 { Sym::DBm }
    else if x == 31 { Sym::UBm }
    else if x == 32 { Sym::FRm }
    else if x == 33 { Sym::BRm }
    else if x == 34 { Sym::BLm }
    else if x == 35 { Sym::FLm }
    else if x == 36 { Sym::RUm }
    else if x == 37 { Sym::RDm }
    else if x == 38 { Sym::LDm }
    else if x == 39 { Sym::LUm }
    else if x == 40 { Sym::FUm }
    else if x == 41 { Sym::FDm }
    else if x == 42 { Sym::BDm }
    else if x == 43 { Sym::BUm }
    else if x == 44 { Sym::RFm }
    else if x == 45 { Sym::RBm }
    else if x == 46 { Sym::LBm }
    else { Sym::LFm }
}

/// The number of a symmetry.
pub open spec fn sym_index(s: Sym) -> int {
    (s as u8) as int
}

/// A pair of edge lanes and corner lanes.
pub type CubeLanes = (Seq<u8>, Seq<u8>);

/// The lanes of `a` followed by `b`.
pub open spec fn spec_add(a: CubeLanes, b: CubeLanes) -> CubeLanes {
    (edge_ops::spec_compose(a.0, b.0), corners_model::spec_compose(a.1, b.1))
}

/// The lanes of the solved cube after the moves `ms`.
pub open spec fn spec_alg_lanes(ms: Seq<Move>) -> CubeLanes {
    (edges_model::spec_apply_moves(edge_ops::spec_ident(), ms), corners_model::spec_apply_moves(corners_model::spec_ident(), ms))
}

/// The lanes of the solved cube.
pub open spec fn spec_ident_lanes() -> CubeLanes {
    (edge_ops::spec_ident(), corners_model::spec_ident())
}

/// The edges that an x rotation moves: cycled along the M slice and flipped.
pub open spec fn spec_m_edges() -> Seq<Edge> {
    seq![Edge::UF, Edge::UB, Edge::DB, Edge::DF]
}

/// The edges that a y rotation moves: cycled along the E slice and flipped.
pub open spec fn spec_e_edges() -> Seq<Edge> {
    seq![Edge::FR, Edge::FL, Edge::BL, Edge::BR]
}

/// The edges that a z rotation moves: cycled along the S slice and flipped.
pub open spec fn spec_s_edges() -> Seq<Edge> {
    seq![Edge::UR, Edge::DR, Edge::DL, Edge::UL]
}

/// The M slice turned against an x rotation.
pub open spec fn spec_m3() -> CubeLanes {
    (edge_ops::spec_compose(edges_model::spec_cycle_eolr(spec_m_edges()), edges_model::spec_flip(spec_m_edges())),
        corners_model::spec_ident())
}

/// The E slice turned against a y rotation.
pub open spec fn spec_e3() -> CubeLanes {
    (edge_ops::spec_compose(edges_model::spec_cycle_eoud(spec_e_edges()), edges_model::spec_flip(spec_e_edges())),
        corners_model::spec_ident())
}

/// The S slice turned with a z rotation.
pub open spec fn spec_s() -> CubeLanes {
    (edge_ops::spec_compose(edges_model::spec_cycle_eolr(spec_s_edges()), edges_model::spec_flip(spec_s_edges())),
        corners_model::spec_ident())
}

/// The mirror across the M slice: left and right pieces swapped.
pub open spec fn spec_lr() -> CubeLanes {
    (edge_ops::spec_compose(edge_ops::spec_compose(edge_ops::spec_compose(
        edges_model::spec_cycle_eofb(seq![Edge::UL, Edge::UR]),
        edges_model::spec_cycle_eofb(seq![Edge::DL, Edge::DR])),
        edges_model::spec_cycle_eofb(seq![Edge::FL, Edge::FR])),
        edges_model::spec_cycle_eofb(seq![Edge::BL, Edge::BR])),
    corners_model::spec_compose(corners_model::spec_compose(corners_model::spec_compose(
        corners_model::spec_cycle_lanes(seq![Corner::UFL, Corner::UFR]),
        corners_model::spec_cycle_lanes(seq![Corner::UBL, Corner::UBR])),
        corners_model::spec_cycle_lanes(seq![Corner::DFL, Corner::DFR])),
        corners_model::spec_cycle_lanes(seq![Corner::DBL, Corner::DBR])))
}

/// How many steps of construction a symmetry takes from the base rotations.
pub open spec fn spec_sym_level(s: Sym) -> nat {
    match s {
        Sym::UR => 0,
        Sym::DR => 3,
        Sym::DL => 3,
        Sym::UL => 2,
        Sym::UF => 0,
        Sym::DF => 1,
        Sym::DB => 1,
        Sym::UB => 1,
        Sym::FR => 3,
        Sym::BR => 3,
        Sym::BL => 3,
        Sym::FL => 3,
        Sym::RU => 3,
        Sym::RD => 3,
        Sym::LD => 3,
        Sym::LU => 3,
        Sym::FU => 3,
        Sym::FD => 0,
        Sym::BD => 3,
        Sym::BU => 2,
        Sym::RF => 2,
        Sym::RB => 3,
        Sym::LB => 3,
        Sym::LF => 0,
        Sym::URm => 4,
        Sym::DRm => 4,
        Sym::DLm => 4,
        Sym::ULm => 4,
        Sym::UFm => 4,
        Sym::DFm => 4,
        Sym::DBm => 4,
        Sym::UBm => 4,
        Sym::FRm => 4,
        Sym::BRm => 4,
        Sym::BLm => 4,
        Sym::FLm => 4,
        Sym::RUm => 4,
        Sym::RDm => 4,
        Sym::LDm => 4,
        Sym::LUm => 4,
        Sym::FUm => 4,
        Sym::FDm => 4,
        Sym::BDm => 4,
        Sym::BUm => 4,
        Sym::RFm => 4,
        Sym::RBm => 4,
        Sym::LBm => 4,
        Sym::LFm => 4,
    }
}

/// The lanes of the cube that a symmetry turns the solved cube into.
pub open spec fn spec_sym_cube(s: Sym) -> CubeLanes
    decreases spec_sym_level(s),
{
    match s {
        Sym::UF => spec_ident_lanes(),
        Sym::FD => spec_add(spec_alg_lanes(seq![Move::R, Move::L3]), spec_m3()),
        Sym::DB => spec_add(spec_sym_cube(Sym::FD), spec_sym_cube(Sym::FD)),
        Sym::BU => spec_add(spec_sym_cube(Sym::DB), spec_sym_cube(Sym::FD)),
        Sym::UR => spec_add(spec_alg_lanes(seq![Move::U, Move::D3]), spec_e3()),
        Sym::UB => spec_add(spec_sym_cube(Sym::UR), spec_sym_cube(Sym::UR)),
        Sym::UL => spec_add(spec_sym_cube(Sym::UB), spec_sym_cube(Sym::UR)),
        Sym::LF => spec_add(spec_alg_lanes(seq![Move::F, Move::B3]), spec_s()),
        Sym::DF => spec_add(spec_sym_cube(Sym::LF), spec_sym_cube(Sym::LF)),
        Sym::RF => spec_add(spec_sym_cube(Sym::DF), spec_sym_cube(Sym::LF)),
        Sym::DR => spec_add(spec_sym_cube(Sym::UL), spec_sym_cube(Sym::DB)),
        Sym::DL => spec_add(spec_sym_cube(Sym::UR), spec_sym_cube(Sym::DB)),
        Sym::RU => spec_add(spec_sym_cube(Sym::UL), spec_sym_cube(Sym::BU)),
        Sym::LU => spec_add(spec_sym_cube(Sym::UR), spec_sym_cube(Sym::BU)),
        Sym::LD => spec_add(spec_sym_cube(Sym::UL), spec_sym_cube(Sym::FD)),
        Sym::RD => spec_add(spec_sym_cube(Sym::UR), spec_sym_cube(Sym::FD)),
        Sym::BL => spec_add(spec_sym_cube(Sym::UL), spec_sym_cube(Sym::LF)),
        Sym::FR => spec_add(spec_sym_cube(Sym::UR), spec_sym_cube(Sym::LF)),
        Sym::FL => spec_add(spec_sym_cube(Sym::UL), spec_sym_cube(Sym::RF)),
        Sym::BR => spec_add(spec_sym_cube(Sym::UR), spec_sym_cube(Sym::RF)),
        Sym::FU => spec_add(spec_sym_cube(Sym::UB), spec_sym_cube(Sym::BU)),
        Sym::BD => spec_add(spec_sym_cube(Sym::UB), spec_sym_cube(Sym::FD)),
        Sym::RB => spec_add(spec_sym_cube(Sym::UB), spec_sym_cube(Sym::LF)),
        Sym::LB => spec_add(spec_sym_cube(Sym::UB), spec_sym_cube(Sym::RF)),
        Sym::URm => spec_add(spec_sym_cube(Sym::UR), spec_lr()),
        Sym::DRm => spec_add(spec_sym_cube(Sym::DR), spec_lr()),
        Sym::DLm => spec_add(spec_sym_cube(Sym::DL), spec_lr()),
        Sym::ULm => spec_add(spec_sym_cube(Sym::UL), spec_lr()),
        Sym::UFm => spec_add(spec_sym_cube(Sym::UF), spec_lr()),
        Sym::DFm => spec_add(spec_sym_cube(Sym::DF), spec_lr()),
        Sym::DBm => spec_add(spec_sym_cube(Sym::DB), spec_lr()),
        Sym::UBm => spec_add(spec_sym_cube(Sym::UB), spec_lr()),
        Sym::FRm => spec_add(spec_sym_cube(Sym::FR), spec_lr()),
        Sym::BRm => spec_add(spec_sym_cube(Sym::BR), spec_lr()),
        Sym::BLm => spec_add(spec_sym_cube(Sym::BL), spec_lr()),
        Sym::FLm => spec_add(spec_sym_cube(Sym::FL), spec_lr()),
        Sym::RUm => spec_add(spec_sym_cube(Sym::RU), spec_lr()),
        Sym::RDm => spec_add(spec_sym_cube(Sym::RD), spec_lr()),
        Sym::LDm => spec_add(spec_sym_cube(Sym::LD), spec_lr()),
        Sym::LUm => spec_add(spec_sym_cube(Sym::LU), spec_lr()),
        Sym::FUm => spec_add(spec_sym_cube(Sym::FU), spec_lr()),
        Sym::FDm => spec_add(spec_sym_cube(Sym::FD), spec_lr()),
        Sym::BDm => spec_add(spec_sym_cube(Sym::BD), spec_lr()),
        Sym::BUm => spec_add(spec_sym_cube(Sym::BU), spec_lr()),
        Sym::RFm => spec_add(spec_sym_cube(Sym::RF), spec_lr()),
        Sym::RBm => spec_add(spec_sym_cube(Sym::RB), spec_lr()),
        Sym::LBm => spec_add(spec_sym_cube(Sym::LB), spec_lr()),
        Sym::LFm => spec_add(spec_sym_cube(Sym::LF), spec_lr()),
    }
}

/// Whether the cube `c` has the lanes `l`.
pub open spec fn has_lanes(c: Cube, l: CubeLanes) -> bool {
    c.edges.0@ == l.0 && c.corners.0@ == l.1
}

/// The cubes of all symmetries, in the order of their numbering.
fn sym_cubes() -> (r: [Cube; 48])
    ensures
        forall|s: Sym| #[trigger] has_lanes(r[sym_index(s)], spec_sym_cube(s)),
{
    let m_edges = [Edge::UF, Edge::UB, Edge::DB, Edge::DF];
    let e_edges = [Edge::FR, Edge::FL, Edge::BL, Edge::BR];
    let s_edges = [Edge::UR, Edge::DR, Edge::DL, Edge::UL];
    assert(m_edges@ =~= spec_m_edges());
    assert(e_edges@ =~= spec_e_edges());
    assert(s_edges@ =~= spec_s_edges());
    let m3 = Cube::from(Edges::cycle_eolr(&m_edges).compose(Edges::flip(&m_edges)));
    let e3 = Cube::from(Edges::cycle_eoud(&e_edges).compose(Edges::flip(&e_edges)));
    let s = Cube::from(Edges::cycle_eolr(&s_edges).compose(Edges::flip(&s_edges)));
    assert(has_lanes(m3, spec_m3()));
    assert(has_lanes(e3, spec_e3()));
    assert(has_lanes(s, spec_s()));

    let p1 = [Edge::UL, Edge::UR];
    let p2 = [Edge::DL, Edge::DR];
    let p3 = [Edge::FL, Edge::FR];
    let p4 = [Edge::BL, Edge::BR];
    let q1 = [Corner::UFL, Corner::UFR];
    let q2 = [Corner::UBL, Corner::UBR];
    let q3 = [Corner::DFL, Corner::DFR];
    let q4 = [Corner::DBL, Corner::DBR];
    assert(p1@ =~= seq![Edge::UL, Edge::UR]);
    assert(p2@ =~= seq![Edge::DL, Edge::DR]);
    assert(p3@ =~= seq![Edge::FL, Edge::FR]);
    assert(p4@ =~= seq![Edge::BL, Edge::BR]);
    assert(q1@ =~= seq![Corner::UFL, Corner::UFR]);
    assert(q2@ =~= seq![Corner::UBL, Corner::UBR]);
    assert(q3@ =~= seq![Corner::DFL, Corner::DFR]);
    assert(q4@ =~= seq![Corner::DBL, Corner::DBR]);
    let lr = Cube {
        edges: Edges::cycle_eofb(&p1).compose(Edges::cycle_eofb(&p2)).compose(Edges::cycle_eofb(&p3))
            .compose(Edges::cycle_eofb(&p4)),
        corners: Corners::cycle_drud(&q1).compose(Corners::cycle_drud(&q2)).compose(Corners::cycle_drud(&q3))
            .compose(Corners::cycle_drud(&q4)),
    };
    assert(has_lanes(lr, spec_lr()));

    let a_x = Alg(vec![Move::R, Move::L3]);
    let a_y = Alg(vec![Move::U, Move::D3]);
    let a_z = Alg(vec![Move::F, Move::B3]);
    assert(a_x.0@ =~= seq![Move::R, Move::L3]);
    assert(a_y.0@ =~= seq![Move::U, Move::D3]);
    assert(a_z.0@ =~= seq![Move::F, Move::B3]);

    let uf = Cube::new();
    let fd = Cube::from_alg(a_x).compose(m3);
    let db = fd.compose(fd);
    let bu = db.compose(fd);
    let ur = Cube::from_alg(a_y).compose(e3);
    let ub = ur.compose(ur);
    let ul = ub.compose(ur);
    let lf = Cube::from_alg(a_z).compose(s);
    let df = lf.compose(lf);
    let rf = df.compose(lf);
    let dr = ul.compose(db);
    let dl = ur.compose(db);
    let ru = ul.compose(bu);
    let lu = ur.compose(bu);
    let ld = ul.compose(fd);
    let rd = ur.compose(fd);
    let bl = ul.compose(lf);
    let fr = ur.compose(lf);
    let fl = ul.compose(rf);
    let br = ur.compose(rf);
    let fu = ub.compose(bu);
    let bd = ub.compose(fd);
    let rb = ub.compose(lf);
    let lb = ub.compose(rf);
    let urm = ur.compose(lr);
    let drm = dr.compose(lr);
    let dlm = dl.compose(lr);
    let ulm = ul.compose(lr);
    let ufm = uf.compose(lr);
    let dfm = df.compose(lr);
    let dbm = db.compose(lr);
    let ubm = ub.compose(lr);
    let frm = fr.compose(lr);
    let brm = br.compose(lr);
    let blm = bl.compose(lr);
    let flm = fl.compose(lr);
    let rum = ru.compose(lr);
    let rdm = rd.compose(lr);
    let ldm = ld.compose(lr);
    let lum = lu.compose(lr);
    let fum = fu.compose(lr);
    let fdm = fd.compose(lr);
    let bdm = bd.compose(lr);
    let bum = bu.compose(lr);
    let rfm = rf.compose(lr);
    let rbm = rb.compose(lr);
    let lbm = lb.compose(lr);
    let lfm = lf.compose(lr);
    proof {
        assert(has_lanes(uf, spec_sym_cube(Sym::UF)));
        assert(has_lanes(fd, spec_sym_cube(Sym::FD)));
        assert(has_lanes(db, spec_sym_cube(Sym::DB)));
        assert(has_lanes(bu, spec_sym_cube(Sym::BU)));
        assert(has_lanes(ur, spec_sym_cube(Sym::UR)));
        assert(has_lanes(ub, spec_sym_cube(Sym::UB)));
        assert(has_lanes(ul, spec_sym_cube(Sym::UL)));
        assert(has_lanes(lf, spec_sym_cube(Sym::LF)));
        assert(has_lanes(df, spec_sym_cube(Sym::DF)));
        assert(has_lanes(rf, spec_sym_cube(Sym::RF)));
        assert(has_lanes(dr, spec_sym_cube(Sym::DR)));
        assert(has_lanes(dl, spec_sym_cube(Sym::DL)));
        assert(has_lanes(ru, spec_sym_cube(Sym::RU)));
        assert(has_lanes(lu, spec_sym_cube(Sym::LU)));
        assert(has_lanes(ld, spec_sym_cube(Sym::LD)));
        assert(has_lanes(rd, spec_sym_cube(Sym::RD)));
        assert(has_lanes(bl, spec_sym_cube(Sym::BL)));
        assert(has_lanes(fr, spec_sym_cube(Sym::FR)));
        assert(has_lanes(fl, spec_sym_cube(Sym::FL)));
        assert(has_lanes(br, spec_sym_cube(Sym::BR)));
        assert(has_lanes(fu, spec_sym_cube(Sym::FU)));
        assert(has_lanes(bd, spec_sym_cube(Sym::BD)));
        assert(has_lanes(rb, spec_sym_cube(Sym::RB)));
        assert(has_lanes(lb, spec_sym_cube(Sym::LB)));
        assert(has_lanes(urm, spec_sym_cube(Sym::URm)));
        assert(has_lanes(drm, spec_sym_cube(Sym::DRm)));
        assert(has_lanes(dlm, spec_sym_cube(Sym::DLm)));
        assert(has_lanes(ulm, spec_sym_cube(Sym::ULm)));
        assert(has_lanes(ufm, spec_sym_cube(Sym::UFm)));
        assert(has_lanes(dfm, spec_sym_cube(Sym::DFm)));
        assert(has_lanes(dbm, spec_sym_cube(Sym::DBm)));
        assert(has_lanes(ubm, spec_sym_cube(Sym::UBm)));
        assert(has_lanes(frm, spec_sym_cube(Sym::FRm)));
        assert(has_lanes(brm, spec_sym_cube(Sym::BRm)));
        assert(has_lanes(blm, spec_sym_cube(Sym::BLm)));
        assert(has_lanes(flm, spec_sym_cube(Sym::FLm)));
        assert(has_lanes(rum, spec_sym_cube(Sym::RUm)));
        assert(has_lanes(rdm, spec_sym_cube(Sym::RDm)));
        assert(has_lanes(ldm, spec_sym_cube(Sym::LDm)));
        assert(has_lanes(lum, spec_sym_cube(Sym::LUm)));
        assert(has_lanes(fum, spec_sym_cube(Sym::FUm)));
        assert(has_lanes(fdm, spec_sym_cube(Sym::FDm)));
        assert(has_lanes(bdm, spec_sym_cube(Sym::BDm)));
        assert(has_lanes(bum, spec_sym_cube(Sym::BUm)));
        assert(has_lanes(rfm, spec_sym_cube(Sym::RFm)));
        assert(has_lanes(rbm, spec_sym_cube(Sym::RBm)));
        assert(has_lanes(lbm, spec_sym_cube(Sym::LBm)));
        assert(has_lanes(lfm, spec_sym_cube(Sym::LFm)));
    }
    let r = [ur, dr, dl, ul, uf, df, db, ub, fr, br, bl, fl, ru, rd, ld, lu, fu, fd, bd, bu, rf, rb, lb, lf, urm, drm, dlm, ulm, ufm, dfm, dbm, ubm, frm, brm, blm, flm, rum, rdm, ldm, lum, fum, fdm, bdm, bum, rfm, rbm, lbm, lfm];
    assert forall|s: Sym| #[trigger] has_lanes(r[sym_index(s)], spec_sym_cube(s)) by {
        match s {
            Sym::UR => assert(has_lanes(r[0], spec_sym_cube(Sym::UR))),
            Sym::DR => assert(has_lanes(r[1], spec_sym_cube(Sym::DR))),
            Sym::DL => assert(has_lanes(r[2], spec_sym_cube(Sym::DL))),
            Sym::UL => assert(has_lanes(r[3], spec_sym_cube(Sym::UL))),
            Sym::UF => assert(has_lanes(r[4], spec_sym_cube(Sym::UF))),
            Sym::DF => assert(has_lanes(r[5], spec_sym_cube(Sym::DF))),
            Sym::DB => assert(has_lanes(r[6], spec_sym_cube(Sym::DB))),
            Sym::UB => assert(has_lanes(r[7], spec_sym_cube(Sym::UB))),
            Sym::FR => assert(has_lanes(r[8], spec_sym_cube(Sym::FR))),
            Sym::BR => assert(has_lanes(r[9], spec_sym_cube(Sym::BR))),
            Sym::BL => assert(has_lanes(r[10], spec_sym_cube(Sym::BL))),
            Sym::FL => assert(has_lanes(r[11], spec_sym_cube(Sym::FL))),
            Sym::RU => assert(has_lanes(r[12], spec_sym_cube(Sym::RU))),
            Sym::RD => assert(has_lanes(r[13], spec_sym_cube(Sym::RD))),
            Sym::LD => assert(has_lanes(r[14], spec_sym_cube(Sym::LD))),
            Sym::LU => assert(has_lanes(r[15], spec_sym_cube(Sym::LU))),
            Sym::FU => assert(has_lanes(r[16], spec_sym_cube(Sym::FU))),
            Sym::FD => assert(has_lanes(r[17], spec_sym_cube(Sym::FD))),
            Sym::BD => assert(has_lanes(r[18], spec_sym_cube(Sym::BD))),
            Sym::BU => assert(has_lanes(r[19], spec_sym_cube(Sym::BU))),
            Sym::RF => assert(has_lanes(r[20], spec_sym_cube(Sym::RF))),
            Sym::RB => assert(has_lanes(r[21], spec_sym_cube(Sym::RB))),
            Sym::LB => assert(has_lanes(r[22], spec_sym_cube(Sym::LB))),
            Sym::LF => assert(has_lanes(r[23], spec_sym_cube(Sym::LF))),
            Sym::URm => assert(has_lanes(r[24], spec_sym_cube(Sym::URm))),
            Sym::DRm => assert(has_lanes(r[25], spec_sym_cube(Sym::DRm))),
            Sym::DLm => assert(has_lanes(r[26], spec_sym_cube(Sym::DLm))),
            Sym::ULm => assert(has_lanes(r[27], spec_sym_cube(Sym::ULm))),
            Sym::UFm => assert(has_lanes(r[28], spec_sym_cube(Sym::UFm))),
            Sym::DFm => assert(has_lanes(r[29], spec_sym_cube(Sym::DFm))),
            Sym::DBm => assert(has_lanes(r[30], spec_sym_cube(Sym::DBm))),
            Sym::UBm => assert(has_lanes(r[31], spec_sym_cube(Sym::UBm))),
            Sym::FRm => assert(has_lanes(r[32], spec_sym_cube(Sym::FRm))),
            Sym::BRm => assert(has_lanes(r[33], spec_sym_cube(Sym::BRm))),
            Sym::BLm => assert(has_lanes(r[34], spec_sym_cube(Sym::BLm))),
            Sym::FLm => assert(has_lanes(r[35], spec_sym_cube(Sym::FLm))),
            Sym::RUm => assert(has_lanes(r[36], spec_sym_cube(Sym::RUm))),
            Sym::RDm => assert(has_lanes(r[37], spec_sym_cube(Sym::RDm))),
            Sym::LDm => assert(has_lanes(r[38], spec_sym_cube(Sym::LDm))),
            Sym::LUm => assert(has_lanes(r[39], spec_sym_cube(Sym::LUm))),
            Sym::FUm => assert(has_lanes(r[40], spec_sym_cube(Sym::FUm))),
            Sym::FDm => assert(has_lanes(r[41], spec_sym_cube(Sym::FDm))),
            Sym::BDm => assert(has_lanes(r[42], spec_sym_cube(Sym::BDm))),
            Sym::BUm => assert(has_lanes(r[43], spec_sym_cube(Sym::BUm))),
            Sym::RFm => assert(has_lanes(r[44], spec_sym_cube(Sym::RFm))),
            Sym::RBm => assert(has_lanes(r[45], spec_sym_cube(Sym::RBm))),
            Sym::LBm => assert(has_lanes(r[46], spec_sym_cube(Sym::LBm))),
            Sym::LFm => assert(has_lanes(r[47], spec_sym_cube(Sym::LFm))),
        }
    }
    r
}

/// Whether the edges of `a` followed by those of `b` are those of `c`.
pub open spec fn edges_add_to(a: Sym, b: Sym, c: Sym) -> bool {
    edge_ops::spec_compose(spec_sym_cube(a).0, spec_sym_cube(b).0) == spec_sym_cube(c).0
}

/// Whether `r` is the inverse that `Sym::inverse` gives for `s`: the last symmetry whose
/// edges, after those of `s`, are solved, or `UF` where there is none.
pub open spec fn is_sym_inverse(s: Sym, r: Sym) -> bool {
    &&& (exists|j: Sym| #[trigger] edges_add_to(s, j, Sym::UF)) ==> edges_add_to(s, r, Sym::UF)
        && forall|j: Sym| sym_index(r) < #[trigger] sym_index(j) ==> !edges_add_to(s, j, Sym::UF)
    &&& !(exists|j: Sym| #[trigger] edges_add_to(s, j, Sym::UF)) ==> r == Sym::UF
}

/// The inverse of a symmetry, as `Sym::inverse` gives it.
pub open spec fn spec_sym_inverse(s: Sym) -> Sym {
    choose|r: Sym| is_sym_inverse(s, r)
}

/// There is exactly one inverse of each symmetry.
proof fn lemma_sym_inverse_unique(s: Sym, r: Sym)
    requires
        is_sym_inverse(s, r),
    ensures
        spec_sym_inverse(s) == r,
{
    let q = spec_sym_inverse(s);
    assert(is_sym_inverse(s, q));
    lemma_sym_number(r);
    lemma_sym_number(q);
    if exists|j: Sym| #[trigger] edges_add_to(s, j, Sym::UF) {
        if sym_index(r) < sym_index(q) {
            assert(!edges_add_to(s, q, Sym::UF));
        } else if sym_index(q) < sym_index(r) {
            assert(!edges_add_to(s, r, Sym::UF));
        }
    }
}

impl Sym {
    /// Whether the symmetry is a pure rotation (i.e. it doesn't involve a mirroring
    /// operation).
    pub fn is_rotation(self) -> (r: bool)
        ensures
            r == ((self as u8) < 24),
    {
        (self as u8) < 24
    }

    pub fn from_u8(x: u8) -> (r: Sym)
        requires
            x < 48,
        ensures
            r as u8 == x,
            r == spec_sym_from(x as int),
    {
        match x {
            0 => Sym::UR,
            1 => Sym::DR,
            2 => Sym::DL,
            3 => Sym::UL,
            4 => Sym::UF,
            5 => Sym::DF,
            6 => Sym::DB,
            7 => Sym::UB,
            8 => Sym::FR,
            9 => Sym::BR,
            10 => Sym::BL,
            11 => Sym::FL,
            12 => Sym::RU,
            13 => Sym::RD,
            14 => Sym::LD,
            15 => Sym::LU,
            16 => Sym::FU,
            17 => Sym::FD,
            18 => Sym::BD,
            19 => Sym::BU,
            20 => Sym::RF,
            21 => Sym::RB,
            22 => Sym::LB,
            23 => Sym::LF,
            24 => Sym::URm,
            25 => Sym::DRm,
            26 => Sym::DLm,
            27 => Sym::ULm,
            28 => Sym::UFm,
            29 => Sym::DFm,
            30 => Sym::DBm,
            31 => Sym::UBm,
            32 => Sym::FRm,
            33 => Sym::BRm,
            34 => Sym::BLm,
            35 => Sym::FLm,
            36 => Sym::RUm,
            37 => Sym::RDm,
            38 => Sym::LDm,
            39 => Sym::LUm,
            40 => Sym::FUm,
            41 => Sym::FDm,
            42 => Sym::BDm,
            43 => Sym::BUm,
            44 => Sym::RFm,
            45 => Sym::RBm,
            46 => Sym::LBm,
            _ => Sym::LFm,
        }
    }

    /// All symmetries, in the order of their numbering.
    pub fn all() -> (r: [Sym; 48])
        ensures
            forall|i: int| 0 <= i < 48 ==> #[trigger] r[i] as u8 == i,
    {
        let mut r = [Sym::UF; 48];
        let mut i: usize = 0;
        while i < 48
            invariant
                i <= 48,
                forall|k: int| 0 <= k < i ==> #[trigger] r[k] as u8 == k,
            decreases 48 - i,
        {
            r[i] = Sym::from_u8(i as u8);
            i += 1;
        }
        r
    }

    /// The cube that this symmetry turns the solved cube into.
    pub fn cube(self) -> (r: Cube)
        ensures
            has_lanes(r, spec_sym_cube(self)),
    {
        let t = sym_cubes();
        proof {
            lemma_sym_number(self);
            assert(has_lanes(t[sym_index(self)], spec_sym_cube(self)));
        }
        t[self as usize]
    }

    /// The symmetry that undoes this one: the last symmetry whose edges, after those of
    /// this one, are solved. Every symmetry has exactly one, and the only symmetry whose
    /// edges are this one's followed by it is the identity `UF`, so `self + r` is `UF`.
    pub fn inverse(self) -> (r: Sym)
        ensures
            is_sym_inverse(self, r),
            r == spec_sym_inverse(self),
            r == spec_sym_undo(self),
            edges_add_to(self, r, Sym::UF),
            forall|k: Sym| #[trigger] edges_add_to(self, r, k) ==> k == Sym::UF,
    {
        proof {
            lemma_sym_inverse_exists(self);
        }
        let t = sym_cubes();
        inverse_in(&t, self)
    }
}

/// The inverse of `s`, found among the cubes of all symmetries.
fn inverse_in(t: &[Cube; 48], s: Sym) -> (r: Sym)
    requires
        forall|x: Sym| #[trigger] has_lanes(t[sym_index(x)], spec_sym_cube(x)),
    ensures
        is_sym_inverse(s, r),
        r == spec_sym_inverse(s),
{
    proof {
        lemma_sym_number(s);
        assert(has_lanes(t[sym_index(s)], spec_sym_cube(s)));
    }
    let a = t[s as usize];
    let mut found: Option<Sym> = None;
    let mut j: usize = 0;
    while j < 48
        invariant
            j <= 48,
            forall|x: Sym| #[trigger] has_lanes(t[sym_index(x)], spec_sym_cube(x)),
            has_lanes(a, spec_sym_cube(s)),
            found matches Some(f) ==> (f as u8) < j && edges_add_to(s, f, Sym::UF),
            forall|x: Sym| (match found { Some(f) => f as u8, None => 0u8 }) < #[trigger] sym_index(x) < j
                ==> !edges_add_to(s, x, Sym::UF),
            found is None ==> forall|x: Sym| #[trigger] sym_index(x) < j ==> !edges_add_to(s, x, Sym::UF),
        decreases 48 - j,
    {
        let sj = Sym::from_u8(j as u8);
        let ab = a.edges.compose(t[j].edges);
        proof {
            assert(has_lanes(t[sym_index(sj)], spec_sym_cube(sj)));
            assert(edge_ops::spec_ident() == spec_sym_cube(Sym::UF).0);
        }
        if ab.is_solved() {
            found = Some(sj);
        }
        j += 1;
    }
    let r = match found {
        Some(f) => f,
        None => {
            proof {
                assert forall|x: Sym| !#[trigger] edges_add_to(s, x, Sym::UF) by {
                    lemma_sym_number(x);
                    assert(sym_index(x) < 48);
                }
            }
            Sym::UF
        },
    };
    proof {
        assert(is_sym_inverse(s, r));
        lemma_sym_inverse_unique(s, r);
    }
    r
}

/// The cubes and inverses of all symmetries, computed once for repeated use.
pub struct SymTable {
    cubes: [Cube; 48],
    inverses: [Sym; 48],
}

impl SymTable {
    /// Whether the table holds the cube and the inverse of every symmetry.
    pub closed spec fn wf(&self) -> bool {
        &&& forall|x: Sym| #[trigger] has_lanes(self.cubes[sym_index(x)], spec_sym_cube(x))
        &&& forall|x: Sym| #[trigger] self.inverses[sym_index(x)] == spec_sym_inverse(x)
    }

    /// The table of all symmetries.
    pub fn new() -> (r: SymTable)
        ensures
            r.wf(),
    {
        let cubes = sym_cubes();
        let mut inverses = [Sym::UF; 48];
        let mut i: usize = 0;
        while i < 48
            invariant
                i <= 48,
                forall|x: Sym| #[trigger] has_lanes(cubes[sym_index(x)], spec_sym_cube(x)),
                forall|x: Sym| sym_index(x) < i ==> #[trigger] inverses[sym_index(x)] == spec_sym_inverse(x),
            decreases 48 - i,
        {
            let s = Sym::from_u8(i as u8);
            inverses[i] = inverse_in(&cubes, s);
            proof {
                assert forall|x: Sym| sym_index(x) < i + 1 implies #[trigger] inverses[sym_index(x)] == spec_sym_inverse(x) by {
                    lemma_sym_number(x);
                    if sym_index(x) == i {
                        assert(x == s);
                    }
                }
            }
            i += 1;
        }
        proof {
            assert forall|x: Sym| #[trigger] inverses[sym_index(x)] == spec_sym_inverse(x) by {
                lemma_sym_number(x);
                assert(sym_index(x) < 48);
            }
        }
        SymTable { cubes, inverses }
    }

    /// The cube of symmetry `s`.
    pub fn cube(&self, s: Sym) -> (r: Cube)
        requires
            self.wf(),
        ensures
            has_lanes(r, spec_sym_cube(s)),
    {
        proof {
            lemma_sym_number(s);
            assert(has_lanes(self.cubes[sym_index(s)], spec_sym_cube(s)));
        }
        self.cubes[s as usize]
    }

    /// The inverse of symmetry `s`.
    pub fn inverse(&self, s: Sym) -> (r: Sym)
        requires
            self.wf(),
        ensures
            r == spec_sym_inverse(s),
    {
        proof {
            lemma_sym_number(s);
            assert(self.inverses[sym_index(s)] == spec_sym_inverse(s));
        }
        self.inverses[s as usize]
    }

    /// The cube `c` conjugated by symmetry `s`: the symmetry, then the cube, then the inverse
    /// symmetry; a mirror symmetry also turns each corner twist the other way.
    pub fn conjugate(&self, c: Cube, s: Sym) -> (r: Cube)
        requires
            self.wf(),
        ensures
            (r.edges.0@, r.corners.0@) == spec_conjugate_lanes(c.edges.0@, c.corners.0@, s),
    {
        let a = self.cube(s);
        let b = self.cube(self.inverse(s));
        let r = a.compose(c).compose(b);
        if s.is_rotation() {
            r
        } else {
            Cube { edges: r.edges, corners: r.corners.mirror_twist() }
        }
    }
}

/// A symmetry's number is below 48 and names it back.
pub proof fn lemma_sym_number(s: Sym)
    ensures
        (s as u8) < 48,
        spec_sym_from((s as u8) as int) == s,
{
}

impl core::ops::Add<Sym> for Sym {
    type Output = Sym;

    /// The symmetry that does `self`, then `rhs`: the first symmetry whose edges are those
    /// of `self` followed by those of `rhs`. The symmetries are closed under this; should
    /// none be found, the result is the identity `UF`.
    fn add(self, rhs: Sym) -> (r: Sym)
        ensures
            (exists|k: Sym| #[trigger] edges_add_to(self, rhs, k)) ==> edges_add_to(self, rhs, r)
                && forall|k: Sym| #[trigger] sym_index(k) < (r as u8) ==> !edges_add_to(self, rhs, k),
            !(exists|k: Sym| #[trigger] edges_add_to(self, rhs, k)) ==> r == Sym::UF,
    {
        let t = sym_cubes();
        proof {
            lemma_sym_number(self);
            lemma_sym_number(rhs);
            assert(has_lanes(t[sym_index(self)], spec_sym_cube(self)));
            assert(has_lanes(t[sym_index(rhs)], spec_sym_cube(rhs)));
        }
        let ab = t[self as usize].edges.compose(t[rhs as usize].edges);
        let mut k: usize = 0;
        while k < 48
            invariant
                k <= 48,
                forall|s: Sym| #[trigger] has_lanes(t[sym_index(s)], spec_sym_cube(s)),
                ab.0@ == edge_ops::spec_compose(spec_sym_cube(self).0, spec_sym_cube(rhs).0),
                forall|s: Sym| #[trigger] sym_index(s) < k ==> !edges_add_to(self, rhs, s),
            decreases 48 - k,
        {
            let sk = Sym::from_u8(k as u8);
            proof {
                assert(has_lanes(t[sym_index(sk)], spec_sym_cube(sk)));
            }
            if lanes_eq(&t[k].edges.0, &ab.0) {
                assert(edges_add_to(self, rhs, sk));
                return sk;
            }
            k += 1;
        }
        proof {
            assert forall|s: Sym| !#[trigger] edges_add_to(self, rhs, s) by {
                lemma_sym_number(s);
                assert(sym_index(s) < 48);
            }
        }
        Sym::UF
    }
}

impl vstd::std_specs::ops::AddSpecImpl<Sym> for Sym {
    open spec fn obeys_add_spec() -> bool {
        false
    }

    open spec fn add_req(self, rhs: Sym) -> bool {
        true
    }

    open spec fn add_spec(self, rhs: Sym) -> Sym {
        arbitrary()
    }
}

/// Whether two edge vectors are equal.
fn lanes_eq(a: &[u8; 16], b: &[u8; 16]) -> (r: bool)
    ensures
        r == (a@ == b@),
{
    let mut i: usize = 0;
    while i < 16
        invariant
            i <= 16,
            forall|k: int| 0 <= k < i ==> #[trigger] a[k] == b[k],
        decreases 16 - i,
    {
        if a[i] != b[i] {
            assert(a@[i as int] != b@[i as int]);
            return false;
        }
        i += 1;
    }
    assert(a@ =~= b@);
    true
}

/// The bits of the lanes that make up m3.
proof fn lemma_m3_bits()
    by (bit_vector)
    ensures
        edge_ops::spec_lane_set_eolr(0u8, 0, 0u8) == 0u8,
        edge_ops::spec_lane_set_eolr(1u8, 1, 0u8) == 1u8,
        edge_ops::spec_lane_set_eolr(2u8, 2, 0u8) == 2u8,
        edge_ops::spec_lane_set_eolr(3u8, 3, 0u8) == 3u8,
        edge_ops::spec_lane_set_eolr(5u8, 4, 0u8) == 5u8,
        edge_ops::spec_lane_set_eolr(6u8, 5, 0u8) == 6u8,
        edge_ops::spec_lane_set_eolr(7u8, 6, 0u8) == 7u8,
        edge_ops::spec_lane_set_eolr(4u8, 7, 0u8) == 4u8,
        edge_ops::spec_lane_set_eolr(8u8, 8, 0u8) == 8u8,
        edge_ops::spec_lane_set_eolr(9u8, 9, 0u8) == 9u8,
        edge_ops::spec_lane_set_eolr(10u8, 10, 0u8) == 10u8,
        edge_ops::spec_lane_set_eolr(11u8, 11, 0u8) == 11u8,
        edge_ops::spec_lane_set_eolr(12u8, 12, 0u8) == 12u8,
        edge_ops::spec_lane_set_eolr(13u8, 13, 0u8) == 13u8,
        edge_ops::spec_lane_set_eolr(14u8, 14, 0u8) == 14u8,
        edge_ops::spec_lane_set_eolr(15u8, 15, 0u8) == 15u8,
        (4u8 ^ 112u8) == 116u8,
        (7u8 ^ 112u8) == 119u8,
        (6u8 ^ 112u8) == 118u8,
        (5u8 ^ 112u8) == 117u8,
{
}

/// The edge lanes of m3.
#[verifier::spinoff_prover]
proof fn lemma_m3_edges()
    ensures
        spec_m3().0 == seq![0u8, 1u8, 2u8, 3u8, 117u8, 118u8, 119u8, 116u8, 8u8, 9u8, 10u8, 11u8, 12u8, 13u8, 14u8, 15u8],
{
    reveal_with_fuel(edges_model::spec_cycle_slot, 5);
    reveal_with_fuel(edges_model::spec_flip_parity, 5);
    assert(edges_model::spec_cycle_lanes(spec_m_edges()) =~= seq![0u8, 1u8, 2u8, 3u8, 5u8, 6u8, 7u8, 4u8, 8u8, 9u8, 10u8, 11u8, 12u8, 13u8, 14u8, 15u8]);
    lemma_m3_bits();
    assert(edges_model::spec_cycle_eolr(spec_m_edges()) =~= seq![0u8, 1u8, 2u8, 3u8, 5u8, 6u8, 7u8, 4u8, 8u8, 9u8, 10u8, 11u8, 12u8, 13u8, 14u8, 15u8]);
    assert(edges_model::spec_flip(spec_m_edges()) =~= seq![0u8, 1u8, 2u8, 3u8, 116u8, 117u8, 118u8, 119u8, 8u8, 9u8, 10u8, 11u8, 12u8, 13u8, 14u8, 15u8]);
    edges_model::lemma_edge_composes_to(seq![0u8, 1u8, 2u8, 3u8, 5u8, 6u8, 7u8, 4u8, 8u8, 9u8, 10u8, 11u8, 12u8, 13u8, 14u8, 15u8], seq![0u8, 1u8, 2u8, 3u8, 116u8, 117u8, 118u8, 119u8, 8u8, 9u8, 10u8, 11u8, 12u8, 13u8, 14u8, 15u8], seq![0u8, 1u8, 2u8, 3u8, 117u8, 118u8, 119u8, 116u8, 8u8, 9u8, 10u8, 11u8, 12u8, 13u8, 14u8, 15u8]);
}

/// The bits of the lanes that make up e3.
proof fn lemma_e3_bits()
    by (bit_vector)
    ensures
        edge_ops::spec_lane_set_eoud(0u8, 0, 0u8) == 0u8,
        edge_ops::spec_lane_set_eoud(1u8, 1, 0u8) == 1u8,
        edge_ops::spec_lane_set_eoud(2u8, 2, 0u8) == 2u8,
        edge_ops::spec_lane_set_eoud(3u8, 3, 0u8) == 3u8,
        edge_ops::spec_lane_set_eoud(4u8, 4, 0u8) == 4u8,
        edge_ops::spec_lane_set_eoud(5u8, 5, 0u8) == 5u8,
        edge_ops::spec_lane_set_eoud(6u8, 6, 0u8) == 6u8,
        edge_ops::spec_lane_set_eoud(7u8, 7, 0u8) == 7u8,
        edge_ops::spec_lane_set_eoud(9u8, 8, 0u8) == 9u8,
        edge_ops::spec_lane_set_eoud(10u8, 9, 0u8) == 10u8,
        edge_ops::spec_lane_set_eoud(11u8, 10, 0u8) == 11u8,
        edge_ops::spec_lane_set_eoud(8u8, 11, 0u8) == 8u8,
        edge_ops::spec_lane_set_eoud(12u8, 12, 0u8) == 12u8,
        edge_ops::spec_lane_set_eoud(13u8, 13, 0u8) == 13u8,
        edge_ops::spec_lane_set_eoud(14u8, 14, 0u8) == 14u8,
        edge_ops::spec_lane_set_eoud(15u8, 15, 0u8) == 15u8,
        (8u8 ^ 112u8) == 120u8,
        (11u8 ^ 112u8) == 123u8,
        (10u8 ^ 112u8) == 122u8,
        (9u8 ^ 112u8) == 121u8,
{
}

/// The edge lanes of e3.
#[verifier::spinoff_prover]
proof fn lemma_e3_edges()
    ensures
        spec_e3().0 == seq![0u8, 1u8, 2u8, 3u8, 4u8, 5u8, 6u8, 7u8, 121u8, 122u8, 123u8, 120u8, 12u8, 13u8, 14u8, 15u8],
{
    reveal_with_fuel(edges_model::spec_cycle_slot, 5);
    reveal_with_fuel(edges_model::spec_flip_parity, 5);
    assert(edges_model::spec_cycle_lanes(spec_e_edges()) =~= seq![0u8, 1u8, 2u8, 3u8, 4u8, 5u8, 6u8, 7u8, 9u8, 10u8, 11u8, 8u8, 12u8, 13u8, 14u8, 15u8]);
    lemma_e3_bits();
    assert(edges_model::spec_cycle_eoud(spec_e_edges()) =~= seq![0u8, 1u8, 2u8, 3u8, 4u8, 5u8, 6u8, 7u8, 9u8, 10u8, 11u8, 8u8, 12u8, 13u8, 14u8, 15u8]);
    assert(edges_model::spec_flip(spec_e_edges()) =~= seq![0u8, 1u8, 2u8, 3u8, 4u8, 5u8, 6u8, 7u8, 120u8, 121u8, 122u8, 123u8, 12u8, 13u8, 14u8, 15u8]);
    edges_model::lemma_edge_composes_to(seq![0u8, 1u8, 2u8, 3u8, 4u8, 5u8, 6u8, 7u8, 9u8, 10u8, 11u8, 8u8, 12u8, 13u8, 14u8, 15u8], seq![0u8, 1u8, 2u8, 3u8, 4u8, 5u8, 6u8, 7u8, 120u8, 121u8, 122u8, 123u8, 12u8, 13u8, 14u8, 15u8], seq![0u8, 1u8, 2u8, 3u8, 4u8, 5u8, 6u8, 7u8, 121u8, 122u8, 123u8, 120u8, 12u8, 13u8, 14u8, 15u8]);
}

/// The bits of the lanes that make up s.
proof fn lemma_s_bits()
    by (bit_vector)
    ensures
        edge_ops::spec_lane_set_eolr(3u8, 0, 0u8) == 3u8,
        edge_ops::spec_lane_set_eolr(0u8, 1, 0u8) == 0u8,
        edge_ops::spec_lane_set_eolr(1u8, 2, 0u8) == 1u8,
        edge_ops::spec_lane_set_eolr(2u8, 3, 0u8) == 2u8,
        edge_ops::spec_lane_set_eolr(4u8, 4, 0u8) == 4u8,
        edge_ops::spec_lane_set_eolr(5u8, 5, 0u8) == 5u8,
        edge_ops::spec_lane_set_eolr(6u8, 6, 0u8) == 6u8,
        edge_ops::spec_lane_set_eolr(7u8, 7, 0u8) == 7u8,
        edge_ops::spec_lane_set_eolr(8u8, 8, 0u8) == 8u8,
        edge_ops::spec_lane_set_eolr(9u8, 9, 0u8) == 9u8,
        edge_ops::spec_lane_set_eolr(10u8, 10, 0u8) == 10u8,
        edge_ops::spec_lane_set_eolr(11u8, 11, 0u8) == 11u8,
        edge_ops::spec_lane_set_eolr(12u8, 12, 0u8) == 12u8,
        edge_ops::spec_lane_set_eolr(13u8, 13, 0u8) == 13u8,
        edge_ops::spec_lane_set_eolr(14u8, 14, 0u8) == 14u8,
        edge_ops::spec_lane_set_eolr(15u8, 15, 0u8) == 15u8,
        (0u8 ^ 112u8) == 112u8,
        (1u8 ^ 112u8) == 113u8,
        (2u8 ^ 112u8) == 114u8,
        (3u8 ^ 112u8) == 115u8,
{
}

/// The edge lanes of s.
#[verifier::spinoff_prover]
#[verifier::rlimit(100)]
proof fn lemma_s_edges()
    ensures
        spec_s().0 == seq![115u8, 112u8, 113u8, 114u8, 4u8, 5u8, 6u8, 7u8, 8u8, 9u8, 10u8, 11u8, 12u8, 13u8, 14u8, 15u8],
{
    reveal_with_fuel(edges_model::spec_cycle_slot, 5);
    reveal_with_fuel(edges_model::spec_flip_parity, 5);
    assert(edges_model::spec_cycle_lanes(spec_s_edges()) =~= seq![3u8, 0u8, 1u8, 2u8, 4u8, 5u8, 6u8, 7u8, 8u8, 9u8, 10u8, 11u8, 12u8, 13u8, 14u8, 15u8]);
    lemma_s_bits();
    assert(edges_model::spec_cycle_eolr(spec_s_edges()) =~= seq![3u8, 0u8, 1u8, 2u8, 4u8, 5u8, 6u8, 7u8, 8u8, 9u8, 10u8, 11u8, 12u8, 13u8, 14u8, 15u8]);
    assert(edges_model::spec_flip(spec_s_edges()) =~= seq![112u8, 113u8, 114u8, 115u8, 4u8, 5u8, 6u8, 7u8, 8u8, 9u8, 10u8, 11u8, 12u8, 13u8, 14u8, 15u8]);
    edges_model::lemma_edge_composes_to(seq![3u8, 0u8, 1u8, 2u8, 4u8, 5u8, 6u8, 7u8, 8u8, 9u8, 10u8, 11u8, 12u8, 13u8, 14u8, 15u8], seq![112u8, 113u8, 114u8, 115u8, 4u8, 5u8, 6u8, 7u8, 8u8, 9u8, 10u8, 11u8, 12u8, 13u8, 14u8, 15u8], seq![115u8, 112u8, 113u8, 114u8, 4u8, 5u8, 6u8, 7u8, 8u8, 9u8, 10u8, 11u8, 12u8, 13u8, 14u8, 15u8]);
}

/// The bits of the lanes of one swap of the mirror.
proof fn lemma_lr_bits_1()
    by (bit_vector)
    ensures
        edge_ops::spec_lane_set_eofb(3u8, 0, 0u8) == 3u8,
        edge_ops::spec_lane_set_eofb(1u8, 1, 0u8) == 1u8,
        edge_ops::spec_lane_set_eofb(2u8, 2, 0u8) == 2u8,
        edge_ops::spec_lane_set_eofb(0u8, 3, 0u8) == 0u8,
        edge_ops::spec_lane_set_eofb(4u8, 4, 0u8) == 4u8,
        edge_ops::spec_lane_set_eofb(5u8, 5, 0u8) == 5u8,
        edge_ops::spec_lane_set_eofb(6u8, 6, 0u8) == 6u8,
        edge_ops::spec_lane_set_eofb(7u8, 7, 0u8) == 7u8,
        edge_ops::spec_lane_set_eofb(8u8, 8, 0u8) == 8u8,
        edge_ops::spec_lane_set_eofb(9u8, 9, 0u8) == 9u8,
        edge_ops::spec_lane_set_eofb(10u8, 10, 0u8) == 10u8,
        edge_ops::spec_lane_set_eofb(11u8, 11, 0u8) == 11u8,
        edge_ops::spec_lane_set_eofb(12u8, 12, 0u8) == 12u8,
        edge_ops::spec_lane_set_eofb(13u8, 13, 0u8) == 13u8,
        edge_ops::spec_lane_set_eofb(14u8, 14, 0u8) == 14u8,
        edge_ops::spec_lane_set_eofb(15u8, 15, 0u8) == 15u8,
{
}

/// The bits of the lanes of one swap of the mirror.
proof fn lemma_lr_bits_2()
    by (bit_vector)
    ensures
        edge_ops::spec_lane_set_eofb(0u8, 0, 0u8) == 0u8,
        edge_ops::spec_lane_set_eofb(2u8, 1, 0u8) == 2u8,
        edge_ops::spec_lane_set_eofb(1u8, 2, 0u8) == 1u8,
        edge_ops::spec_lane_set_eofb(3u8, 3, 0u8) == 3u8,
        edge_ops::spec_lane_set_eofb(4u8, 4, 0u8) == 4u8,
        edge_ops::spec_lane_set_eofb(5u8, 5, 0u8) == 5u8,
        edge_ops::spec_lane_set_eofb(6u8, 6, 0u8) == 6u8,
        edge_ops::spec_lane_set_eofb(7u8, 7, 0u8) == 7u8,
        edge_ops::spec_lane_set_eofb(8u8, 8, 0u8) == 8u8,
        edge_ops::spec_lane_set_eofb(9u8, 9, 0u8) == 9u8,
        edge_ops::spec_lane_set_eofb(10u8, 10, 0u8) == 10u8,
        edge_ops::spec_lane_set_eofb(11u8, 11, 0u8) == 11u8,
        edge_ops::spec_lane_set_eofb(12u8, 12, 0u8) == 12u8,
        edge_ops::spec_lane_set_eofb(13u8, 13, 0u8) == 13u8,
        edge_ops::spec_lane_set_eofb(14u8, 14, 0u8) == 14u8,
        edge_ops::spec_lane_set_eofb(15u8, 15, 0u8) == 15u8,
{
}

/// The bits of the lanes of one swap of the mirror.
proof fn lemma_lr_bits_3()
    by (bit_vector)
    ensures
        edge_ops::spec_lane_set_eofb(0u8, 0, 0u8) == 0u8,
        edge_ops::spec_lane_set_eofb(1u8, 1, 0u8) == 1u8,
        edge_ops::spec_lane_set_eofb(2u8, 2, 0u8) == 2u8,
        edge_ops::spec_lane_set_eofb(3u8, 3, 0u8) == 3u8,
        edge_ops::spec_lane_set_eofb(4u8, 4, 0u8) == 4u8,
        edge_ops::spec_lane_set_eofb(5u8, 5, 0u8) == 5u8,
        edge_ops::spec_lane_set_eofb(6u8, 6, 0u8) == 6u8,
        edge_ops::spec_lane_set_eofb(7u8, 7, 0u8) == 7u8,
        edge_ops::spec_lane_set_eofb(11u8, 8, 0u8) == 11u8,
        edge_ops::spec_lane_set_eofb(9u8, 9, 0u8) == 9u8,
        edge_ops::spec_lane_set_eofb(10u8, 10, 0u8) == 10u8,
        edge_ops::spec_lane_set_eofb(8u8, 11, 0u8) == 8u8,
        edge_ops::spec_lane_set_eofb(12u8, 12, 0u8) == 12u8,
        edge_ops::spec_lane_set_eofb(13u8, 13, 0u8) == 13u8,
        edge_ops::spec_lane_set_eofb(14u8, 14, 0u8) == 14u8,
        edge_ops::spec_lane_set_eofb(15u8, 15, 0u8) == 15u8,
{
}

/// The bits of the lanes of one swap of the mirror.
proof fn lemma_lr_bits_4()
    by (bit_vector)
    ensures
        edge_ops::spec_lane_set_eofb(0u8, 0, 0u8) == 0u8,
        edge_ops::spec_lane_set_eofb(1u8, 1, 0u8) == 1u8,
        edge_ops::spec_lane_set_eofb(2u8, 2, 0u8) == 2u8,
        edge_ops::spec_lane_set_eofb(3u8, 3, 0u8) == 3u8,
        edge_ops::spec_lane_set_eofb(4u8, 4, 0u8) == 4u8,
        edge_ops::spec_lane_set_eofb(5u8, 5, 0u8) == 5u8,
        edge_ops::spec_lane_set_eofb(6u8, 6, 0u8) == 6u8,
        edge_ops::spec_lane_set_eofb(7u8, 7, 0u8) == 7u8,
        edge_ops::spec_lane_set_eofb(8u8, 8, 0u8) == 8u8,
        edge_ops::spec_lane_set_eofb(10u8, 9, 0u8) == 10u8,
        edge_ops::spec_lane_set_eofb(9u8, 10, 0u8) == 9u8,
        edge_ops::spec_lane_set_eofb(11u8, 11, 0u8) == 11u8,
        edge_ops::spec_lane_set_eofb(12u8, 12, 0u8) == 12u8,
        edge_ops::spec_lane_set_eofb(13u8, 13, 0u8) == 13u8,
        edge_ops::spec_lane_set_eofb(14u8, 14, 0u8) == 14u8,
        edge_ops::spec_lane_set_eofb(15u8, 15, 0u8) == 15u8,
{
}


/// The edge lanes of one swap of the mirror.
#[verifier::spinoff_prover]
proof fn lemma_lr_swap_1()
    ensures
        edges_model::spec_cycle_eofb(seq![Edge::UL, Edge::UR]) == seq![3u8, 1u8, 2u8, 0u8, 4u8, 5u8, 6u8, 7u8, 8u8, 9u8, 10u8, 11u8, 12u8, 13u8, 14u8, 15u8],
{
    reveal_with_fuel(edges_model::spec_cycle_slot, 3);
    lemma_lr_bits_1();
    assert(edges_model::spec_cycle_lanes(seq![Edge::UL, Edge::UR]) =~= seq![3u8, 1u8, 2u8, 0u8, 4u8, 5u8, 6u8, 7u8, 8u8, 9u8, 10u8, 11u8, 12u8, 13u8, 14u8, 15u8]);
    assert(edges_model::spec_cycle_eofb(seq![Edge::UL, Edge::UR]) =~= seq![3u8, 1u8, 2u8, 0u8, 4u8, 5u8, 6u8, 7u8, 8u8, 9u8, 10u8, 11u8, 12u8, 13u8, 14u8, 15u8]);
}

/// The edge lanes of one swap of the mirror.
#[verifier::spinoff_prover]
proof fn lemma_lr_swap_2()
    ensures
        edges_model::spec_cycle_eofb(seq![Edge::DL, Edge::DR]) == seq![0u8, 2u8, 1u8, 3u8, 4u8, 5u8, 6u8, 7u8, 8u8, 9u8, 10u8, 11u8, 12u8, 13u8, 14u8, 15u8],
{
    reveal_with_fuel(edges_model::spec_cycle_slot, 3);
    lemma_lr_bits_2();
    assert(edges_model::spec_cycle_lanes(seq![Edge::DL, Edge::DR]) =~= seq![0u8, 2u8, 1u8, 3u8, 4u8, 5u8, 6u8, 7u8, 8u8, 9u8, 10u8, 11u8, 12u8, 13u8, 14u8, 15u8]);
    assert(edges_model::spec_cycle_eofb(seq![Edge::DL, Edge::DR]) =~= seq![0u8, 2u8, 1u8, 3u8, 4u8, 5u8, 6u8, 7u8, 8u8, 9u8, 10u8, 11u8, 12u8, 13u8, 14u8, 15u8]);
}

/// The edge lanes of one swap of the mirror.
#[verifier::spinoff_prover]
proof fn lemma_lr_swap_3()
    ensures
        edges_model::spec_cycle_eofb(seq![Edge::FL, Edge::FR]) == seq![0u8, 1u8, 2u8, 3u8, 4u8, 5u8, 6u8, 7u8, 11u8, 9u8, 10u8, 8u8, 12u8, 13u8, 14u8, 15u8],
{
    reveal_with_fuel(edges_model::spec_cycle_slot, 3);
    lemma_lr_bits_3();
    assert(edges_model::spec_cycle_lanes(seq![Edge::FL, Edge::FR]) =~= seq![0u8, 1u8, 2u8, 3u8, 4u8, 5u8, 6u8, 7u8, 11u8, 9u8, 10u8, 8u8, 12u8, 13u8, 14u8, 15u8]);
    assert(edges_model::spec_cycle_eofb(seq![Edge::FL, Edge::FR]) =~= seq![0u8, 1u8, 2u8, 3u8, 4u8, 5u8, 6u8, 7u8, 11u8, 9u8, 10u8, 8u8, 12u8, 13u8, 14u8, 15u8]);
}

/// The edge lanes of one swap of the mirror.
#[verifier::spinoff_prover]
proof fn lemma_lr_swap_4()
    ensures
        edges_model::spec_cycle_eofb(seq![Edge::BL, Edge::BR]) == seq![0u8, 1u8, 2u8, 3u8, 4u8, 5u8, 6u8, 7u8, 8u8, 10u8, 9u8, 11u8, 12u8, 13u8, 14u8, 15u8],
{
    reveal_with_fuel(edges_model::spec_cycle_slot, 3);
    lemma_lr_bits_4();
    assert(edges_model::spec_cycle_lanes(seq![Edge::BL, Edge::BR]) =~= seq![0u8, 1u8, 2u8, 3u8, 4u8, 5u8, 6u8, 7u8, 8u8, 10u8, 9u8, 11u8, 12u8, 13u8, 14u8, 15u8]);
    assert(edges_model::spec_cycle_eofb(seq![Edge::BL, Edge::BR]) =~= seq![0u8, 1u8, 2u8, 3u8, 4u8, 5u8, 6u8, 7u8, 8u8, 10u8, 9u8, 11u8, 12u8, 13u8, 14u8, 15u8]);
}

/// One step of building the mirror's edges.
#[verifier::spinoff_prover]
proof fn lemma_lr_step_1()
    ensures
        edge_ops::spec_compose(seq![3u8, 1u8, 2u8, 0u8, 4u8, 5u8, 6u8, 7u8, 8u8, 9u8, 10u8, 11u8, 12u8, 13u8, 14u8, 15u8], seq![0u8, 2u8, 1u8, 3u8, 4u8, 5u8, 6u8, 7u8, 8u8, 9u8, 10u8, 11u8, 12u8, 13u8, 14u8, 15u8]) == seq![3u8, 2u8, 1u8, 0u8, 4u8, 5u8, 6u8, 7u8, 8u8, 9u8, 10u8, 11u8, 12u8, 13u8, 14u8, 15u8],
{
    edges_model::lemma_edge_composes_to(seq![3u8, 1u8, 2u8, 0u8, 4u8, 5u8, 6u8, 7u8, 8u8, 9u8, 10u8, 11u8, 12u8, 13u8, 14u8, 15u8], seq![0u8, 2u8, 1u8, 3u8, 4u8, 5u8, 6u8, 7u8, 8u8, 9u8, 10u8, 11u8, 12u8, 13u8, 14u8, 15u8], seq![3u8, 2u8, 1u8, 0u8, 4u8, 5u8, 6u8, 7u8, 8u8, 9u8, 10u8, 11u8, 12u8, 13u8, 14u8, 15u8]);
}

/// One step of building the mirror's edges.
#[verifier::spinoff_prover]
proof fn lemma_lr_step_2()
    ensures
        edge_ops::spec_compose(seq![3u8, 2u8, 1u8, 0u8, 4u8, 5u8, 6u8, 7u8, 8u8, 9u8, 10u8, 11u8, 12u8, 13u8, 14u8, 15u8], seq![0u8, 1u8, 2u8, 3u8, 4u8, 5u8, 6u8, 7u8, 11u8, 9u8, 10u8, 8u8, 12u8, 13u8, 14u8, 15u8]) == seq![3u8, 2u8, 1u8, 0u8, 4u8, 5u8, 6u8, 7u8, 11u8, 9u8, 10u8, 8u8, 12u8, 13u8, 14u8, 15u8],
{
    edges_model::lemma_edge_composes_to(seq![3u8, 2u8, 1u8, 0u8, 4u8, 5u8, 6u8, 7u8, 8u8, 9u8, 10u8, 11u8, 12u8, 13u8, 14u8, 15u8], seq![0u8, 1u8, 2u8, 3u8, 4u8, 5u8, 6u8, 7u8, 11u8, 9u8, 10u8, 8u8, 12u8, 13u8, 14u8, 15u8], seq![3u8, 2u8, 1u8, 0u8, 4u8, 5u8, 6u8, 7u8, 11u8, 9u8, 10u8, 8u8, 12u8, 13u8, 14u8, 15u8]);
}

/// One step of building the mirror's edges.
#[verifier::spinoff_prover]
proof fn lemma_lr_step_3()
    ensures
        edge_ops::spec_compose(seq![3u8, 2u8, 1u8, 0u8, 4u8, 5u8, 6u8, 7u8, 11u8, 9u8, 10u8, 8u8, 12u8, 13u8, 14u8, 15u8], seq![0u8, 1u8, 2u8, 3u8, 4u8, 5u8, 6u8, 7u8, 8u8, 10u8, 9u8, 11u8, 12u8, 13u8, 14u8, 15u8]) == seq![3u8, 2u8, 1u8, 0u8, 4u8, 5u8, 6u8, 7u8, 11u8, 10u8, 9u8, 8u8, 12u8, 13u8, 14u8, 15u8],
{
    edges_model::lemma_edge_composes_to(seq![3u8, 2u8, 1u8, 0u8, 4u8, 5u8, 6u8, 7u8, 11u8, 9u8, 10u8, 8u8, 12u8, 13u8, 14u8, 15u8], seq![0u8, 1u8, 2u8, 3u8, 4u8, 5u8, 6u8, 7u8, 8u8, 10u8, 9u8, 11u8, 12u8, 13u8, 14u8, 15u8], seq![3u8, 2u8, 1u8, 0u8, 4u8, 5u8, 6u8, 7u8, 11u8, 10u8, 9u8, 8u8, 12u8, 13u8, 14u8, 15u8]);
}

/// The edge lanes of the mirror.
proof fn lemma_lr_edges()
    ensures
        spec_lr().0 == seq![3u8, 2u8, 1u8, 0u8, 4u8, 5u8, 6u8, 7u8, 11u8, 10u8, 9u8, 8u8, 12u8, 13u8, 14u8, 15u8],
{
    lemma_lr_swap_1();
    lemma_lr_swap_2();
    lemma_lr_swap_3();
    lemma_lr_swap_4();
    lemma_lr_step_1();
    lemma_lr_step_2();
    lemma_lr_step_3();
}

/// The edge lanes of the solved cube after R L3.
#[verifier::spinoff_prover]
proof fn lemma_alg_edges_rl3()
    ensures
        spec_alg_lanes(seq![Move::R, Move::L3]).0 == seq![40u8, 41u8, 42u8, 43u8, 4u8, 5u8, 6u8, 7u8, 33u8, 32u8, 35u8, 34u8, 12u8, 13u8, 14u8, 15u8],
{
    reveal_with_fuel(edges_model::spec_apply_moves, 3);
    let ms = seq![Move::R, Move::L3];
    assert(ms.drop_last() =~= seq![Move::R]);
    assert(ms.drop_last().drop_last() =~= Seq::<Move>::empty());
    edges_model::lemma_move_lanes_r();
    edges_model::lemma_move_lanes_l3();
    assert(edge_ops::spec_ident() =~= seq![0u8, 1u8, 2u8, 3u8, 4u8, 5u8, 6u8, 7u8, 8u8, 9u8, 10u8, 11u8, 12u8, 13u8, 14u8, 15u8]);
    edges_model::lemma_edge_composes_to(seq![0u8, 1u8, 2u8, 3u8, 4u8, 5u8, 6u8, 7u8, 8u8, 9u8, 10u8, 11u8, 12u8, 13u8, 14u8, 15u8], seq![40u8, 41u8, 2u8, 3u8, 4u8, 5u8, 6u8, 7u8, 33u8, 32u8, 10u8, 11u8, 12u8, 13u8, 14u8, 15u8], seq![40u8, 41u8, 2u8, 3u8, 4u8, 5u8, 6u8, 7u8, 33u8, 32u8, 10u8, 11u8, 12u8, 13u8, 14u8, 15u8]);
    edges_model::lemma_edge_composes_to(seq![40u8, 41u8, 2u8, 3u8, 4u8, 5u8, 6u8, 7u8, 33u8, 32u8, 10u8, 11u8, 12u8, 13u8, 14u8, 15u8], seq![0u8, 1u8, 42u8, 43u8, 4u8, 5u8, 6u8, 7u8, 8u8, 9u8, 35u8, 34u8, 12u8, 13u8, 14u8, 15u8], seq![40u8, 41u8, 42u8, 43u8, 4u8, 5u8, 6u8, 7u8, 33u8, 32u8, 35u8, 34u8, 12u8, 13u8, 14u8, 15u8]);
}

/// The edge lanes of the solved cube after U D3.
#[verifier::spinoff_prover]
proof fn lemma_alg_edges_ud3()
    ensures
        spec_alg_lanes(seq![Move::U, Move::D3]).0 == seq![71u8, 70u8, 69u8, 68u8, 64u8, 65u8, 66u8, 67u8, 8u8, 9u8, 10u8, 11u8, 12u8, 13u8, 14u8, 15u8],
{
    reveal_with_fuel(edges_model::spec_apply_moves, 3);
    let ms = seq![Move::U, Move::D3];
    assert(ms.drop_last() =~= seq![Move::U]);
    assert(ms.drop_last().drop_last() =~= Seq::<Move>::empty());
    edges_model::lemma_move_lanes_u();
    edges_model::lemma_move_lanes_d3();
    assert(edge_ops::spec_ident() =~= seq![0u8, 1u8, 2u8, 3u8, 4u8, 5u8, 6u8, 7u8, 8u8, 9u8, 10u8, 11u8, 12u8, 13u8, 14u8, 15u8]);
    edges_model::lemma_edge_composes_to(seq![0u8, 1u8, 2u8, 3u8, 4u8, 5u8, 6u8, 7u8, 8u8, 9u8, 10u8, 11u8, 12u8, 13u8, 14u8, 15u8], seq![71u8, 1u8, 2u8, 68u8, 64u8, 5u8, 6u8, 67u8, 8u8, 9u8, 10u8, 11u8, 12u8, 13u8, 14u8, 15u8], seq![71u8, 1u8, 2u8, 68u8, 64u8, 5u8, 6u8, 67u8, 8u8, 9u8, 10u8, 11u8, 12u8, 13u8, 14u8, 15u8]);
    edges_model::lemma_edge_composes_to(seq![71u8, 1u8, 2u8, 68u8, 64u8, 5u8, 6u8, 67u8, 8u8, 9u8, 10u8, 11u8, 12u8, 13u8, 14u8, 15u8], seq![0u8, 70u8, 69u8, 3u8, 4u8, 65u8, 66u8, 7u8, 8u8, 9u8, 10u8, 11u8, 12u8, 13u8, 14u8, 15u8], seq![71u8, 70u8, 69u8, 68u8, 64u8, 65u8, 66u8, 67u8, 8u8, 9u8, 10u8, 11u8, 12u8, 13u8, 14u8, 15u8]);
}

/// The edge lanes of the solved cube after F B3.
#[verifier::spinoff_prover]
proof fn lemma_alg_edges_fb3()
    ensures
        spec_alg_lanes(seq![Move::F, Move::B3]).0 == seq![0u8, 1u8, 2u8, 3u8, 27u8, 24u8, 25u8, 26u8, 20u8, 23u8, 22u8, 21u8, 12u8, 13u8, 14u8, 15u8],
{
    reveal_with_fuel(edges_model::spec_apply_moves, 3);
    let ms = seq![Move::F, Move::B3];
    assert(ms.drop_last() =~= seq![Move::F]);
    assert(ms.drop_last().drop_last() =~= Seq::<Move>::empty());
    edges_model::lemma_move_lanes_f();
    edges_model::lemma_move_lanes_b3();
    assert(edge_ops::spec_ident() =~= seq![0u8, 1u8, 2u8, 3u8, 4u8, 5u8, 6u8, 7u8, 8u8, 9u8, 10u8, 11u8, 12u8, 13u8, 14u8, 15u8]);
    edges_model::lemma_edge_composes_to(seq![0u8, 1u8, 2u8, 3u8, 4u8, 5u8, 6u8, 7u8, 8u8, 9u8, 10u8, 11u8, 12u8, 13u8, 14u8, 15u8], seq![0u8, 1u8, 2u8, 3u8, 27u8, 24u8, 6u8, 7u8, 20u8, 9u8, 10u8, 21u8, 12u8, 13u8, 14u8, 15u8], seq![0u8, 1u8, 2u8, 3u8, 27u8, 24u8, 6u8, 7u8, 20u8, 9u8, 10u8, 21u8, 12u8, 13u8, 14u8, 15u8]);
    edges_model::lemma_edge_composes_to(seq![0u8, 1u8, 2u8, 3u8, 27u8, 24u8, 6u8, 7u8, 20u8, 9u8, 10u8, 21u8, 12u8, 13u8, 14u8, 15u8], seq![0u8, 1u8, 2u8, 3u8, 4u8, 5u8, 25u8, 26u8, 8u8, 23u8, 22u8, 11u8, 12u8, 13u8, 14u8, 15u8], seq![0u8, 1u8, 2u8, 3u8, 27u8, 24u8, 25u8, 26u8, 20u8, 23u8, 22u8, 21u8, 12u8, 13u8, 14u8, 15u8]);
}

/// The edge lanes of symmetry UF.
proof fn lemma_sym_edges_uf()
    ensures
        spec_sym_cube(Sym::UF).0 == seq![0u8, 1u8, 2u8, 3u8, 4u8, 5u8, 6u8, 7u8, 8u8, 9u8, 10u8, 11u8, 12u8, 13u8, 14u8, 15u8],
{
    assert(edge_ops::spec_ident() =~= seq![0u8, 1u8, 2u8, 3u8, 4u8, 5u8, 6u8, 7u8, 8u8, 9u8, 10u8, 11u8, 12u8, 13u8, 14u8, 15u8]);
}

/// The edge lanes of symmetry FD.
#[verifier::spinoff_prover]
#[verifier::rlimit(50)]
proof fn lemma_sym_edges_fd()
    ensures
        spec_sym_cube(Sym::FD).0 == seq![40u8, 41u8, 42u8, 43u8, 117u8, 118u8, 119u8, 116u8, 33u8, 32u8, 35u8, 34u8, 12u8, 13u8, 14u8, 15u8],
{
    lemma_alg_edges_rl3();
    lemma_m3_edges();
    edges_model::lemma_edge_composes_to(seq![40u8, 41u8, 42u8, 43u8, 4u8, 5u8, 6u8, 7u8, 33u8, 32u8, 35u8, 34u8, 12u8, 13u8, 14u8, 15u8], seq![0u8, 1u8, 2u8, 3u8, 117u8, 118u8, 119u8, 116u8, 8u8, 9u8, 10u8, 11u8, 12u8, 13u8, 14u8, 15u8], seq![40u8, 41u8, 42u8, 43u8, 117u8, 118u8, 119u8, 116u8, 33u8, 32u8, 35u8, 34u8, 12u8, 13u8, 14u8, 15u8]);
}

/// The edge lanes of symmetry DB.
#[verifier::spinoff_prover]
#[verifier::rlimit(50)]
proof fn lemma_sym_edges_db()
    ensures
        spec_sym_cube(Sym::DB).0 == seq![1u8, 0u8, 3u8, 2u8, 6u8, 7u8, 4u8, 5u8, 9u8, 8u8, 11u8, 10u8, 12u8, 13u8, 14u8, 15u8],
{
    lemma_sym_edges_fd();
    lemma_sym_edges_fd();
    edges_model::lemma_edge_composes_to(seq![40u8, 41u8, 42u8, 43u8, 117u8, 118u8, 119u8, 116u8, 33u8, 32u8, 35u8, 34u8, 12u8, 13u8, 14u8, 15u8], seq![40u8, 41u8, 42u8, 43u8, 117u8, 118u8, 119u8, 116u8, 33u8, 32u8, 35u8, 34u8, 12u8, 13u8, 14u8, 15u8], seq![1u8, 0u8, 3u8, 2u8, 6u8, 7u8, 4u8, 5u8, 9u8, 8u8, 11u8, 10u8, 12u8, 13u8, 14u8, 15u8]);
}

/// The edge lanes of symmetry BU.
#[verifier::spinoff_prover]
#[verifier::rlimit(50)]
proof fn lemma_sym_edges_bu()
    ensures
        spec_sym_cube(Sym::BU).0 == seq![41u8, 40u8, 43u8, 42u8, 119u8, 116u8, 117u8, 118u8, 32u8, 33u8, 34u8, 35u8, 12u8, 13u8, 14u8, 15u8],
{
    lemma_sym_edges_db();
    lemma_sym_edges_fd();
    edges_model::lemma_edge_composes_to(seq![1u8, 0u8, 3u8, 2u8, 6u8, 7u8, 4u8, 5u8, 9u8, 8u8, 11u8, 10u8, 12u8, 13u8, 14u8, 15u8], seq![40u8, 41u8, 42u8, 43u8, 117u8, 118u8, 119u8, 116u8, 33u8, 32u8, 35u8, 34u8, 12u8, 13u8, 14u8, 15u8], seq![41u8, 40u8, 43u8, 42u8, 119u8, 116u8, 117u8, 118u8, 32u8, 33u8, 34u8, 35u8, 12u8, 13u8, 14u8, 15u8]);
}

/// The edge lanes of symmetry UR.
#[verifier::spinoff_prover]
#[verifier::rlimit(50)]
proof fn lemma_sym_edges_ur()
    ensures
        spec_sym_cube(Sym::UR).0 == seq![71u8, 70u8, 69u8, 68u8, 64u8, 65u8, 66u8, 67u8, 121u8, 122u8, 123u8, 120u8, 12u8, 13u8, 14u8, 15u8],
{
    lemma_alg_edges_ud3();
    lemma_e3_edges();
    edges_model::lemma_edge_composes_to(seq![71u8, 70u8, 69u8, 68u8, 64u8, 65u8, 66u8, 67u8, 8u8, 9u8, 10u8, 11u8, 12u8, 13u8, 14u8, 15u8], seq![0u8, 1u8, 2u8, 3u8, 4u8, 5u8, 6u8, 7u8, 121u8, 122u8, 123u8, 120u8, 12u8, 13u8, 14u8, 15u8], seq![71u8, 70u8, 69u8, 68u8, 64u8, 65u8, 66u8, 67u8, 121u8, 122u8, 123u8, 120u8, 12u8, 13u8, 14u8, 15u8]);
}

/// The edge lanes of symmetry UB.
#[verifier::spinoff_prover]
#[verifier::rlimit(50)]
proof fn lemma_sym_edges_ub()
    ensures
        spec_sym_cube(Sym::UB).0 == seq![3u8, 2u8, 1u8, 0u8, 7u8, 6u8, 5u8, 4u8, 10u8, 11u8, 8u8, 9u8, 12u8, 13u8, 14u8, 15u8],
{
    lemma_sym_edges_ur();
    lemma_sym_edges_ur();
    edges_model::lemma_edge_composes_to(seq![71u8, 70u8, 69u8, 68u8, 64u8, 65u8, 66u8, 67u8, 121u8, 122u8, 123u8, 120u8, 12u8, 13u8, 14u8, 15u8], seq![71u8, 70u8, 69u8, 68u8, 64u8, 65u8, 66u8, 67u8, 121u8, 122u8, 123u8, 120u8, 12u8, 13u8, 14u8, 15u8], seq![3u8, 2u8, 1u8, 0u8, 7u8, 6u8, 5u8, 4u8, 10u8, 11u8, 8u8, 9u8, 12u8, 13u8, 14u8, 15u8]);
}

/// The edge lanes of symmetry UL.
#[verifier::spinoff_prover]
#[verifier::rlimit(50)]
proof fn lemma_sym_edges_ul()
    ensures
        spec_sym_cube(Sym::UL).0 == seq![68u8, 69u8, 70u8, 71u8, 67u8, 66u8, 65u8, 64u8, 123u8, 120u8, 121u8, 122u8, 12u8, 13u8, 14u8, 15u8],
{
    lemma_sym_edges_ub();
    lemma_sym_edges_ur();
    edges_model::lemma_edge_composes_to(seq![3u8, 2u8, 1u8, 0u8, 7u8, 6u8, 5u8, 4u8, 10u8, 11u8, 8u8, 9u8, 12u8, 13u8, 14u8, 15u8], seq![71u8, 70u8, 69u8, 68u8, 64u8, 65u8, 66u8, 67u8, 121u8, 122u8, 123u8, 120u8, 12u8, 13u8, 14u8, 15u8], seq![68u8, 69u8, 70u8, 71u8, 67u8, 66u8, 65u8, 64u8, 123u8, 120u8, 121u8, 122u8, 12u8, 13u8, 14u8, 15u8]);
}

/// The edge lanes of symmetry LF.
#[verifier::spinoff_prover]
#[verifier::rlimit(50)]
proof fn lemma_sym_edges_lf()
    ensures
        spec_sym_cube(Sym::LF).0 == seq![115u8, 112u8, 113u8, 114u8, 27u8, 24u8, 25u8, 26u8, 20u8, 23u8, 22u8, 21u8, 12u8, 13u8, 14u8, 15u8],
{
    lemma_alg_edges_fb3();
    lemma_s_edges();
    edges_model::lemma_edge_composes_to(seq![0u8, 1u8, 2u8, 3u8, 27u8, 24u8, 25u8, 26u8, 20u8, 23u8, 22u8, 21u8, 12u8, 13u8, 14u8, 15u8], seq![115u8, 112u8, 113u8, 114u8, 4u8, 5u8, 6u8, 7u8, 8u8, 9u8, 10u8, 11u8, 12u8, 13u8, 14u8, 15u8], seq![115u8, 112u8, 113u8, 114u8, 27u8, 24u8, 25u8, 26u8, 20u8, 23u8, 22u8, 21u8, 12u8, 13u8, 14u8, 15u8]);
}

/// The edge lanes of symmetry DF.
#[verifier::spinoff_prover]
#[verifier::rlimit(50)]
proof fn lemma_sym_edges_df()
    ensures
        spec_sym_cube(Sym::DF).0 == seq![2u8, 3u8, 0u8, 1u8, 5u8, 4u8, 7u8, 6u8, 11u8, 10u8, 9u8, 8u8, 12u8, 13u8, 14u8, 15u8],
{
    lemma_sym_edges_lf();
    lemma_sym_edges_lf();
    edges_model::lemma_edge_composes_to(seq![115u8, 112u8, 113u8, 114u8, 27u8, 24u8, 25u8, 26u8, 20u8, 23u8, 22u8, 21u8, 12u8, 13u8, 14u8, 15u8], seq![115u8, 112u8, 113u8, 114u8, 27u8, 24u8, 25u8, 26u8, 20u8, 23u8, 22u8, 21u8, 12u8, 13u8, 14u8, 15u8], seq![2u8, 3u8, 0u8, 1u8, 5u8, 4u8, 7u8, 6u8, 11u8, 10u8, 9u8, 8u8, 12u8, 13u8, 14u8, 15u8]);
}

/// The edge lanes of symmetry RF.
#[verifier::spinoff_prover]
#[verifier::rlimit(50)]
proof fn lemma_sym_edges_rf()
    ensures
        spec_sym_cube(Sym::RF).0 == seq![113u8, 114u8, 115u8, 112u8, 24u8, 27u8, 26u8, 25u8, 21u8, 22u8, 23u8, 20u8, 12u8, 13u8, 14u8, 15u8],
{
    lemma_sym_edges_df();
    lemma_sym_edges_lf();
    edges_model::lemma_edge_composes_to(seq![2u8, 3u8, 0u8, 1u8, 5u8, 4u8, 7u8, 6u8, 11u8, 10u8, 9u8, 8u8, 12u8, 13u8, 14u8, 15u8], seq![115u8, 112u8, 113u8, 114u8, 27u8, 24u8, 25u8, 26u8, 20u8, 23u8, 22u8, 21u8, 12u8, 13u8, 14u8, 15u8], seq![113u8, 114u8, 115u8, 112u8, 24u8, 27u8, 26u8, 25u8, 21u8, 22u8, 23u8, 20u8, 12u8, 13u8, 14u8, 15u8]);
}

/// The edge lanes of symmetry DR.
#[verifier::spinoff_prover]
#[verifier::rlimit(50)]
proof fn lemma_sym_edges_dr()
    ensures
        spec_sym_cube(Sym::DR).0 == seq![69u8, 68u8, 71u8, 70u8, 65u8, 64u8, 67u8, 66u8, 120u8, 123u8, 122u8, 121u8, 12u8, 13u8, 14u8, 15u8],
{
    lemma_sym_edges_ul();
    lemma_sym_edges_db();
    edges_model::lemma_edge_composes_to(seq![68u8, 69u8, 70u8, 71u8, 67u8, 66u8, 65u8, 64u8, 123u8, 120u8, 121u8, 122u8, 12u8, 13u8, 14u8, 15u8], seq![1u8, 0u8, 3u8, 2u8, 6u8, 7u8, 4u8, 5u8, 9u8, 8u8, 11u8, 10u8, 12u8, 13u8, 14u8, 15u8], seq![69u8, 68u8, 71u8, 70u8, 65u8, 64u8, 67u8, 66u8, 120u8, 123u8, 122u8, 121u8, 12u8, 13u8, 14u8, 15u8]);
}

/// The edge lanes of symmetry DL.
#[verifier::spinoff_prover]
#[verifier::rlimit(50)]
proof fn lemma_sym_edges_dl()
    ensures
        spec_sym_cube(Sym::DL).0 == seq![70u8, 71u8, 68u8, 69u8, 66u8, 67u8, 64u8, 65u8, 122u8, 121u8, 120u8, 123u8, 12u8, 13u8, 14u8, 15u8],
{
    lemma_sym_edges_ur();
    lemma_sym_edges_db();
    edges_model::lemma_edge_composes_to(seq![71u8, 70u8, 69u8, 68u8, 64u8, 65u8, 66u8, 67u8, 121u8, 122u8, 123u8, 120u8, 12u8, 13u8, 14u8, 15u8], seq![1u8, 0u8, 3u8, 2u8, 6u8, 7u8, 4u8, 5u8, 9u8, 8u8, 11u8, 10u8, 12u8, 13u8, 14u8, 15u8], seq![70u8, 71u8, 68u8, 69u8, 66u8, 67u8, 64u8, 65u8, 122u8, 121u8, 120u8, 123u8, 12u8, 13u8, 14u8, 15u8]);
}

/// The edge lanes of symmetry RU.
#[verifier::spinoff_prover]
#[verifier::rlimit(50)]
proof fn lemma_sym_edges_ru()
    ensures
        spec_sym_cube(Sym::RU).0 == seq![88u8, 91u8, 90u8, 89u8, 48u8, 51u8, 50u8, 49u8, 100u8, 101u8, 102u8, 103u8, 12u8, 13u8, 14u8, 15u8],
{
    lemma_sym_edges_ul();
    lemma_sym_edges_bu();
    edges_model::lemma_edge_composes_to(seq![68u8, 69u8, 70u8, 71u8, 67u8, 66u8, 65u8, 64u8, 123u8, 120u8, 121u8, 122u8, 12u8, 13u8, 14u8, 15u8], seq![41u8, 40u8, 43u8, 42u8, 119u8, 116u8, 117u8, 118u8, 32u8, 33u8, 34u8, 35u8, 12u8, 13u8, 14u8, 15u8], seq![88u8, 91u8, 90u8, 89u8, 48u8, 51u8, 50u8, 49u8, 100u8, 101u8, 102u8, 103u8, 12u8, 13u8, 14u8, 15u8]);
}

/// The edge lanes of symmetry LU.
#[verifier::spinoff_prover]
#[verifier::rlimit(50)]
proof fn lemma_sym_edges_lu()
    ensures
        spec_sym_cube(Sym::LU).0 == seq![90u8, 89u8, 88u8, 91u8, 51u8, 48u8, 49u8, 50u8, 103u8, 102u8, 101u8, 100u8, 12u8, 13u8, 14u8, 15u8],
{
    lemma_sym_edges_ur();
    lemma_sym_edges_bu();
    edges_model::lemma_edge_composes_to(seq![71u8, 70u8, 69u8, 68u8, 64u8, 65u8, 66u8, 67u8, 121u8, 122u8, 123u8, 120u8, 12u8, 13u8, 14u8, 15u8], seq![41u8, 40u8, 43u8, 42u8, 119u8, 116u8, 117u8, 118u8, 32u8, 33u8, 34u8, 35u8, 12u8, 13u8, 14u8, 15u8], seq![90u8, 89u8, 88u8, 91u8, 51u8, 48u8, 49u8, 50u8, 103u8, 102u8, 101u8, 100u8, 12u8, 13u8, 14u8, 15u8]);
}

/// The edge lanes of symmetry LD.
#[verifier::spinoff_prover]
#[verifier::rlimit(50)]
proof fn lemma_sym_edges_ld()
    ensures
        spec_sym_cube(Sym::LD).0 == seq![91u8, 88u8, 89u8, 90u8, 50u8, 49u8, 48u8, 51u8, 101u8, 100u8, 103u8, 102u8, 12u8, 13u8, 14u8, 15u8],
{
    lemma_sym_edges_ul();
    lemma_sym_edges_fd();
    edges_model::lemma_edge_composes_to(seq![68u8, 69u8, 70u8, 71u8, 67u8, 66u8, 65u8, 64u8, 123u8, 120u8, 121u8, 122u8, 12u8, 13u8, 14u8, 15u8], seq![40u8, 41u8, 42u8, 43u8, 117u8, 118u8, 119u8, 116u8, 33u8, 32u8, 35u8, 34u8, 12u8, 13u8, 14u8, 15u8], seq![91u8, 88u8, 89u8, 90u8, 50u8, 49u8, 48u8, 51u8, 101u8, 100u8, 103u8, 102u8, 12u8, 13u8, 14u8, 15u8]);
}

/// The edge lanes of symmetry RD.
#[verifier::spinoff_prover]
#[verifier::rlimit(50)]
proof fn lemma_sym_edges_rd()
    ensures
        spec_sym_cube(Sym::RD).0 == seq![89u8, 90u8, 91u8, 88u8, 49u8, 50u8, 51u8, 48u8, 102u8, 103u8, 100u8, 101u8, 12u8, 13u8, 14u8, 15u8],
{
    lemma_sym_edges_ur();
    lemma_sym_edges_fd();
    edges_model::lemma_edge_composes_to(seq![71u8, 70u8, 69u8, 68u8, 64u8, 65u8, 66u8, 67u8, 121u8, 122u8, 123u8, 120u8, 12u8, 13u8, 14u8, 15u8], seq![40u8, 41u8, 42u8, 43u8, 117u8, 118u8, 119u8, 116u8, 33u8, 32u8, 35u8, 34u8, 12u8, 13u8, 14u8, 15u8], seq![89u8, 90u8, 91u8, 88u8, 49u8, 50u8, 51u8, 48u8, 102u8, 103u8, 100u8, 101u8, 12u8, 13u8, 14u8, 15u8]);
}

/// The edge lanes of symmetry BL.
#[verifier::spinoff_prover]
#[verifier::rlimit(50)]
proof fn lemma_sym_edges_bl()
    ensures
        spec_sym_cube(Sym::BL).0 == seq![55u8, 52u8, 53u8, 54u8, 106u8, 107u8, 104u8, 105u8, 83u8, 80u8, 81u8, 82u8, 12u8, 13u8, 14u8, 15u8],
{
    lemma_sym_edges_ul();
    lemma_sym_edges_lf();
    edges_model::lemma_edge_composes_to(seq![68u8, 69u8, 70u8, 71u8, 67u8, 66u8, 65u8, 64u8, 123u8, 120u8, 121u8, 122u8, 12u8, 13u8, 14u8, 15u8], seq![115u8, 112u8, 113u8, 114u8, 27u8, 24u8, 25u8, 26u8, 20u8, 23u8, 22u8, 21u8, 12u8, 13u8, 14u8, 15u8], seq![55u8, 52u8, 53u8, 54u8, 106u8, 107u8, 104u8, 105u8, 83u8, 80u8, 81u8, 82u8, 12u8, 13u8, 14u8, 15u8]);
}

/// The edge lanes of symmetry FR.
#[verifier::spinoff_prover]
#[verifier::rlimit(50)]
proof fn lemma_sym_edges_fr()
    ensures
        spec_sym_cube(Sym::FR).0 == seq![52u8, 55u8, 54u8, 53u8, 104u8, 105u8, 106u8, 107u8, 80u8, 83u8, 82u8, 81u8, 12u8, 13u8, 14u8, 15u8],
{
    lemma_sym_edges_ur();
    lemma_sym_edges_lf();
    edges_model::lemma_edge_composes_to(seq![71u8, 70u8, 69u8, 68u8, 64u8, 65u8, 66u8, 67u8, 121u8, 122u8, 123u8, 120u8, 12u8, 13u8, 14u8, 15u8], seq![115u8, 112u8, 113u8, 114u8, 27u8, 24u8, 25u8, 26u8, 20u8, 23u8, 22u8, 21u8, 12u8, 13u8, 14u8, 15u8], seq![52u8, 55u8, 54u8, 53u8, 104u8, 105u8, 106u8, 107u8, 80u8, 83u8, 82u8, 81u8, 12u8, 13u8, 14u8, 15u8]);
}

/// The edge lanes of symmetry FL.
#[verifier::spinoff_prover]
#[verifier::rlimit(50)]
proof fn lemma_sym_edges_fl()
    ensures
        spec_sym_cube(Sym::FL).0 == seq![53u8, 54u8, 55u8, 52u8, 107u8, 106u8, 105u8, 104u8, 82u8, 81u8, 80u8, 83u8, 12u8, 13u8, 14u8, 15u8],
{
    lemma_sym_edges_ul();
    lemma_sym_edges_rf();
    edges_model::lemma_edge_composes_to(seq![68u8, 69u8, 70u8, 71u8, 67u8, 66u8, 65u8, 64u8, 123u8, 120u8, 121u8, 122u8, 12u8, 13u8, 14u8, 15u8], seq![113u8, 114u8, 115u8, 112u8, 24u8, 27u8, 26u8, 25u8, 21u8, 22u8, 23u8, 20u8, 12u8, 13u8, 14u8, 15u8], seq![53u8, 54u8, 55u8, 52u8, 107u8, 106u8, 105u8, 104u8, 82u8, 81u8, 80u8, 83u8, 12u8, 13u8, 14u8, 15u8]);
}

/// The edge lanes of symmetry BR.
#[verifier::spinoff_prover]
#[verifier::rlimit(50)]
proof fn lemma_sym_edges_br()
    ensures
        spec_sym_cube(Sym::BR).0 == seq![54u8, 53u8, 52u8, 55u8, 105u8, 104u8, 107u8, 106u8, 81u8, 82u8, 83u8, 80u8, 12u8, 13u8, 14u8, 15u8],
{
    lemma_sym_edges_ur();
    lemma_sym_edges_rf();
    edges_model::lemma_edge_composes_to(seq![71u8, 70u8, 69u8, 68u8, 64u8, 65u8, 66u8, 67u8, 121u8, 122u8, 123u8, 120u8, 12u8, 13u8, 14u8, 15u8], seq![113u8, 114u8, 115u8, 112u8, 24u8, 27u8, 26u8, 25u8, 21u8, 22u8, 23u8, 20u8, 12u8, 13u8, 14u8, 15u8], seq![54u8, 53u8, 52u8, 55u8, 105u8, 104u8, 107u8, 106u8, 81u8, 82u8, 83u8, 80u8, 12u8, 13u8, 14u8, 15u8]);
}

/// The edge lanes of symmetry FU.
#[verifier::spinoff_prover]
#[verifier::rlimit(50)]
proof fn lemma_sym_edges_fu()
    ensures
        spec_sym_cube(Sym::FU).0 == seq![43u8, 42u8, 41u8, 40u8, 116u8, 119u8, 118u8, 117u8, 35u8, 34u8, 33u8, 32u8, 12u8, 13u8, 14u8, 15u8],
{
    lemma_sym_edges_ub();
    lemma_sym_edges_bu();
    edges_model::lemma_edge_composes_to(seq![3u8, 2u8, 1u8, 0u8, 7u8, 6u8, 5u8, 4u8, 10u8, 11u8, 8u8, 9u8, 12u8, 13u8, 14u8, 15u8], seq![41u8, 40u8, 43u8, 42u8, 119u8, 116u8, 117u8, 118u8, 32u8, 33u8, 34u8, 35u8, 12u8, 13u8, 14u8, 15u8], seq![43u8, 42u8, 41u8, 40u8, 116u8, 119u8, 118u8, 117u8, 35u8, 34u8, 33u8, 32u8, 12u8, 13u8, 14u8, 15u8]);
}

/// The edge lanes of symmetry BD.
#[verifier::spinoff_prover]
#[verifier::rlimit(50)]
proof fn lemma_sym_edges_bd()
    ensures
        spec_sym_cube(Sym::BD).0 == seq![42u8, 43u8, 40u8, 41u8, 118u8, 117u8, 116u8, 119u8, 34u8, 35u8, 32u8, 33u8, 12u8, 13u8, 14u8, 15u8],
{
    lemma_sym_edges_ub();
    lemma_sym_edges_fd();
    edges_model::lemma_edge_composes_to(seq![3u8, 2u8, 1u8, 0u8, 7u8, 6u8, 5u8, 4u8, 10u8, 11u8, 8u8, 9u8, 12u8, 13u8, 14u8, 15u8], seq![40u8, 41u8, 42u8, 43u8, 117u8, 118u8, 119u8, 116u8, 33u8, 32u8, 35u8, 34u8, 12u8, 13u8, 14u8, 15u8], seq![42u8, 43u8, 40u8, 41u8, 118u8, 117u8, 116u8, 119u8, 34u8, 35u8, 32u8, 33u8, 12u8, 13u8, 14u8, 15u8]);
}

/// The edge lanes of symmetry RB.
#[verifier::spinoff_prover]
#[verifier::rlimit(50)]
proof fn lemma_sym_edges_rb()
    ensures
        spec_sym_cube(Sym::RB).0 == seq![112u8, 115u8, 114u8, 113u8, 25u8, 26u8, 27u8, 24u8, 23u8, 20u8, 21u8, 22u8, 12u8, 13u8, 14u8, 15u8],
{
    lemma_sym_edges_ub();
    lemma_sym_edges_lf();
    edges_model::lemma_edge_composes_to(seq![3u8, 2u8, 1u8, 0u8, 7u8, 6u8, 5u8, 4u8, 10u8, 11u8, 8u8, 9u8, 12u8, 13u8, 14u8, 15u8], seq![115u8, 112u8, 113u8, 114u8, 27u8, 24u8, 25u8, 26u8, 20u8, 23u8, 22u8, 21u8, 12u8, 13u8, 14u8, 15u8], seq![112u8, 115u8, 114u8, 113u8, 25u8, 26u8, 27u8, 24u8, 23u8, 20u8, 21u8, 22u8, 12u8, 13u8, 14u8, 15u8]);
}

/// The edge lanes of symmetry LB.
#[verifier::spinoff_prover]
#[verifier::rlimit(50)]
proof fn lemma_sym_edges_lb()
    ensures
        spec_sym_cube(Sym::LB).0 == seq![114u8, 113u8, 112u8, 115u8, 26u8, 25u8, 24u8, 27u8, 22u8, 21u8, 20u8, 23u8, 12u8, 13u8, 14u8, 15u8],
{
    lemma_sym_edges_ub();
    lemma_sym_edges_rf();
    edges_model::lemma_edge_composes_to(seq![3u8, 2u8, 1u8, 0u8, 7u8, 6u8, 5u8, 4u8, 10u8, 11u8, 8u8, 9u8, 12u8, 13u8, 14u8, 15u8], seq![113u8, 114u8, 115u8, 112u8, 24u8, 27u8, 26u8, 25u8, 21u8, 22u8, 23u8, 20u8, 12u8, 13u8, 14u8, 15u8], seq![114u8, 113u8, 112u8, 115u8, 26u8, 25u8, 24u8, 27u8, 22u8, 21u8, 20u8, 23u8, 12u8, 13u8, 14u8, 15u8]);
}

/// The edge lanes of symmetry URm.
#[verifier::spinoff_prover]
#[verifier::rlimit(50)]
proof fn lemma_sym_edges_urm()
    ensures
        spec_sym_cube(Sym::URm).0 == seq![68u8, 69u8, 70u8, 71u8, 64u8, 65u8, 66u8, 67u8, 120u8, 123u8, 122u8, 121u8, 12u8, 13u8, 14u8, 15u8],
{
    lemma_sym_edges_ur();
    lemma_lr_edges();
    edges_model::lemma_edge_composes_to(seq![71u8, 70u8, 69u8, 68u8, 64u8, 65u8, 66u8, 67u8, 121u8, 122u8, 123u8, 120u8, 12u8, 13u8, 14u8, 15u8], seq![3u8, 2u8, 1u8, 0u8, 4u8, 5u8, 6u8, 7u8, 11u8, 10u8, 9u8, 8u8, 12u8, 13u8, 14u8, 15u8], seq![68u8, 69u8, 70u8, 71u8, 64u8, 65u8, 66u8, 67u8, 120u8, 123u8, 122u8, 121u8, 12u8, 13u8, 14u8, 15u8]);
}

/// The edge lanes of symmetry DRm.
#[verifier::spinoff_prover]
#[verifier::rlimit(50)]
proof fn lemma_sym_edges_drm()
    ensures
        spec_sym_cube(Sym::DRm).0 == seq![70u8, 71u8, 68u8, 69u8, 65u8, 64u8, 67u8, 66u8, 121u8, 122u8, 123u8, 120u8, 12u8, 13u8, 14u8, 15u8],
{
    lemma_sym_edges_dr();
    lemma_lr_edges();
    edges_model::lemma_edge_composes_to(seq![69u8, 68u8, 71u8, 70u8, 65u8, 64u8, 67u8, 66u8, 120u8, 123u8, 122u8, 121u8, 12u8, 13u8, 14u8, 15u8], seq![3u8, 2u8, 1u8, 0u8, 4u8, 5u8, 6u8, 7u8, 11u8, 10u8, 9u8, 8u8, 12u8, 13u8, 14u8, 15u8], seq![70u8, 71u8, 68u8, 69u8, 65u8, 64u8, 67u8, 66u8, 121u8, 122u8, 123u8, 120u8, 12u8, 13u8, 14u8, 15u8]);
}

/// The edge lanes of symmetry DLm.
#[verifier::spinoff_prover]
#[verifier::rlimit(50)]
proof fn lemma_sym_edges_dlm()
    ensures
        spec_sym_cube(Sym::DLm).0 == seq![69u8, 68u8, 71u8, 70u8, 66u8, 67u8, 64u8, 65u8, 123u8, 120u8, 121u8, 122u8, 12u8, 13u8, 14u8, 15u8],
{
    lemma_sym_edges_dl();
    lemma_lr_edges();
    edges_model::lemma_edge_composes_to(seq![70u8, 71u8, 68u8, 69u8, 66u8, 67u8, 64u8, 65u8, 122u8, 121u8, 120u8, 123u8, 12u8, 13u8, 14u8, 15u8], seq![3u8, 2u8, 1u8, 0u8, 4u8, 5u8, 6u8, 7u8, 11u8, 10u8, 9u8, 8u8, 12u8, 13u8, 14u8, 15u8], seq![69u8, 68u8, 71u8, 70u8, 66u8, 67u8, 64u8, 65u8, 123u8, 120u8, 121u8, 122u8, 12u8, 13u8, 14u8, 15u8]);
}

/// The edge lanes of symmetry ULm.
#[verifier::spinoff_prover]
#[verifier::rlimit(50)]
proof fn lemma_sym_edges_ulm()
    ensures
        spec_sym_cube(Sym::ULm).0 == seq![71u8, 70u8, 69u8, 68u8, 67u8, 66u8, 65u8, 64u8, 122u8, 121u8, 120u8, 123u8, 12u8, 13u8, 14u8, 15u8],
{
    lemma_sym_edges_ul();
    lemma_lr_edges();
    edges_model::lemma_edge_composes_to(seq![68u8, 69u8, 70u8, 71u8, 67u8, 66u8, 65u8, 64u8, 123u8, 120u8, 121u8, 122u8, 12u8, 13u8, 14u8, 15u8], seq![3u8, 2u8, 1u8, 0u8, 4u8, 5u8, 6u8, 7u8, 11u8, 10u8, 9u8, 8u8, 12u8, 13u8, 14u8, 15u8], seq![71u8, 70u8, 69u8, 68u8, 67u8, 66u8, 65u8, 64u8, 122u8, 121u8, 120u8, 123u8, 12u8, 13u8, 14u8, 15u8]);
}

/// The edge lanes of symmetry UFm.
#[verifier::spinoff_prover]
#[verifier::rlimit(50)]
proof fn lemma_sym_edges_ufm()
    ensures
        spec_sym_cube(Sym::UFm).0 == seq![3u8, 2u8, 1u8, 0u8, 4u8, 5u8, 6u8, 7u8, 11u8, 10u8, 9u8, 8u8, 12u8, 13u8, 14u8, 15u8],
{
    lemma_sym_edges_uf();
    lemma_lr_edges();
    edges_model::lemma_edge_composes_to(seq![0u8, 1u8, 2u8, 3u8, 4u8, 5u8, 6u8, 7u8, 8u8, 9u8, 10u8, 11u8, 12u8, 13u8, 14u8, 15u8], seq![3u8, 2u8, 1u8, 0u8, 4u8, 5u8, 6u8, 7u8, 11u8, 10u8, 9u8, 8u8, 12u8, 13u8, 14u8, 15u8], seq![3u8, 2u8, 1u8, 0u8, 4u8, 5u8, 6u8, 7u8, 11u8, 10u8, 9u8, 8u8, 12u8, 13u8, 14u8, 15u8]);
}

/// The edge lanes of symmetry DFm.
#[verifier::spinoff_prover]
#[verifier::rlimit(50)]
proof fn lemma_sym_edges_dfm()
    ensures
        spec_sym_cube(Sym::DFm).0 == seq![1u8, 0u8, 3u8, 2u8, 5u8, 4u8, 7u8, 6u8, 8u8, 9u8, 10u8, 11u8, 12u8, 13u8, 14u8, 15u8],
{
    lemma_sym_edges_df();
    lemma_lr_edges();
    edges_model::lemma_edge_composes_to(seq![2u8, 3u8, 0u8, 1u8, 5u8, 4u8, 7u8, 6u8, 11u8, 10u8, 9u8, 8u8, 12u8, 13u8, 14u8, 15u8], seq![3u8, 2u8, 1u8, 0u8, 4u8, 5u8, 6u8, 7u8, 11u8, 10u8, 9u8, 8u8, 12u8, 13u8, 14u8, 15u8], seq![1u8, 0u8, 3u8, 2u8, 5u8, 4u8, 7u8, 6u8, 8u8, 9u8, 10u8, 11u8, 12u8, 13u8, 14u8, 15u8]);
}

/// The edge lanes of symmetry DBm.
#[verifier::spinoff_prover]
#[verifier::rlimit(50)]
proof fn lemma_sym_edges_dbm()
    ensures
        spec_sym_cube(Sym::DBm).0 == seq![2u8, 3u8, 0u8, 1u8, 6u8, 7u8, 4u8, 5u8, 10u8, 11u8, 8u8, 9u8, 12u8, 13u8, 14u8, 15u8],
{
    lemma_sym_edges_db();
    lemma_lr_edges();
    edges_model::lemma_edge_composes_to(seq![1u8, 0u8, 3u8, 2u8, 6u8, 7u8, 4u8, 5u8, 9u8, 8u8, 11u8, 10u8, 12u8, 13u8, 14u8, 15u8], seq![3u8, 2u8, 1u8, 0u8, 4u8, 5u8, 6u8, 7u8, 11u8, 10u8, 9u8, 8u8, 12u8, 13u8, 14u8, 15u8], seq![2u8, 3u8, 0u8, 1u8, 6u8, 7u8, 4u8, 5u8, 10u8, 11u8, 8u8, 9u8, 12u8, 13u8, 14u8, 15u8]);
}

/// The edge lanes of symmetry UBm.
#[verifier::spinoff_prover]
#[verifier::rlimit(50)]
proof fn lemma_sym_edges_ubm()
    ensures
        spec_sym_cube(Sym::UBm).0 == seq![0u8, 1u8, 2u8, 3u8, 7u8, 6u8, 5u8, 4u8, 9u8, 8u8, 11u8, 10u8, 12u8, 13u8, 14u8, 15u8],
{
    lemma_sym_edges_ub();
    lemma_lr_edges();
    edges_model::lemma_edge_composes_to(seq![3u8, 2u8, 1u8, 0u8, 7u8, 6u8, 5u8, 4u8, 10u8, 11u8, 8u8, 9u8, 12u8, 13u8, 14u8, 15u8], seq![3u8, 2u8, 1u8, 0u8, 4u8, 5u8, 6u8, 7u8, 11u8, 10u8, 9u8, 8u8, 12u8, 13u8, 14u8, 15u8], seq![0u8, 1u8, 2u8, 3u8, 7u8, 6u8, 5u8, 4u8, 9u8, 8u8, 11u8, 10u8, 12u8, 13u8, 14u8, 15u8]);
}

/// The edge lanes of symmetry FRm.
#[verifier::spinoff_prover]
#[verifier::rlimit(50)]
proof fn lemma_sym_edges_frm()
    ensures
        spec_sym_cube(Sym::FRm).0 == seq![53u8, 54u8, 55u8, 52u8, 104u8, 105u8, 106u8, 107u8, 81u8, 82u8, 83u8, 80u8, 12u8, 13u8, 14u8, 15u8],
{
    lemma_sym_edges_fr();
    lemma_lr_edges();
    edges_model::lemma_edge_composes_to(seq![52u8, 55u8, 54u8, 53u8, 104u8, 105u8, 106u8, 107u8, 80u8, 83u8, 82u8, 81u8, 12u8, 13u8, 14u8, 15u8], seq![3u8, 2u8, 1u8, 0u8, 4u8, 5u8, 6u8, 7u8, 11u8, 10u8, 9u8, 8u8, 12u8, 13u8, 14u8, 15u8], seq![53u8, 54u8, 55u8, 52u8, 104u8, 105u8, 106u8, 107u8, 81u8, 82u8, 83u8, 80u8, 12u8, 13u8, 14u8, 15u8]);
}

/// The edge lanes of symmetry BRm.
#[verifier::spinoff_prover]
#[verifier::rlimit(50)]
proof fn lemma_sym_edges_brm()
    ensures
        spec_sym_cube(Sym::BRm).0 == seq![55u8, 52u8, 53u8, 54u8, 105u8, 104u8, 107u8, 106u8, 80u8, 83u8, 82u8, 81u8, 12u8, 13u8, 14u8, 15u8],
{
    lemma_sym_edges_br();
    lemma_lr_edges();
    edges_model::lemma_edge_composes_to(seq![54u8, 53u8, 52u8, 55u8, 105u8, 104u8, 107u8, 106u8, 81u8, 82u8, 83u8, 80u8, 12u8, 13u8, 14u8, 15u8], seq![3u8, 2u8, 1u8, 0u8, 4u8, 5u8, 6u8, 7u8, 11u8, 10u8, 9u8, 8u8, 12u8, 13u8, 14u8, 15u8], seq![55u8, 52u8, 53u8, 54u8, 105u8, 104u8, 107u8, 106u8, 80u8, 83u8, 82u8, 81u8, 12u8, 13u8, 14u8, 15u8]);
}

/// The edge lanes of symmetry BLm.
#[verifier::spinoff_prover]
#[verifier::rlimit(50)]
proof fn lemma_sym_edges_blm()
    ensures
        spec_sym_cube(Sym::BLm).0 == seq![54u8, 53u8, 52u8, 55u8, 106u8, 107u8, 104u8, 105u8, 82u8, 81u8, 80u8, 83u8, 12u8, 13u8, 14u8, 15u8],
{
    lemma_sym_edges_bl();
    lemma_lr_edges();
    edges_model::lemma_edge_composes_to(seq![55u8, 52u8, 53u8, 54u8, 106u8, 107u8, 104u8, 105u8, 83u8, 80u8, 81u8, 82u8, 12u8, 13u8, 14u8, 15u8], seq![3u8, 2u8, 1u8, 0u8, 4u8, 5u8, 6u8, 7u8, 11u8, 10u8, 9u8, 8u8, 12u8, 13u8, 14u8, 15u8], seq![54u8, 53u8, 52u8, 55u8, 106u8, 107u8, 104u8, 105u8, 82u8, 81u8, 80u8, 83u8, 12u8, 13u8, 14u8, 15u8]);
}

/// The edge lanes of symmetry FLm.
#[verifier::spinoff_prover]
#[verifier::rlimit(50)]
proof fn lemma_sym_edges_flm()
    ensures
        spec_sym_cube(Sym::FLm).0 == seq![52u8, 55u8, 54u8, 53u8, 107u8, 106u8, 105u8, 104u8, 83u8, 80u8, 81u8, 82u8, 12u8, 13u8, 14u8, 15u8],
{
    lemma_sym_edges_fl();
    lemma_lr_edges();
    edges_model::lemma_edge_composes_to(seq![53u8, 54u8, 55u8, 52u8, 107u8, 106u8, 105u8, 104u8, 82u8, 81u8, 80u8, 83u8, 12u8, 13u8, 14u8, 15u8], seq![3u8, 2u8, 1u8, 0u8, 4u8, 5u8, 6u8, 7u8, 11u8, 10u8, 9u8, 8u8, 12u8, 13u8, 14u8, 15u8], seq![52u8, 55u8, 54u8, 53u8, 107u8, 106u8, 105u8, 104u8, 83u8, 80u8, 81u8, 82u8, 12u8, 13u8, 14u8, 15u8]);
}

/// The edge lanes of symmetry RUm.
#[verifier::spinoff_prover]
#[verifier::rlimit(50)]
proof fn lemma_sym_edges_rum()
    ensures
        spec_sym_cube(Sym::RUm).0 == seq![89u8, 90u8, 91u8, 88u8, 48u8, 51u8, 50u8, 49u8, 103u8, 102u8, 101u8, 100u8, 12u8, 13u8, 14u8, 15u8],
{
    lemma_sym_edges_ru();
    lemma_lr_edges();
    edges_model::lemma_edge_composes_to(seq![88u8, 91u8, 90u8, 89u8, 48u8, 51u8, 50u8, 49u8, 100u8, 101u8, 102u8, 103u8, 12u8, 13u8, 14u8, 15u8], seq![3u8, 2u8, 1u8, 0u8, 4u8, 5u8, 6u8, 7u8, 11u8, 10u8, 9u8, 8u8, 12u8, 13u8, 14u8, 15u8], seq![89u8, 90u8, 91u8, 88u8, 48u8, 51u8, 50u8, 49u8, 103u8, 102u8, 101u8, 100u8, 12u8, 13u8, 14u8, 15u8]);
}

/// The edge lanes of symmetry RDm.
#[verifier::spinoff_prover]
#[verifier::rlimit(50)]
proof fn lemma_sym_edges_rdm()
    ensures
        spec_sym_cube(Sym::RDm).0 == seq![88u8, 91u8, 90u8, 89u8, 49u8, 50u8, 51u8, 48u8, 101u8, 100u8, 103u8, 102u8, 12u8, 13u8, 14u8, 15u8],
{
    lemma_sym_edges_rd();
    lemma_lr_edges();
    edges_model::lemma_edge_composes_to(seq![89u8, 90u8, 91u8, 88u8, 49u8, 50u8, 51u8, 48u8, 102u8, 103u8, 100u8, 101u8, 12u8, 13u8, 14u8, 15u8], seq![3u8, 2u8, 1u8, 0u8, 4u8, 5u8, 6u8, 7u8, 11u8, 10u8, 9u8, 8u8, 12u8, 13u8, 14u8, 15u8], seq![88u8, 91u8, 90u8, 89u8, 49u8, 50u8, 51u8, 48u8, 101u8, 100u8, 103u8, 102u8, 12u8, 13u8, 14u8, 15u8]);
}

/// The edge lanes of symmetry LDm.
#[verifier::spinoff_prover]
#[verifier::rlimit(50)]
proof fn lemma_sym_edges_ldm()
    ensures
        spec_sym_cube(Sym::LDm).0 == seq![90u8, 89u8, 88u8, 91u8, 50u8, 49u8, 48u8, 51u8, 102u8, 103u8, 100u8, 101u8, 12u8, 13u8, 14u8, 15u8],
{
    lemma_sym_edges_ld();
    lemma_lr_edges();
    edges_model::lemma_edge_composes_to(seq![91u8, 88u8, 89u8, 90u8, 50u8, 49u8, 48u8, 51u8, 101u8, 100u8, 103u8, 102u8, 12u8, 13u8, 14u8, 15u8], seq![3u8, 2u8, 1u8, 0u8, 4u8, 5u8, 6u8, 7u8, 11u8, 10u8, 9u8, 8u8, 12u8, 13u8, 14u8, 15u8], seq![90u8, 89u8, 88u8, 91u8, 50u8, 49u8, 48u8, 51u8, 102u8, 103u8, 100u8, 101u8, 12u8, 13u8, 14u8, 15u8]);
}

/// The edge lanes of symmetry LUm.
#[verifier::spinoff_prover]
#[verifier::rlimit(50)]
proof fn lemma_sym_edges_lum()
    ensures
        spec_sym_cube(Sym::LUm).0 == seq![91u8, 88u8, 89u8, 90u8, 51u8, 48u8, 49u8, 50u8, 100u8, 101u8, 102u8, 103u8, 12u8, 13u8, 14u8, 15u8],
{
    lemma_sym_edges_lu();
    lemma_lr_edges();
    edges_model::lemma_edge_composes_to(seq![90u8, 89u8, 88u8, 91u8, 51u8, 48u8, 49u8, 50u8, 103u8, 102u8, 101u8, 100u8, 12u8, 13u8, 14u8, 15u8], seq![3u8, 2u8, 1u8, 0u8, 4u8, 5u8, 6u8, 7u8, 11u8, 10u8, 9u8, 8u8, 12u8, 13u8, 14u8, 15u8], seq![91u8, 88u8, 89u8, 90u8, 51u8, 48u8, 49u8, 50u8, 100u8, 101u8, 102u8, 103u8, 12u8, 13u8, 14u8, 15u8]);
}

/// The edge lanes of symmetry FUm.
#[verifier::spinoff_prover]
#[verifier::rlimit(50)]
proof fn lemma_sym_edges_fum()
    ensures
        spec_sym_cube(Sym::FUm).0 == seq![40u8, 41u8, 42u8, 43u8, 116u8, 119u8, 118u8, 117u8, 32u8, 33u8, 34u8, 35u8, 12u8, 13u8, 14u8, 15u8],
{
    lemma_sym_edges_fu();
    lemma_lr_edges();
    edges_model::lemma_edge_composes_to(seq![43u8, 42u8, 41u8, 40u8, 116u8, 119u8, 118u8, 117u8, 35u8, 34u8, 33u8, 32u8, 12u8, 13u8, 14u8, 15u8], seq![3u8, 2u8, 1u8, 0u8, 4u8, 5u8, 6u8, 7u8, 11u8, 10u8, 9u8, 8u8, 12u8, 13u8, 14u8, 15u8], seq![40u8, 41u8, 42u8, 43u8, 116u8, 119u8, 118u8, 117u8, 32u8, 33u8, 34u8, 35u8, 12u8, 13u8, 14u8, 15u8]);
}

/// The edge lanes of symmetry FDm.
#[verifier::spinoff_prover]
#[verifier::rlimit(100)]
proof fn lemma_sym_edges_fdm()
    ensures
        spec_sym_cube(Sym::FDm).0 == seq![43u8, 42u8, 41u8, 40u8, 117u8, 118u8, 119u8, 116u8, 34u8, 35u8, 32u8, 33u8, 12u8, 13u8, 14u8, 15u8],
{
    lemma_sym_edges_fd();
    lemma_lr_edges();
    edges_model::lemma_edge_composes_to(seq![40u8, 41u8, 42u8, 43u8, 117u8, 118u8, 119u8, 116u8, 33u8, 32u8, 35u8, 34u8, 12u8, 13u8, 14u8, 15u8], seq![3u8, 2u8, 1u8, 0u8, 4u8, 5u8, 6u8, 7u8, 11u8, 10u8, 9u8, 8u8, 12u8, 13u8, 14u8, 15u8], seq![43u8, 42u8, 41u8, 40u8, 117u8, 118u8, 119u8, 116u8, 34u8, 35u8, 32u8, 33u8, 12u8, 13u8, 14u8, 15u8]);
}

/// The edge lanes of symmetry BDm.
#[verifier::spinoff_prover]
#[verifier::rlimit(50)]
proof fn lemma_sym_edges_bdm()
    ensures
        spec_sym_cube(Sym::BDm).0 == seq![41u8, 40u8, 43u8, 42u8, 118u8, 117u8, 116u8, 119u8, 33u8, 32u8, 35u8, 34u8, 12u8, 13u8, 14u8, 15u8],
{
    lemma_sym_edges_bd();
    lemma_lr_edges();
    edges_model::lemma_edge_composes_to(seq![42u8, 43u8, 40u8, 41u8, 118u8, 117u8, 116u8, 119u8, 34u8, 35u8, 32u8, 33u8, 12u8, 13u8, 14u8, 15u8], seq![3u8, 2u8, 1u8, 0u8, 4u8, 5u8, 6u8, 7u8, 11u8, 10u8, 9u8, 8u8, 12u8, 13u8, 14u8, 15u8], seq![41u8, 40u8, 43u8, 42u8, 118u8, 117u8, 116u8, 119u8, 33u8, 32u8, 35u8, 34u8, 12u8, 13u8, 14u8, 15u8]);
}

/// The edge lanes of symmetry BUm.
#[verifier::spinoff_prover]
#[verifier::rlimit(50)]
proof fn lemma_sym_edges_bum()
    ensures
        spec_sym_cube(Sym::BUm).0 == seq![42u8, 43u8, 40u8, 41u8, 119u8, 116u8, 117u8, 118u8, 35u8, 34u8, 33u8, 32u8, 12u8, 13u8, 14u8, 15u8],
{
    lemma_sym_edges_bu();
    lemma_lr_edges();
    edges_model::lemma_edge_composes_to(seq![41u8, 40u8, 43u8, 42u8, 119u8, 116u8, 117u8, 118u8, 32u8, 33u8, 34u8, 35u8, 12u8, 13u8, 14u8, 15u8], seq![3u8, 2u8, 1u8, 0u8, 4u8, 5u8, 6u8, 7u8, 11u8, 10u8, 9u8, 8u8, 12u8, 13u8, 14u8, 15u8], seq![42u8, 43u8, 40u8, 41u8, 119u8, 116u8, 117u8, 118u8, 35u8, 34u8, 33u8, 32u8, 12u8, 13u8, 14u8, 15u8]);
}

/// The edge lanes of symmetry RFm.
#[verifier::spinoff_prover]
#[verifier::rlimit(50)]
proof fn lemma_sym_edges_rfm()
    ensures
        spec_sym_cube(Sym::RFm).0 == seq![112u8, 115u8, 114u8, 113u8, 24u8, 27u8, 26u8, 25u8, 20u8, 23u8, 22u8, 21u8, 12u8, 13u8, 14u8, 15u8],
{
    lemma_sym_edges_rf();
    lemma_lr_edges();
    edges_model::lemma_edge_composes_to(seq![113u8, 114u8, 115u8, 112u8, 24u8, 27u8, 26u8, 25u8, 21u8, 22u8, 23u8, 20u8, 12u8, 13u8, 14u8, 15u8], seq![3u8, 2u8, 1u8, 0u8, 4u8, 5u8, 6u8, 7u8, 11u8, 10u8, 9u8, 8u8, 12u8, 13u8, 14u8, 15u8], seq![112u8, 115u8, 114u8, 113u8, 24u8, 27u8, 26u8, 25u8, 20u8, 23u8, 22u8, 21u8, 12u8, 13u8, 14u8, 15u8]);
}

/// The edge lanes of symmetry RBm.
#[verifier::spinoff_prover]
#[verifier::rlimit(50)]
proof fn lemma_sym_edges_rbm()
    ensures
        spec_sym_cube(Sym::RBm).0 == seq![113u8, 114u8, 115u8, 112u8, 25u8, 26u8, 27u8, 24u8, 22u8, 21u8, 20u8, 23u8, 12u8, 13u8, 14u8, 15u8],
{
    lemma_sym_edges_rb();
    lemma_lr_edges();
    edges_model::lemma_edge_composes_to(seq![112u8, 115u8, 114u8, 113u8, 25u8, 26u8, 27u8, 24u8, 23u8, 20u8, 21u8, 22u8, 12u8, 13u8, 14u8, 15u8], seq![3u8, 2u8, 1u8, 0u8, 4u8, 5u8, 6u8, 7u8, 11u8, 10u8, 9u8, 8u8, 12u8, 13u8, 14u8, 15u8], seq![113u8, 114u8, 115u8, 112u8, 25u8, 26u8, 27u8, 24u8, 22u8, 21u8, 20u8, 23u8, 12u8, 13u8, 14u8, 15u8]);
}

/// The edge lanes of symmetry LBm.
#[verifier::spinoff_prover]
#[verifier::rlimit(50)]
proof fn lemma_sym_edges_lbm()
    ensures
        spec_sym_cube(Sym::LBm).0 == seq![115u8, 112u8, 113u8, 114u8, 26u8, 25u8, 24u8, 27u8, 23u8, 20u8, 21u8, 22u8, 12u8, 13u8, 14u8, 15u8],
{
    lemma_sym_edges_lb();
    lemma_lr_edges();
    edges_model::lemma_edge_composes_to(seq![114u8, 113u8, 112u8, 115u8, 26u8, 25u8, 24u8, 27u8, 22u8, 21u8, 20u8, 23u8, 12u8, 13u8, 14u8, 15u8], seq![3u8, 2u8, 1u8, 0u8, 4u8, 5u8, 6u8, 7u8, 11u8, 10u8, 9u8, 8u8, 12u8, 13u8, 14u8, 15u8], seq![115u8, 112u8, 113u8, 114u8, 26u8, 25u8, 24u8, 27u8, 23u8, 20u8, 21u8, 22u8, 12u8, 13u8, 14u8, 15u8]);
}

/// The edge lanes of symmetry LFm.
#[verifier::spinoff_prover]
#[verifier::rlimit(50)]
proof fn lemma_sym_edges_lfm()
    ensures
        spec_sym_cube(Sym::LFm).0 == seq![114u8, 113u8, 112u8, 115u8, 27u8, 24u8, 25u8, 26u8, 21u8, 22u8, 23u8, 20u8, 12u8, 13u8, 14u8, 15u8],
{
    lemma_sym_edges_lf();
    lemma_lr_edges();
    edges_model::lemma_edge_composes_to(seq![115u8, 112u8, 113u8, 114u8, 27u8, 24u8, 25u8, 26u8, 20u8, 23u8, 22u8, 21u8, 12u8, 13u8, 14u8, 15u8], seq![3u8, 2u8, 1u8, 0u8, 4u8, 5u8, 6u8, 7u8, 11u8, 10u8, 9u8, 8u8, 12u8, 13u8, 14u8, 15u8], seq![114u8, 113u8, 112u8, 115u8, 27u8, 24u8, 25u8, 26u8, 21u8, 22u8, 23u8, 20u8, 12u8, 13u8, 14u8, 15u8]);
}

/// The edge lanes of a symmetry, as numbers.
pub open spec fn spec_sym_edge_lanes(s: Sym) -> Seq<u8> {
    match s {
        Sym::UR => seq![71u8, 70u8, 69u8, 68u8, 64u8, 65u8, 66u8, 67u8, 121u8, 122u8, 123u8, 120u8, 12u8, 13u8, 14u8, 15u8],
        Sym::DR => seq![69u8, 68u8, 71u8, 70u8, 65u8, 64u8, 67u8, 66u8, 120u8, 123u8, 122u8, 121u8, 12u8, 13u8, 14u8, 15u8],
        Sym::DL => seq![70u8, 71u8, 68u8, 69u8, 66u8, 67u8, 64u8, 65u8, 122u8, 121u8, 120u8, 123u8, 12u8, 13u8, 14u8, 15u8],
        Sym::UL => seq![68u8, 69u8, 70u8, 71u8, 67u8, 66u8, 65u8, 64u8, 123u8, 120u8, 121u8, 122u8, 12u8, 13u8, 14u8, 15u8],
        Sym::UF => seq![0u8, 1u8, 2u8, 3u8, 4u8, 5u8, 6u8, 7u8, 8u8, 9u8, 10u8, 11u8, 12u8, 13u8, 14u8, 15u8],
        Sym::DF => seq![2u8, 3u8, 0u8, 1u8, 5u8, 4u8, 7u8, 6u8, 11u8, 10u8, 9u8, 8u8, 12u8, 13u8, 14u8, 15u8],
        Sym::DB => seq![1u8, 0u8, 3u8, 2u8, 6u8, 7u8, 4u8, 5u8, 9u8, 8u8, 11u8, 10u8, 12u8, 13u8, 14u8, 15u8],
        Sym::UB => seq![3u8, 2u8, 1u8, 0u8, 7u8, 6u8, 5u8, 4u8, 10u8, 11u8, 8u8, 9u8, 12u8, 13u8, 14u8, 15u8],
        Sym::FR => seq![52u8, 55u8, 54u8, 53u8, 104u8, 105u8, 106u8, 107u8, 80u8, 83u8, 82u8, 81u8, 12u8, 13u8, 14u8, 15u8],
        Sym::BR => seq![54u8, 53u8, 52u8, 55u8, 105u8, 104u8, 107u8, 106u8, 81u8, 82u8, 83u8, 80u8, 12u8, 13u8, 14u8, 15u8],
        Sym::BL => seq![55u8, 52u8, 53u8, 54u8, 106u8, 107u8, 104u8, 105u8, 83u8, 80u8, 81u8, 82u8, 12u8, 13u8, 14u8, 15u8],
        Sym::FL => seq![53u8, 54u8, 55u8, 52u8, 107u8, 106u8, 105u8, 104u8, 82u8, 81u8, 80u8, 83u8, 12u8, 13u8, 14u8, 15u8],
        Sym::RU => seq![88u8, 91u8, 90u8, 89u8, 48u8, 51u8, 50u8, 49u8, 100u8, 101u8, 102u8, 103u8, 12u8, 13u8, 14u8, 15u8],
        Sym::RD => seq![89u8, 90u8, 91u8, 88u8, 49u8, 50u8, 51u8, 48u8, 102u8, 103u8, 100u8, 101u8, 12u8, 13u8, 14u8, 15u8],
        Sym::LD => seq![91u8, 88u8, 89u8, 90u8, 50u8, 49u8, 48u8, 51u8, 101u8, 100u8, 103u8, 102u8, 12u8, 13u8, 14u8, 15u8],
        Sym::LU => seq![90u8, 89u8, 88u8, 91u8, 51u8, 48u8, 49u8, 50u8, 103u8, 102u8, 101u8, 100u8, 12u8, 13u8, 14u8, 15u8],
        Sym::FU => seq![43u8, 42u8, 41u8, 40u8, 116u8, 119u8, 118u8, 117u8, 35u8, 34u8, 33u8, 32u8, 12u8, 13u8, 14u8, 15u8],
        Sym::FD => seq![40u8, 41u8, 42u8, 43u8, 117u8, 118u8, 119u8, 116u8, 33u8, 32u8, 35u8, 34u8, 12u8, 13u8, 14u8, 15u8],
        Sym::BD => seq![42u8, 43u8, 40u8, 41u8, 118u8, 117u8, 116u8, 119u8, 34u8, 35u8, 32u8, 33u8, 12u8, 13u8, 14u8, 15u8],
        Sym::BU => seq![41u8, 40u8, 43u8, 42u8, 119u8, 116u8, 117u8, 118u8, 32u8, 33u8, 34u8, 35u8, 12u8, 13u8, 14u8, 15u8],
        Sym::RF => seq![113u8, 114u8, 115u8, 112u8, 24u8, 27u8, 26u8, 25u8, 21u8, 22u8, 23u8, 20u8, 12u8, 13u8, 14u8, 15u8],
        Sym::RB => seq![112u8, 115u8, 114u8, 113u8, 25u8, 26u8, 27u8, 24u8, 23u8, 20u8, 21u8, 22u8, 12u8, 13u8, 14u8, 15u8],
        Sym::LB => seq![114u8, 113u8, 112u8, 115u8, 26u8, 25u8, 24u8, 27u8, 22u8, 21u8, 20u8, 23u8, 12u8, 13u8, 14u8, 15u8],
        Sym::LF => seq![115u8, 112u8, 113u8, 114u8, 27u8, 24u8, 25u8, 26u8, 20u8, 23u8, 22u8, 21u8, 12u8, 13u8, 14u8, 15u8],
        Sym::URm => seq![68u8, 69u8, 70u8, 71u8, 64u8, 65u8, 66u8, 67u8, 120u8, 123u8, 122u8, 121u8, 12u8, 13u8, 14u8, 15u8],
        Sym::DRm => seq![70u8, 71u8, 68u8, 69u8, 65u8, 64u8, 67u8, 66u8, 121u8, 122u8, 123u8, 120u8, 12u8, 13u8, 14u8, 15u8],
        Sym::DLm => seq![69u8, 68u8, 71u8, 70u8, 66u8, 67u8, 64u8, 65u8, 123u8, 120u8, 121u8, 122u8, 12u8, 13u8, 14u8, 15u8],
        Sym::ULm => seq![71u8, 70u8, 69u8, 68u8, 67u8, 66u8, 65u8, 64u8, 122u8, 121u8, 120u8, 123u8, 12u8, 13u8, 14u8, 15u8],
        Sym::UFm => seq![3u8, 2u8, 1u8, 0u8, 4u8, 5u8, 6u8, 7u8, 11u8, 10u8, 9u8, 8u8, 12u8, 13u8, 14u8, 15u8],
        Sym::DFm => seq![1u8, 0u8, 3u8, 2u8, 5u8, 4u8, 7u8, 6u8, 8u8, 9u8, 10u8, 11u8, 12u8, 13u8, 14u8, 15u8],
        Sym::DBm => seq![2u8, 3u8, 0u8, 1u8, 6u8, 7u8, 4u8, 5u8, 10u8, 11u8, 8u8, 9u8, 12u8, 13u8, 14u8, 15u8],
        Sym::UBm => seq![0u8, 1u8, 2u8, 3u8, 7u8, 6u8, 5u8, 4u8, 9u8, 8u8, 11u8, 10u8, 12u8, 13u8, 14u8, 15u8],
        Sym::FRm => seq![53u8, 54u8, 55u8, 52u8, 104u8, 105u8, 106u8, 107u8, 81u8, 82u8, 83u8, 80u8, 12u8, 13u8, 14u8, 15u8],
        Sym::BRm => seq![55u8, 52u8, 53u8, 54u8, 105u8, 104u8, 107u8, 106u8, 80u8, 83u8, 82u8, 81u8, 12u8, 13u8, 14u8, 15u8],
        Sym::BLm => seq![54u8, 53u8, 52u8, 55u8, 106u8, 107u8, 104u8, 105u8, 82u8, 81u8, 80u8, 83u8, 12u8, 13u8, 14u8, 15u8],
        Sym::FLm => seq![52u8, 55u8, 54u8, 53u8, 107u8, 106u8, 105u8, 104u8, 83u8, 80u8, 81u8, 82u8, 12u8, 13u8, 14u8, 15u8],
        Sym::RUm => seq![89u8, 90u8, 91u8, 88u8, 48u8, 51u8, 50u8, 49u8, 103u8, 102u8, 101u8, 100u8, 12u8, 13u8, 14u8, 15u8],
        Sym::RDm => seq![88u8, 91u8, 90u8, 89u8, 49u8, 50u8, 51u8, 48u8, 101u8, 100u8, 103u8, 102u8, 12u8, 13u8, 14u8, 15u8],
        Sym::LDm => seq![90u8, 89u8, 88u8, 91u8, 50u8, 49u8, 48u8, 51u8, 102u8, 103u8, 100u8, 101u8, 12u8, 13u8, 14u8, 15u8],
        Sym::LUm => seq![91u8, 88u8, 89u8, 90u8, 51u8, 48u8, 49u8, 50u8, 100u8, 101u8, 102u8, 103u8, 12u8, 13u8, 14u8, 15u8],
        Sym::FUm => seq![40u8, 41u8, 42u8, 43u8, 116u8, 119u8, 118u8, 117u8, 32u8, 33u8, 34u8, 35u8, 12u8, 13u8, 14u8, 15u8],
        Sym::FDm => seq![43u8, 42u8, 41u8, 40u8, 117u8, 118u8, 119u8, 116u8, 34u8, 35u8, 32u8, 33u8, 12u8, 13u8, 14u8, 15u8],
        Sym::BDm => seq![41u8, 40u8, 43u8, 42u8, 118u8, 117u8, 116u8, 119u8, 33u8, 32u8, 35u8, 34u8, 12u8, 13u8, 14u8, 15u8],
        Sym::BUm => seq![42u8, 43u8, 40u8, 41u8, 119u8, 116u8, 117u8, 118u8, 35u8, 34u8, 33u8, 32u8, 12u8, 13u8, 14u8, 15u8],
        Sym::RFm => seq![112u8, 115u8, 114u8, 113u8, 24u8, 27u8, 26u8, 25u8, 20u8, 23u8, 22u8, 21u8, 12u8, 13u8, 14u8, 15u8],
        Sym::RBm => seq![113u8, 114u8, 115u8, 112u8, 25u8, 26u8, 27u8, 24u8, 22u8, 21u8, 20u8, 23u8, 12u8, 13u8, 14u8, 15u8],
        Sym::LBm => seq![115u8, 112u8, 113u8, 114u8, 26u8, 25u8, 24u8, 27u8, 23u8, 20u8, 21u8, 22u8, 12u8, 13u8, 14u8, 15u8],
        Sym::LFm => seq![114u8, 113u8, 112u8, 115u8, 27u8, 24u8, 25u8, 26u8, 21u8, 22u8, 23u8, 20u8, 12u8, 13u8, 14u8, 15u8],
    }
}

/// The edge lanes of every symmetry.
pub proof fn lemma_sym_edges(s: Sym)
    ensures
        spec_sym_cube(s).0 == spec_sym_edge_lanes(s),
{
    match s {
        Sym::UR => lemma_sym_edges_ur(),
        Sym::DR => lemma_sym_edges_dr(),
        Sym::DL => lemma_sym_edges_dl(),
        Sym::UL => lemma_sym_edges_ul(),
        Sym::UF => lemma_sym_edges_uf(),
        Sym::DF => lemma_sym_edges_df(),
        Sym::DB => lemma_sym_edges_db(),
        Sym::UB => lemma_sym_edges_ub(),
        Sym::FR => lemma_sym_edges_fr(),
        Sym::BR => lemma_sym_edges_br(),
        Sym::BL => lemma_sym_edges_bl(),
        Sym::FL => lemma_sym_edges_fl(),
        Sym::RU => lemma_sym_edges_ru(),
        Sym::RD => lemma_sym_edges_rd(),
        Sym::LD => lemma_sym_edges_ld(),
        Sym::LU => lemma_sym_edges_lu(),
        Sym::FU => lemma_sym_edges_fu(),
        Sym::FD => lemma_sym_edges_fd(),
        Sym::BD => lemma_sym_edges_bd(),
        Sym::BU => lemma_sym_edges_bu(),
        Sym::RF => lemma_sym_edges_rf(),
        Sym::RB => lemma_sym_edges_rb(),
        Sym::LB => lemma_sym_edges_lb(),
        Sym::LF => lemma_sym_edges_lf(),
        Sym::URm => lemma_sym_edges_urm(),
        Sym::DRm => lemma_sym_edges_drm(),
        Sym::DLm => lemma_sym_edges_dlm(),
        Sym::ULm => lemma_sym_edges_ulm(),
        Sym::UFm => lemma_sym_edges_ufm(),
        Sym::DFm => lemma_sym_edges_dfm(),
        Sym::DBm => lemma_sym_edges_dbm(),
        Sym::UBm => lemma_sym_edges_ubm(),
        Sym::FRm => lemma_sym_edges_frm(),
        Sym::BRm => lemma_sym_edges_brm(),
        Sym::BLm => lemma_sym_edges_blm(),
        Sym::FLm => lemma_sym_edges_flm(),
        Sym::RUm => lemma_sym_edges_rum(),
        Sym::RDm => lemma_sym_edges_rdm(),
        Sym::LDm => lemma_sym_edges_ldm(),
        Sym::LUm => lemma_sym_edges_lum(),
        Sym::FUm => lemma_sym_edges_fum(),
        Sym::FDm => lemma_sym_edges_fdm(),
        Sym::BDm => lemma_sym_edges_bdm(),
        Sym::BUm => lemma_sym_edges_bum(),
        Sym::RFm => lemma_sym_edges_rfm(),
        Sym::RBm => lemma_sym_edges_rbm(),
        Sym::LBm => lemma_sym_edges_lbm(),
        Sym::LFm => lemma_sym_edges_lfm(),
    }
}

/// The symmetry whose edge lanes hold `x0` in slot 0 and `x4` in slot 4, which tell the
/// symmetries apart.
pub open spec fn spec_sym_of_edges(x0: u8, x4: u8) -> Sym {
    if x0 == 71 && x4 == 64 {
        Sym::UR
    } else if x0 == 69 && x4 == 65 {
        Sym::DR
    } else if x0 == 70 && x4 == 66 {
        Sym::DL
    } else if x0 == 68 && x4 == 67 {
        Sym::UL
    } else if x0 == 0 && x4 == 4 {
        Sym::UF
    } else if x0 == 2 && x4 == 5 {
        Sym::DF
    } else if x0 == 1 && x4 == 6 {
        Sym::DB
    } else if x0 == 3 && x4 == 7 {
        Sym::UB
    } else if x0 == 52 && x4 == 104 {
        Sym::FR
    } else if x0 == 54 && x4 == 105 {
        Sym::BR
    } else if x0 == 55 && x4 == 106 {
        Sym::BL
    } else if x0 == 53 && x4 == 107 {
        Sym::FL
    } else if x0 == 88 && x4 == 48 {
        Sym::RU
    } else if x0 == 89 && x4 == 49 {
        Sym::RD
    } else if x0 == 91 && x4 == 50 {
        Sym::LD
    } else if x0 == 90 && x4 == 51 {
        Sym::LU
    } else if x0 == 43 && x4 == 116 {
        Sym::FU
    } else if x0 == 40 && x4 == 117 {
        Sym::FD
    } else if x0 == 42 && x4 == 118 {
        Sym::BD
    } else if x0 == 41 && x4 == 119 {
        Sym::BU
    } else if x0 == 113 && x4 == 24 {
        Sym::RF
    } else if x0 == 112 && x4 == 25 {
        Sym::RB
    } else if x0 == 114 && x4 == 26 {
        Sym::LB
    } else if x0 == 115 && x4 == 27 {
        Sym::LF
    } else if x0 == 68 && x4 == 64 {
        Sym::URm
    } else if x0 == 70 && x4 == 65 {
        Sym::DRm
    } else if x0 == 69 && x4 == 66 {
        Sym::DLm
    } else if x0 == 71 && x4 == 67 {
        Sym::ULm
    } else if x0 == 3 && x4 == 4 {
        Sym::UFm
    } else if x0 == 1 && x4 == 5 {
        Sym::DFm
    } else if x0 == 2 && x4 == 6 {
        Sym::DBm
    } else if x0 == 0 && x4 == 7 {
        Sym::UBm
    } else if x0 == 53 && x4 == 104 {
        Sym::FRm
    } else if x0 == 55 && x4 == 105 {
        Sym::BRm
    } else if x0 == 54 && x4 == 106 {
        Sym::BLm
    } else if x0 == 52 && x4 == 107 {
        Sym::FLm
    } else if x0 == 89 && x4 == 48 {
        Sym::RUm
    } else if x0 == 88 && x4 == 49 {
        Sym::RDm
    } else if x0 == 90 && x4 == 50 {
        Sym::LDm
    } else if x0 == 91 && x4 == 51 {
        Sym::LUm
    } else if x0 == 40 && x4 == 116 {
        Sym::FUm
    } else if x0 == 43 && x4 == 117 {
        Sym::FDm
    } else if x0 == 41 && x4 == 118 {
        Sym::BDm
    } else if x0 == 42 && x4 == 119 {
        Sym::BUm
    } else if x0 == 112 && x4 == 24 {
        Sym::RFm
    } else if x0 == 113 && x4 == 25 {
        Sym::RBm
    } else if x0 == 115 && x4 == 26 {
        Sym::LBm
    } else if x0 == 114 && x4 == 27 {
        Sym::LFm
    } else {
        Sym::UF
    }
}

/// The edge lanes of a symmetry tell which symmetry it is.
proof fn lemma_sym_of_edges(s: Sym)
    ensures
        spec_sym_of_edges(spec_sym_edge_lanes(s)[0], spec_sym_edge_lanes(s)[4]) == s,
        forall|i: int| 0 <= i < 16 ==> #[trigger] spec_sym_edge_lanes(s)[i] < 128,
        spec_sym_edge_lanes(s).len() == 16,
{
    match s {
        Sym::UR => {},
        Sym::DR => {},
        Sym::DL => {},
        Sym::UL => {},
        Sym::UF => {},
        Sym::DF => {},
        Sym::DB => {},
        Sym::UB => {},
        Sym::FR => {},
        Sym::BR => {},
        Sym::BL => {},
        Sym::FL => {},
        Sym::RU => {},
        Sym::RD => {},
        Sym::LD => {},
        Sym::LU => {},
        Sym::FU => {},
        Sym::FD => {},
        Sym::BD => {},
        Sym::BU => {},
        Sym::RF => {},
        Sym::RB => {},
        Sym::LB => {},
        Sym::LF => {},
        Sym::URm => {},
        Sym::DRm => {},
        Sym::DLm => {},
        Sym::ULm => {},
        Sym::UFm => {},
        Sym::DFm => {},
        Sym::DBm => {},
        Sym::UBm => {},
        Sym::FRm => {},
        Sym::BRm => {},
        Sym::BLm => {},
        Sym::FLm => {},
        Sym::RUm => {},
        Sym::RDm => {},
        Sym::LDm => {},
        Sym::LUm => {},
        Sym::FUm => {},
        Sym::FDm => {},
        Sym::BDm => {},
        Sym::BUm => {},
        Sym::RFm => {},
        Sym::RBm => {},
        Sym::LBm => {},
        Sym::LFm => {},
    }
}

/// Symmetries with the same edge lanes are the same.
pub proof fn lemma_sym_edges_unique(a: Sym, b: Sym)
    requires
        spec_sym_cube(a).0 == spec_sym_cube(b).0,
    ensures
        a == b,
{
    lemma_sym_edges(a);
    lemma_sym_edges(b);
    lemma_sym_of_edges(a);
    lemma_sym_of_edges(b);
}

/// The symmetry that undoes `s` on the edges, by number.
pub open spec fn spec_sym_undo(s: Sym) -> Sym {
    match s {
        Sym::UR => Sym::UL,
        Sym::DR => Sym::DR,
        Sym::DL => Sym::DL,
        Sym::UL => Sym::UR,
        Sym::UF => Sym::UF,
        Sym::DF => Sym::DF,
        Sym::DB => Sym::DB,
        Sym::UB => Sym::UB,
        Sym::FR => Sym::RU,
        Sym::BR => Sym::LD,
        Sym::BL => Sym::RD,
        Sym::FL => Sym::LU,
        Sym::RU => Sym::FR,
        Sym::RD => Sym::BL,
        Sym::LD => Sym::BR,
        Sym::LU => Sym::FL,
        Sym::FU => Sym::FU,
        Sym::FD => Sym::BU,
        Sym::BD => Sym::BD,
        Sym::BU => Sym::FD,
        Sym::RF => Sym::LF,
        Sym::RB => Sym::RB,
        Sym::LB => Sym::LB,
        Sym::LF => Sym::RF,
        Sym::URm => Sym::URm,
        Sym::DRm => Sym::DLm,
        Sym::DLm => Sym::DRm,
        Sym::ULm => Sym::ULm,
        Sym::UFm => Sym::UFm,
        Sym::DFm => Sym::DFm,
        Sym::DBm => Sym::DBm,
        Sym::UBm => Sym::UBm,
        Sym::FRm => Sym::LUm,
        Sym::BRm => Sym::RDm,
        Sym::BLm => Sym::LDm,
        Sym::FLm => Sym::RUm,
        Sym::RUm => Sym::FLm,
        Sym::RDm => Sym::BRm,
        Sym::LDm => Sym::BLm,
        Sym::LUm => Sym::FRm,
        Sym::FUm => Sym::FUm,
        Sym::FDm => Sym::BUm,
        Sym::BDm => Sym::BDm,
        Sym::BUm => Sym::FDm,
        Sym::RFm => Sym::RFm,
        Sym::RBm => Sym::LBm,
        Sym::LBm => Sym::RBm,
        Sym::LFm => Sym::LFm,
    }
}

/// Symmetry UR and the one that undoes it compose to the identity, either way round.
#[verifier::spinoff_prover]
proof fn lemma_undo_ur()
    ensures
        edge_ops::spec_compose(spec_sym_edge_lanes(Sym::UR), spec_sym_edge_lanes(Sym::UL)) == edge_ops::spec_ident(),
        edge_ops::spec_compose(spec_sym_edge_lanes(Sym::UL), spec_sym_edge_lanes(Sym::UR)) == edge_ops::spec_ident(),
{
    assert(edge_ops::spec_ident() =~= seq![0u8, 1u8, 2u8, 3u8, 4u8, 5u8, 6u8, 7u8, 8u8, 9u8, 10u8, 11u8, 12u8, 13u8, 14u8, 15u8]);
    edges_model::lemma_edge_composes_to(seq![71u8, 70u8, 69u8, 68u8, 64u8, 65u8, 66u8, 67u8, 121u8, 122u8, 123u8, 120u8, 12u8, 13u8, 14u8, 15u8], seq![68u8, 69u8, 70u8, 71u8, 67u8, 66u8, 65u8, 64u8, 123u8, 120u8, 121u8, 122u8, 12u8, 13u8, 14u8, 15u8], seq![0u8, 1u8, 2u8, 3u8, 4u8, 5u8, 6u8, 7u8, 8u8, 9u8, 10u8, 11u8, 12u8, 13u8, 14u8, 15u8]);
    edges_model::lemma_edge_composes_to(seq![68u8, 69u8, 70u8, 71u8, 67u8, 66u8, 65u8, 64u8, 123u8, 120u8, 121u8, 122u8, 12u8, 13u8, 14u8, 15u8], seq![71u8, 70u8, 69u8, 68u8, 64u8, 65u8, 66u8, 67u8, 121u8, 122u8, 123u8, 120u8, 12u8, 13u8, 14u8, 15u8], seq![0u8, 1u8, 2u8, 3u8, 4u8, 5u8, 6u8, 7u8, 8u8, 9u8, 10u8, 11u8, 12u8, 13u8, 14u8, 15u8]);
}

/// Symmetry DR and the one that undoes it compose to the identity, either way round.
#[verifier::spinoff_prover]
proof fn lemma_undo_dr()
    ensures
        edge_ops::spec_compose(spec_sym_edge_lanes(Sym::DR), spec_sym_edge_lanes(Sym::DR)) == edge_ops::spec_ident(),
        edge_ops::spec_compose(spec_sym_edge_lanes(Sym::DR), spec_sym_edge_lanes(Sym::DR)) == edge_ops::spec_ident(),
{
    assert(edge_ops::spec_ident() =~= seq![0u8, 1u8, 2u8, 3u8, 4u8, 5u8, 6u8, 7u8, 8u8, 9u8, 10u8, 11u8, 12u8, 13u8, 14u8, 15u8]);
    edges_model::lemma_edge_composes_to(seq![69u8, 68u8, 71u8, 70u8, 65u8, 64u8, 67u8, 66u8, 120u8, 123u8, 122u8, 121u8, 12u8, 13u8, 14u8, 15u8], seq![69u8, 68u8, 71u8, 70u8, 65u8, 64u8, 67u8, 66u8, 120u8, 123u8, 122u8, 121u8, 12u8, 13u8, 14u8, 15u8], seq![0u8, 1u8, 2u8, 3u8, 4u8, 5u8, 6u8, 7u8, 8u8, 9u8, 10u8, 11u8, 12u8, 13u8, 14u8, 15u8]);
    edges_model::lemma_edge_composes_to(seq![69u8, 68u8, 71u8, 70u8, 65u8, 64u8, 67u8, 66u8, 120u8, 123u8, 122u8, 121u8, 12u8, 13u8, 14u8, 15u8], seq![69u8, 68u8, 71u8, 70u8, 65u8, 64u8, 67u8, 66u8, 120u8, 123u8, 122u8, 121u8, 12u8, 13u8, 14u8, 15u8], seq![0u8, 1u8, 2u8, 3u8, 4u8, 5u8, 6u8, 7u8, 8u8, 9u8, 10u8, 11u8, 12u8, 13u8, 14u8, 15u8]);
}

/// Symmetry DL and the one that undoes it compose to the identity, either way round.
#[verifier::spinoff_prover]
proof fn lemma_undo_dl()
    ensures
        edge_ops::spec_compose(spec_sym_edge_lanes(Sym::DL), spec_sym_edge_lanes(Sym::DL)) == edge_ops::spec_ident(),
        edge_ops::spec_compose(spec_sym_edge_lanes(Sym::DL), spec_sym_edge_lanes(Sym::DL)) == edge_ops::spec_ident(),
{
    assert(edge_ops::spec_ident() =~= seq![0u8, 1u8, 2u8, 3u8, 4u8, 5u8, 6u8, 7u8, 8u8, 9u8, 10u8, 11u8, 12u8, 13u8, 14u8, 15u8]);
    edges_model::lemma_edge_composes_to(seq![70u8, 71u8, 68u8, 69u8, 66u8, 67u8, 64u8, 65u8, 122u8, 121u8, 120u8, 123u8, 12u8, 13u8, 14u8, 15u8], seq![70u8, 71u8, 68u8, 69u8, 66u8, 67u8, 64u8, 65u8, 122u8, 121u8, 120u8, 123u8, 12u8, 13u8, 14u8, 15u8], seq![0u8, 1u8, 2u8, 3u8, 4u8, 5u8, 6u8, 7u8, 8u8, 9u8, 10u8, 11u8, 12u8, 13u8, 14u8, 15u8]);
    edges_model::lemma_edge_composes_to(seq![70u8, 71u8, 68u8, 69u8, 66u8, 67u8, 64u8, 65u8, 122u8, 121u8, 120u8, 123u8, 12u8, 13u8, 14u8, 15u8], seq![70u8, 71u8, 68u8, 69u8, 66u8, 67u8, 64u8, 65u8, 122u8, 121u8, 120u8, 123u8, 12u8, 13u8, 14u8, 15u8], seq![0u8, 1u8, 2u8, 3u8, 4u8, 5u8, 6u8, 7u8, 8u8, 9u8, 10u8, 11u8, 12u8, 13u8, 14u8, 15u8]);
}

/// Symmetry UL and the one that undoes it compose to the identity, either way round.
#[verifier::spinoff_prover]
proof fn lemma_undo_ul()
    ensures
        edge_ops::spec_compose(spec_sym_edge_lanes(Sym::UL), spec_sym_edge_lanes(Sym::UR)) == edge_ops::spec_ident(),
        edge_ops::spec_compose(spec_sym_edge_lanes(Sym::UR), spec_sym_edge_lanes(Sym::UL)) == edge_ops::spec_ident(),
{
    assert(edge_ops::spec_ident() =~= seq![0u8, 1u8, 2u8, 3u8, 4u8, 5u8, 6u8, 7u8, 8u8, 9u8, 10u8, 11u8, 12u8, 13u8, 14u8, 15u8]);
    edges_model::lemma_edge_composes_to(seq![68u8, 69u8, 70u8, 71u8, 67u8, 66u8, 65u8, 64u8, 123u8, 120u8, 121u8, 122u8, 12u8, 13u8, 14u8, 15u8], seq![71u8, 70u8, 69u8, 68u8, 64u8, 65u8, 66u8, 67u8, 121u8, 122u8, 123u8, 120u8, 12u8, 13u8, 14u8, 15u8], seq![0u8, 1u8, 2u8, 3u8, 4u8, 5u8, 6u8, 7u8, 8u8, 9u8, 10u8, 11u8, 12u8, 13u8, 14u8, 15u8]);
    edges_model::lemma_edge_composes_to(seq![71u8, 70u8, 69u8, 68u8, 64u8, 65u8, 66u8, 67u8, 121u8, 122u8, 123u8, 120u8, 12u8, 13u8, 14u8, 15u8], seq![68u8, 69u8, 70u8, 71u8, 67u8, 66u8, 65u8, 64u8, 123u8, 120u8, 121u8, 122u8, 12u8, 13u8, 14u8, 15u8], seq![0u8, 1u8, 2u8, 3u8, 4u8, 5u8, 6u8, 7u8, 8u8, 9u8, 10u8, 11u8, 12u8, 13u8, 14u8, 15u8]);
}

/// Symmetry UF and the one that undoes it compose to the identity, either way round.
#[verifier::spinoff_prover]
proof fn lemma_undo_uf()
    ensures
        edge_ops::spec_compose(spec_sym_edge_lanes(Sym::UF), spec_sym_edge_lanes(Sym::UF)) == edge_ops::spec_ident(),
        edge_ops::spec_compose(spec_sym_edge_lanes(Sym::UF), spec_sym_edge_lanes(Sym::UF)) == edge_ops::spec_ident(),
{
    assert(edge_ops::spec_ident() =~= seq![0u8, 1u8, 2u8, 3u8, 4u8, 5u8, 6u8, 7u8, 8u8, 9u8, 10u8, 11u8, 12u8, 13u8, 14u8, 15u8]);
    edges_model::lemma_edge_composes_to(seq![0u8, 1u8, 2u8, 3u8, 4u8, 5u8, 6u8, 7u8, 8u8, 9u8, 10u8, 11u8, 12u8, 13u8, 14u8, 15u8], seq![0u8, 1u8, 2u8, 3u8, 4u8, 5u8, 6u8, 7u8, 8u8, 9u8, 10u8, 11u8, 12u8, 13u8, 14u8, 15u8], seq![0u8, 1u8, 2u8, 3u8, 4u8, 5u8, 6u8, 7u8, 8u8, 9u8, 10u8, 11u8, 12u8, 13u8, 14u8, 15u8]);
    edges_model::lemma_edge_composes_to(seq![0u8, 1u8, 2u8, 3u8, 4u8, 5u8, 6u8, 7u8, 8u8, 9u8, 10u8, 11u8, 12u8, 13u8, 14u8, 15u8], seq![0u8, 1u8, 2u8, 3u8, 4u8, 5u8, 6u8, 7u8, 8u8, 9u8, 10u8, 11u8, 12u8, 13u8, 14u8, 15u8], seq![0u8, 1u8, 2u8, 3u8, 4u8, 5u8, 6u8, 7u8, 8u8, 9u8, 10u8, 11u8, 12u8, 13u8, 14u8, 15u8]);
}

/// Symmetry DF and the one that undoes it compose to the identity, either way round.
#[verifier::spinoff_prover]
proof fn lemma_undo_df()
    ensures
        edge_ops::spec_compose(spec_sym_edge_lanes(Sym::DF), spec_sym_edge_lanes(Sym::DF)) == edge_ops::spec_ident(),
        edge_ops::spec_compose(spec_sym_edge_lanes(Sym::DF), spec_sym_edge_lanes(Sym::DF)) == edge_ops::spec_ident(),
{
    assert(edge_ops::spec_ident() =~= seq![0u8, 1u8, 2u8, 3u8, 4u8, 5u8, 6u8, 7u8, 8u8, 9u8, 10u8, 11u8, 12u8, 13u8, 14u8, 15u8]);
    edges_model::lemma_edge_composes_to(seq![2u8, 3u8, 0u8, 1u8, 5u8, 4u8, 7u8, 6u8, 11u8, 10u8, 9u8, 8u8, 12u8, 13u8, 14u8, 15u8], seq![2u8, 3u8, 0u8, 1u8, 5u8, 4u8, 7u8, 6u8, 11u8, 10u8, 9u8, 8u8, 12u8, 13u8, 14u8, 15u8], seq![0u8, 1u8, 2u8, 3u8, 4u8, 5u8, 6u8, 7u8, 8u8, 9u8, 10u8, 11u8, 12u8, 13u8, 14u8, 15u8]);
    edges_model::lemma_edge_composes_to(seq![2u8, 3u8, 0u8, 1u8, 5u8, 4u8, 7u8, 6u8, 11u8, 10u8, 9u8, 8u8, 12u8, 13u8, 14u8, 15u8], seq![2u8, 3u8, 0u8, 1u8, 5u8, 4u8, 7u8, 6u8, 11u8, 10u8, 9u8, 8u8, 12u8, 13u8, 14u8, 15u8], seq![0u8, 1u8, 2u8, 3u8, 4u8, 5u8, 6u8, 7u8, 8u8, 9u8, 10u8, 11u8, 12u8, 13u8, 14u8, 15u8]);
}

/// Symmetry DB and the one that undoes it compose to the identity, either way round.
#[verifier::spinoff_prover]
proof fn lemma_undo_db()
    ensures
        edge_ops::spec_compose(spec_sym_edge_lanes(Sym::DB), spec_sym_edge_lanes(Sym::DB)) == edge_ops::spec_ident(),
        edge_ops::spec_compose(spec_sym_edge_lanes(Sym::DB), spec_sym_edge_lanes(Sym::DB)) == edge_ops::spec_ident(),
{
    assert(edge_ops::spec_ident() =~= seq![0u8, 1u8, 2u8, 3u8, 4u8, 5u8, 6u8, 7u8, 8u8, 9u8, 10u8, 11u8, 12u8, 13u8, 14u8, 15u8]);
    edges_model::lemma_edge_composes_to(seq![1u8, 0u8, 3u8, 2u8, 6u8, 7u8, 4u8, 5u8, 9u8, 8u8, 11u8, 10u8, 12u8, 13u8, 14u8, 15u8], seq![1u8, 0u8, 3u8, 2u8, 6u8, 7u8, 4u8, 5u8, 9u8, 8u8, 11u8, 10u8, 12u8, 13u8, 14u8, 15u8], seq![0u8, 1u8, 2u8, 3u8, 4u8, 5u8, 6u8, 7u8, 8u8, 9u8, 10u8, 11u8, 12u8, 13u8, 14u8, 15u8]);
    edges_model::lemma_edge_composes_to(seq![1u8, 0u8, 3u8, 2u8, 6u8, 7u8, 4u8, 5u8, 9u8, 8u8, 11u8, 10u8, 12u8, 13u8, 14u8, 15u8], seq![1u8, 0u8, 3u8, 2u8, 6u8, 7u8, 4u8, 5u8, 9u8, 8u8, 11u8, 10u8, 12u8, 13u8, 14u8, 15u8], seq![0u8, 1u8, 2u8, 3u8, 4u8, 5u8, 6u8, 7u8, 8u8, 9u8, 10u8, 11u8, 12u8, 13u8, 14u8, 15u8]);
}

/// Symmetry UB and the one that undoes it compose to the identity, either way round.
#[verifier::spinoff_prover]
proof fn lemma_undo_ub()
    ensures
        edge_ops::spec_compose(spec_sym_edge_lanes(Sym::UB), spec_sym_edge_lanes(Sym::UB)) == edge_ops::spec_ident(),
        edge_ops::spec_compose(spec_sym_edge_lanes(Sym::UB), spec_sym_edge_lanes(Sym::UB)) == edge_ops::spec_ident(),
{
    assert(edge_ops::spec_ident() =~= seq![0u8, 1u8, 2u8, 3u8, 4u8, 5u8, 6u8, 7u8, 8u8, 9u8, 10u8, 11u8, 12u8, 13u8, 14u8, 15u8]);
    edges_model::lemma_edge_composes_to(seq![3u8, 2u8, 1u8, 0u8, 7u8, 6u8, 5u8, 4u8, 10u8, 11u8, 8u8, 9u8, 12u8, 13u8, 14u8, 15u8], seq![3u8, 2u8, 1u8, 0u8, 7u8, 6u8, 5u8, 4u8, 10u8, 11u8, 8u8, 9u8, 12u8, 13u8, 14u8, 15u8], seq![0u8, 1u8, 2u8, 3u8, 4u8, 5u8, 6u8, 7u8, 8u8, 9u8, 10u8, 11u8, 12u8, 13u8, 14u8, 15u8]);
    edges_model::lemma_edge_composes_to(seq![3u8, 2u8, 1u8, 0u8, 7u8, 6u8, 5u8, 4u8, 10u8, 11u8, 8u8, 9u8, 12u8, 13u8, 14u8, 15u8], seq![3u8, 2u8, 1u8, 0u8, 7u8, 6u8, 5u8, 4u8, 10u8, 11u8, 8u8, 9u8, 12u8, 13u8, 14u8, 15u8], seq![0u8, 1u8, 2u8, 3u8, 4u8, 5u8, 6u8, 7u8, 8u8, 9u8, 10u8, 11u8, 12u8, 13u8, 14u8, 15u8]);
}

/// Symmetry FR and the one that undoes it compose to the identity, either way round.
#[verifier::spinoff_prover]
proof fn lemma_undo_fr()
    ensures
        edge_ops::spec_compose(spec_sym_edge_lanes(Sym::FR), spec_sym_edge_lanes(Sym::RU)) == edge_ops::spec_ident(),
        edge_ops::spec_compose(spec_sym_edge_lanes(Sym::RU), spec_sym_edge_lanes(Sym::FR)) == edge_ops::spec_ident(),
{
    assert(edge_ops::spec_ident() =~= seq![0u8, 1u8, 2u8, 3u8, 4u8, 5u8, 6u8, 7u8, 8u8, 9u8, 10u8, 11u8, 12u8, 13u8, 14u8, 15u8]);
    edges_model::lemma_edge_composes_to(seq![52u8, 55u8, 54u8, 53u8, 104u8, 105u8, 106u8, 107u8, 80u8, 83u8, 82u8, 81u8, 12u8, 13u8, 14u8, 15u8], seq![88u8, 91u8, 90u8, 89u8, 48u8, 51u8, 50u8, 49u8, 100u8, 101u8, 102u8, 103u8, 12u8, 13u8, 14u8, 15u8], seq![0u8, 1u8, 2u8, 3u8, 4u8, 5u8, 6u8, 7u8, 8u8, 9u8, 10u8, 11u8, 12u8, 13u8, 14u8, 15u8]);
    edges_model::lemma_edge_composes_to(seq![88u8, 91u8, 90u8, 89u8, 48u8, 51u8, 50u8, 49u8, 100u8, 101u8, 102u8, 103u8, 12u8, 13u8, 14u8, 15u8], seq![52u8, 55u8, 54u8, 53u8, 104u8, 105u8, 106u8, 107u8, 80u8, 83u8, 82u8, 81u8, 12u8, 13u8, 14u8, 15u8], seq![0u8, 1u8, 2u8, 3u8, 4u8, 5u8, 6u8, 7u8, 8u8, 9u8, 10u8, 11u8, 12u8, 13u8, 14u8, 15u8]);
}

/// Symmetry BR and the one that undoes it compose to the identity, either way round.
#[verifier::spinoff_prover]
proof fn lemma_undo_br()
    ensures
        edge_ops::spec_compose(spec_sym_edge_lanes(Sym::BR), spec_sym_edge_lanes(Sym::LD)) == edge_ops::spec_ident(),
        edge_ops::spec_compose(spec_sym_edge_lanes(Sym::LD), spec_sym_edge_lanes(Sym::BR)) == edge_ops::spec_ident(),
{
    assert(edge_ops::spec_ident() =~= seq![0u8, 1u8, 2u8, 3u8, 4u8, 5u8, 6u8, 7u8, 8u8, 9u8, 10u8, 11u8, 12u8, 13u8, 14u8, 15u8]);
    edges_model::lemma_edge_composes_to(seq![54u8, 53u8, 52u8, 55u8, 105u8, 104u8, 107u8, 106u8, 81u8, 82u8, 83u8, 80u8, 12u8, 13u8, 14u8, 15u8], seq![91u8, 88u8, 89u8, 90u8, 50u8, 49u8, 48u8, 51u8, 101u8, 100u8, 103u8, 102u8, 12u8, 13u8, 14u8, 15u8], seq![0u8, 1u8, 2u8, 3u8, 4u8, 5u8, 6u8, 7u8, 8u8, 9u8, 10u8, 11u8, 12u8, 13u8, 14u8, 15u8]);
    edges_model::lemma_edge_composes_to(seq![91u8, 88u8, 89u8, 90u8, 50u8, 49u8, 48u8, 51u8, 101u8, 100u8, 103u8, 102u8, 12u8, 13u8, 14u8, 15u8], seq![54u8, 53u8, 52u8, 55u8, 105u8, 104u8, 107u8, 106u8, 81u8, 82u8, 83u8, 80u8, 12u8, 13u8, 14u8, 15u8], seq![0u8, 1u8, 2u8, 3u8, 4u8, 5u8, 6u8, 7u8, 8u8, 9u8, 10u8, 11u8, 12u8, 13u8, 14u8, 15u8]);
}

/// Symmetry BL and the one that undoes it compose to the identity, either way round.
#[verifier::spinoff_prover]
proof fn lemma_undo_bl()
    ensures
        edge_ops::spec_compose(spec_sym_edge_lanes(Sym::BL), spec_sym_edge_lanes(Sym::RD)) == edge_ops::spec_ident(),
        edge_ops::spec_compose(spec_sym_edge_lanes(Sym::RD), spec_sym_edge_lanes(Sym::BL)) == edge_ops::spec_ident(),
{
    assert(edge_ops::spec_ident() =~= seq![0u8, 1u8, 2u8, 3u8, 4u8, 5u8, 6u8, 7u8, 8u8, 9u8, 10u8, 11u8, 12u8, 13u8, 14u8, 15u8]);
    edges_model::lemma_edge_composes_to(seq![55u8, 52u8, 53u8, 54u8, 106u8, 107u8, 104u8, 105u8, 83u8, 80u8, 81u8, 82u8, 12u8, 13u8, 14u8, 15u8], seq![89u8, 90u8, 91u8, 88u8, 49u8, 50u8, 51u8, 48u8, 102u8, 103u8, 100u8, 101u8, 12u8, 13u8, 14u8, 15u8], seq![0u8, 1u8, 2u8, 3u8, 4u8, 5u8, 6u8, 7u8, 8u8, 9u8, 10u8, 11u8, 12u8, 13u8, 14u8, 15u8]);
    edges_model::lemma_edge_composes_to(seq![89u8, 90u8, 91u8, 88u8, 49u8, 50u8, 51u8, 48u8, 102u8, 103u8, 100u8, 101u8, 12u8, 13u8, 14u8, 15u8], seq![55u8, 52u8, 53u8, 54u8, 106u8, 107u8, 104u8, 105u8, 83u8, 80u8, 81u8, 82u8, 12u8, 13u8, 14u8, 15u8], seq![0u8, 1u8, 2u8, 3u8, 4u8, 5u8, 6u8, 7u8, 8u8, 9u8, 10u8, 11u8, 12u8, 13u8, 14u8, 15u8]);
}

/// Symmetry FL and the one that undoes it compose to the identity, either way round.
#[verifier::spinoff_prover]
proof fn lemma_undo_fl()
    ensures
        edge_ops::spec_compose(spec_sym_edge_lanes(Sym::FL), spec_sym_edge_lanes(Sym::LU)) == edge_ops::spec_ident(),
        edge_ops::spec_compose(spec_sym_edge_lanes(Sym::LU), spec_sym_edge_lanes(Sym::FL)) == edge_ops::spec_ident(),
{
    assert(edge_ops::spec_ident() =~= seq![0u8, 1u8, 2u8, 3u8, 4u8, 5u8, 6u8, 7u8, 8u8, 9u8, 10u8, 11u8, 12u8, 13u8, 14u8, 15u8]);
    edges_model::lemma_edge_composes_to(seq![53u8, 54u8, 55u8, 52u8, 107u8, 106u8, 105u8, 104u8, 82u8, 81u8, 80u8, 83u8, 12u8, 13u8, 14u8, 15u8], seq![90u8, 89u8, 88u8, 91u8, 51u8, 48u8, 49u8, 50u8, 103u8, 102u8, 101u8, 100u8, 12u8, 13u8, 14u8, 15u8], seq![0u8, 1u8, 2u8, 3u8, 4u8, 5u8, 6u8, 7u8, 8u8, 9u8, 10u8, 11u8, 12u8, 13u8, 14u8, 15u8]);
    edges_model::lemma_edge_composes_to(seq![90u8, 89u8, 88u8, 91u8, 51u8, 48u8, 49u8, 50u8, 103u8, 102u8, 101u8, 100u8, 12u8, 13u8, 14u8, 15u8], seq![53u8, 54u8, 55u8, 52u8, 107u8, 106u8, 105u8, 104u8, 82u8, 81u8, 80u8, 83u8, 12u8, 13u8, 14u8, 15u8], seq![0u8, 1u8, 2u8, 3u8, 4u8, 5u8, 6u8, 7u8, 8u8, 9u8, 10u8, 11u8, 12u8, 13u8, 14u8, 15u8]);
}

/// Symmetry RU and the one that undoes it compose to the identity, either way round.
#[verifier::spinoff_prover]
proof fn lemma_undo_ru()
    ensures
        edge_ops::spec_compose(spec_sym_edge_lanes(Sym::RU), spec_sym_edge_lanes(Sym::FR)) == edge_ops::spec_ident(),
        edge_ops::spec_compose(spec_sym_edge_lanes(Sym::FR), spec_sym_edge_lanes(Sym::RU)) == edge_ops::spec_ident(),
{
    assert(edge_ops::spec_ident() =~= seq![0u8, 1u8, 2u8, 3u8, 4u8, 5u8, 6u8, 7u8, 8u8, 9u8, 10u8, 11u8, 12u8, 13u8, 14u8, 15u8]);
    edges_model::lemma_edge_composes_to(seq![88u8, 91u8, 90u8, 89u8, 48u8, 51u8, 50u8, 49u8, 100u8, 101u8, 102u8, 103u8, 12u8, 13u8, 14u8, 15u8], seq![52u8, 55u8, 54u8, 53u8, 104u8, 105u8, 106u8, 107u8, 80u8, 83u8, 82u8, 81u8, 12u8, 13u8, 14u8, 15u8], seq![0u8, 1u8, 2u8, 3u8, 4u8, 5u8, 6u8, 7u8, 8u8, 9u8, 10u8, 11u8, 12u8, 13u8, 14u8, 15u8]);
    edges_model::lemma_edge_composes_to(seq![52u8, 55u8, 54u8, 53u8, 104u8, 105u8, 106u8, 107u8, 80u8, 83u8, 82u8, 81u8, 12u8, 13u8, 14u8, 15u8], seq![88u8, 91u8, 90u8, 89u8, 48u8, 51u8, 50u8, 49u8, 100u8, 101u8, 102u8, 103u8, 12u8, 13u8, 14u8, 15u8], seq![0u8, 1u8, 2u8, 3u8, 4u8, 5u8, 6u8, 7u8, 8u8, 9u8, 10u8, 11u8, 12u8, 13u8, 14u8, 15u8]);
}

/// Symmetry RD and the one that undoes it compose to the identity, either way round.
#[verifier::spinoff_prover]
proof fn lemma_undo_rd()
    ensures
        edge_ops::spec_compose(spec_sym_edge_lanes(Sym::RD), spec_sym_edge_lanes(Sym::BL)) == edge_ops::spec_ident(),
        edge_ops::spec_compose(spec_sym_edge_lanes(Sym::BL), spec_sym_edge_lanes(Sym::RD)) == edge_ops::spec_ident(),
{
    assert(edge_ops::spec_ident() =~= seq![0u8, 1u8, 2u8, 3u8, 4u8, 5u8, 6u8, 7u8, 8u8, 9u8, 10u8, 11u8, 12u8, 13u8, 14u8, 15u8]);
    edges_model::lemma_edge_composes_to(seq![89u8, 90u8, 91u8, 88u8, 49u8, 50u8, 51u8, 48u8, 102u8, 103u8, 100u8, 101u8, 12u8, 13u8, 14u8, 15u8], seq![55u8, 52u8, 53u8, 54u8, 106u8, 107u8, 104u8, 105u8, 83u8, 80u8, 81u8, 82u8, 12u8, 13u8, 14u8, 15u8], seq![0u8, 1u8, 2u8, 3u8, 4u8, 5u8, 6u8, 7u8, 8u8, 9u8, 10u8, 11u8, 12u8, 13u8, 14u8, 15u8]);
    edges_model::lemma_edge_composes_to(seq![55u8, 52u8, 53u8, 54u8, 106u8, 107u8, 104u8, 105u8, 83u8, 80u8, 81u8, 82u8, 12u8, 13u8, 14u8, 15u8], seq![89u8, 90u8, 91u8, 88u8, 49u8, 50u8, 51u8, 48u8, 102u8, 103u8, 100u8, 101u8, 12u8, 13u8, 14u8, 15u8], seq![0u8, 1u8, 2u8, 3u8, 4u8, 5u8, 6u8, 7u8, 8u8, 9u8, 10u8, 11u8, 12u8, 13u8, 14u8, 15u8]);
}

/// Symmetry LD and the one that undoes it compose to the identity, either way round.
#[verifier::spinoff_prover]
proof fn lemma_undo_ld()
    ensures
        edge_ops::spec_compose(spec_sym_edge_lanes(Sym::LD), spec_sym_edge_lanes(Sym::BR)) == edge_ops::spec_ident(),
        edge_ops::spec_compose(spec_sym_edge_lanes(Sym::BR), spec_sym_edge_lanes(Sym::LD)) == edge_ops::spec_ident(),
{
    assert(edge_ops::spec_ident() =~= seq![0u8, 1u8, 2u8, 3u8, 4u8, 5u8, 6u8, 7u8, 8u8, 9u8, 10u8, 11u8, 12u8, 13u8, 14u8, 15u8]);
    edges_model::lemma_edge_composes_to(seq![91u8, 88u8, 89u8, 90u8, 50u8, 49u8, 48u8, 51u8, 101u8, 100u8, 103u8, 102u8, 12u8, 13u8, 14u8, 15u8], seq![54u8, 53u8, 52u8, 55u8, 105u8, 104u8, 107u8, 106u8, 81u8, 82u8, 83u8, 80u8, 12u8, 13u8, 14u8, 15u8], seq![0u8, 1u8, 2u8, 3u8, 4u8, 5u8, 6u8, 7u8, 8u8, 9u8, 10u8, 11u8, 12u8, 13u8, 14u8, 15u8]);
    edges_model::lemma_edge_composes_to(seq![54u8, 53u8, 52u8, 55u8, 105u8, 104u8, 107u8, 106u8, 81u8, 82u8, 83u8, 80u8, 12u8, 13u8, 14u8, 15u8], seq![91u8, 88u8, 89u8, 90u8, 50u8, 49u8, 48u8, 51u8, 101u8, 100u8, 103u8, 102u8, 12u8, 13u8, 14u8, 15u8], seq![0u8, 1u8, 2u8, 3u8, 4u8, 5u8, 6u8, 7u8, 8u8, 9u8, 10u8, 11u8, 12u8, 13u8, 14u8, 15u8]);
}

/// Symmetry LU and the one that undoes it compose to the identity, either way round.
#[verifier::spinoff_prover]
proof fn lemma_undo_lu()
    ensures
        edge_ops::spec_compose(spec_sym_edge_lanes(Sym::LU), spec_sym_edge_lanes(Sym::FL)) == edge_ops::spec_ident(),
        edge_ops::spec_compose(spec_sym_edge_lanes(Sym::FL), spec_sym_edge_lanes(Sym::LU)) == edge_ops::spec_ident(),
{
    assert(edge_ops::spec_ident() =~= seq![0u8, 1u8, 2u8, 3u8, 4u8, 5u8, 6u8, 7u8, 8u8, 9u8, 10u8, 11u8, 12u8, 13u8, 14u8, 15u8]);
    edges_model::lemma_edge_composes_to(seq![90u8, 89u8, 88u8, 91u8, 51u8, 48u8, 49u8, 50u8, 103u8, 102u8, 101u8, 100u8, 12u8, 13u8, 14u8, 15u8], seq![53u8, 54u8, 55u8, 52u8, 107u8, 106u8, 105u8, 104u8, 82u8, 81u8, 80u8, 83u8, 12u8, 13u8, 14u8, 15u8], seq![0u8, 1u8, 2u8, 3u8, 4u8, 5u8, 6u8, 7u8, 8u8, 9u8, 10u8, 11u8, 12u8, 13u8, 14u8, 15u8]);
    edges_model::lemma_edge_composes_to(seq![53u8, 54u8, 55u8, 52u8, 107u8, 106u8, 105u8, 104u8, 82u8, 81u8, 80u8, 83u8, 12u8, 13u8, 14u8, 15u8], seq![90u8, 89u8, 88u8, 91u8, 51u8, 48u8, 49u8, 50u8, 103u8, 102u8, 101u8, 100u8, 12u8, 13u8, 14u8, 15u8], seq![0u8, 1u8, 2u8, 3u8, 4u8, 5u8, 6u8, 7u8, 8u8, 9u8, 10u8, 11u8, 12u8, 13u8, 14u8, 15u8]);
}

/// Symmetry FU and the one that undoes it compose to the identity, either way round.
#[verifier::spinoff_prover]
proof fn lemma_undo_fu()
    ensures
        edge_ops::spec_compose(spec_sym_edge_lanes(Sym::FU), spec_sym_edge_lanes(Sym::FU)) == edge_ops::spec_ident(),
        edge_ops::spec_compose(spec_sym_edge_lanes(Sym::FU), spec_sym_edge_lanes(Sym::FU)) == edge_ops::spec_ident(),
{
    assert(edge_ops::spec_ident() =~= seq![0u8, 1u8, 2u8, 3u8, 4u8, 5u8, 6u8, 7u8, 8u8, 9u8, 10u8, 11u8, 12u8, 13u8, 14u8, 15u8]);
    edges_model::lemma_edge_composes_to(seq![43u8, 42u8, 41u8, 40u8, 116u8, 119u8, 118u8, 117u8, 35u8, 34u8, 33u8, 32u8, 12u8, 13u8, 14u8, 15u8], seq![43u8, 42u8, 41u8, 40u8, 116u8, 119u8, 118u8, 117u8, 35u8, 34u8, 33u8, 32u8, 12u8, 13u8, 14u8, 15u8], seq![0u8, 1u8, 2u8, 3u8, 4u8, 5u8, 6u8, 7u8, 8u8, 9u8, 10u8, 11u8, 12u8, 13u8, 14u8, 15u8]);
    edges_model::lemma_edge_composes_to(seq![43u8, 42u8, 41u8, 40u8, 116u8, 119u8, 118u8, 117u8, 35u8, 34u8, 33u8, 32u8, 12u8, 13u8, 14u8, 15u8], seq![43u8, 42u8, 41u8, 40u8, 116u8, 119u8, 118u8, 117u8, 35u8, 34u8, 33u8, 32u8, 12u8, 13u8, 14u8, 15u8], seq![0u8, 1u8, 2u8, 3u8, 4u8, 5u8, 6u8, 7u8, 8u8, 9u8, 10u8, 11u8, 12u8, 13u8, 14u8, 15u8]);
}

/// Symmetry FD and the one that undoes it compose to the identity, either way round.
#[verifier::spinoff_prover]
proof fn lemma_undo_fd()
    ensures
        edge_ops::spec_compose(spec_sym_edge_lanes(Sym::FD), spec_sym_edge_lanes(Sym::BU)) == edge_ops::spec_ident(),
        edge_ops::spec_compose(spec_sym_edge_lanes(Sym::BU), spec_sym_edge_lanes(Sym::FD)) == edge_ops::spec_ident(),
{
    assert(edge_ops::spec_ident() =~= seq![0u8, 1u8, 2u8, 3u8, 4u8, 5u8, 6u8, 7u8, 8u8, 9u8, 10u8, 11u8, 12u8, 13u8, 14u8, 15u8]);
    edges_model::lemma_edge_composes_to(seq![40u8, 41u8, 42u8, 43u8, 117u8, 118u8, 119u8, 116u8, 33u8, 32u8, 35u8, 34u8, 12u8, 13u8, 14u8, 15u8], seq![41u8, 40u8, 43u8, 42u8, 119u8, 116u8, 117u8, 118u8, 32u8, 33u8, 34u8, 35u8, 12u8, 13u8, 14u8, 15u8], seq![0u8, 1u8, 2u8, 3u8, 4u8, 5u8, 6u8, 7u8, 8u8, 9u8, 10u8, 11u8, 12u8, 13u8, 14u8, 15u8]);
    edges_model::lemma_edge_composes_to(seq![41u8, 40u8, 43u8, 42u8, 119u8, 116u8, 117u8, 118u8, 32u8, 33u8, 34u8, 35u8, 12u8, 13u8, 14u8, 15u8], seq![40u8, 41u8, 42u8, 43u8, 117u8, 118u8, 119u8, 116u8, 33u8, 32u8, 35u8, 34u8, 12u8, 13u8, 14u8, 15u8], seq![0u8, 1u8, 2u8, 3u8, 4u8, 5u8, 6u8, 7u8, 8u8, 9u8, 10u8, 11u8, 12u8, 13u8, 14u8, 15u8]);
}

/// Symmetry BD and the one that undoes it compose to the identity, either way round.
#[verifier::spinoff_prover]
proof fn lemma_undo_bd()
    ensures
        edge_ops::spec_compose(spec_sym_edge_lanes(Sym::BD), spec_sym_edge_lanes(Sym::BD)) == edge_ops::spec_ident(),
        edge_ops::spec_compose(spec_sym_edge_lanes(Sym::BD), spec_sym_edge_lanes(Sym::BD)) == edge_ops::spec_ident(),
{
    assert(edge_ops::spec_ident() =~= seq![0u8, 1u8, 2u8, 3u8, 4u8, 5u8, 6u8, 7u8, 8u8, 9u8, 10u8, 11u8, 12u8, 13u8, 14u8, 15u8]);
    edges_model::lemma_edge_composes_to(seq![42u8, 43u8, 40u8, 41u8, 118u8, 117u8, 116u8, 119u8, 34u8, 35u8, 32u8, 33u8, 12u8, 13u8, 14u8, 15u8], seq![42u8, 43u8, 40u8, 41u8, 118u8, 117u8, 116u8, 119u8, 34u8, 35u8, 32u8, 33u8, 12u8, 13u8, 14u8, 15u8], seq![0u8, 1u8, 2u8, 3u8, 4u8, 5u8, 6u8, 7u8, 8u8, 9u8, 10u8, 11u8, 12u8, 13u8, 14u8, 15u8]);
    edges_model::lemma_edge_composes_to(seq![42u8, 43u8, 40u8, 41u8, 118u8, 117u8, 116u8, 119u8, 34u8, 35u8, 32u8, 33u8, 12u8, 13u8, 14u8, 15u8], seq![42u8, 43u8, 40u8, 41u8, 118u8, 117u8, 116u8, 119u8, 34u8, 35u8, 32u8, 33u8, 12u8, 13u8, 14u8, 15u8], seq![0u8, 1u8, 2u8, 3u8, 4u8, 5u8, 6u8, 7u8, 8u8, 9u8, 10u8, 11u8, 12u8, 13u8, 14u8, 15u8]);
}

/// Symmetry BU and the one that undoes it compose to the identity, either way round.
#[verifier::spinoff_prover]
proof fn lemma_undo_bu()
    ensures
        edge_ops::spec_compose(spec_sym_edge_lanes(Sym::BU), spec_sym_edge_lanes(Sym::FD)) == edge_ops::spec_ident(),
        edge_ops::spec_compose(spec_sym_edge_lanes(Sym::FD), spec_sym_edge_lanes(Sym::BU)) == edge_ops::spec_ident(),
{
    assert(edge_ops::spec_ident() =~= seq![0u8, 1u8, 2u8, 3u8, 4u8, 5u8, 6u8, 7u8, 8u8, 9u8, 10u8, 11u8, 12u8, 13u8, 14u8, 15u8]);
    edges_model::lemma_edge_composes_to(seq![41u8, 40u8, 43u8, 42u8, 119u8, 116u8, 117u8, 118u8, 32u8, 33u8, 34u8, 35u8, 12u8, 13u8, 14u8, 15u8], seq![40u8, 41u8, 42u8, 43u8, 117u8, 118u8, 119u8, 116u8, 33u8, 32u8, 35u8, 34u8, 12u8, 13u8, 14u8, 15u8], seq![0u8, 1u8, 2u8, 3u8, 4u8, 5u8, 6u8, 7u8, 8u8, 9u8, 10u8, 11u8, 12u8, 13u8, 14u8, 15u8]);
    edges_model::lemma_edge_composes_to(seq![40u8, 41u8, 42u8, 43u8, 117u8, 118u8, 119u8, 116u8, 33u8, 32u8, 35u8, 34u8, 12u8, 13u8, 14u8, 15u8], seq![41u8, 40u8, 43u8, 42u8, 119u8, 116u8, 117u8, 118u8, 32u8, 33u8, 34u8, 35u8, 12u8, 13u8, 14u8, 15u8], seq![0u8, 1u8, 2u8, 3u8, 4u8, 5u8, 6u8, 7u8, 8u8, 9u8, 10u8, 11u8, 12u8, 13u8, 14u8, 15u8]);
}

/// Symmetry RF and the one that undoes it compose to the identity, either way round.
#[verifier::spinoff_prover]
proof fn lemma_undo_rf()
    ensures
        edge_ops::spec_compose(spec_sym_edge_lanes(Sym::RF), spec_sym_edge_lanes(Sym::LF)) == edge_ops::spec_ident(),
        edge_ops::spec_compose(spec_sym_edge_lanes(Sym::LF), spec_sym_edge_lanes(Sym::RF)) == edge_ops::spec_ident(),
{
    assert(edge_ops::spec_ident() =~= seq![0u8, 1u8, 2u8, 3u8, 4u8, 5u8, 6u8, 7u8, 8u8, 9u8, 10u8, 11u8, 12u8, 13u8, 14u8, 15u8]);
    edges_model::lemma_edge_composes_to(seq![113u8, 114u8, 115u8, 112u8, 24u8, 27u8, 26u8, 25u8, 21u8, 22u8, 23u8, 20u8, 12u8, 13u8, 14u8, 15u8], seq![115u8, 112u8, 113u8, 114u8, 27u8, 24u8, 25u8, 26u8, 20u8, 23u8, 22u8, 21u8, 12u8, 13u8, 14u8, 15u8], seq![0u8, 1u8, 2u8, 3u8, 4u8, 5u8, 6u8, 7u8, 8u8, 9u8, 10u8, 11u8, 12u8, 13u8, 14u8, 15u8]);
    edges_model::lemma_edge_composes_to(seq![115u8, 112u8, 113u8, 114u8, 27u8, 24u8, 25u8, 26u8, 20u8, 23u8, 22u8, 21u8, 12u8, 13u8, 14u8, 15u8], seq![113u8, 114u8, 115u8, 112u8, 24u8, 27u8, 26u8, 25u8, 21u8, 22u8, 23u8, 20u8, 12u8, 13u8, 14u8, 15u8], seq![0u8, 1u8, 2u8, 3u8, 4u8, 5u8, 6u8, 7u8, 8u8, 9u8, 10u8, 11u8, 12u8, 13u8, 14u8, 15u8]);
}

/// Symmetry RB and the one that undoes it compose to the identity, either way round.
#[verifier::spinoff_prover]
proof fn lemma_undo_rb()
    ensures
        edge_ops::spec_compose(spec_sym_edge_lanes(Sym::RB), spec_sym_edge_lanes(Sym::RB)) == edge_ops::spec_ident(),
        edge_ops::spec_compose(spec_sym_edge_lanes(Sym::RB), spec_sym_edge_lanes(Sym::RB)) == edge_ops::spec_ident(),
{
    assert(edge_ops::spec_ident() =~= seq![0u8, 1u8, 2u8, 3u8, 4u8, 5u8, 6u8, 7u8, 8u8, 9u8, 10u8, 11u8, 12u8, 13u8, 14u8, 15u8]);
    edges_model::lemma_edge_composes_to(seq![112u8, 115u8, 114u8, 113u8, 25u8, 26u8, 27u8, 24u8, 23u8, 20u8, 21u8, 22u8, 12u8, 13u8, 14u8, 15u8], seq![112u8, 115u8, 114u8, 113u8, 25u8, 26u8, 27u8, 24u8, 23u8, 20u8, 21u8, 22u8, 12u8, 13u8, 14u8, 15u8], seq![0u8, 1u8, 2u8, 3u8, 4u8, 5u8, 6u8, 7u8, 8u8, 9u8, 10u8, 11u8, 12u8, 13u8, 14u8, 15u8]);
    edges_model::lemma_edge_composes_to(seq![112u8, 115u8, 114u8, 113u8, 25u8, 26u8, 27u8, 24u8, 23u8, 20u8, 21u8, 22u8, 12u8, 13u8, 14u8, 15u8], seq![112u8, 115u8, 114u8, 113u8, 25u8, 26u8, 27u8, 24u8, 23u8, 20u8, 21u8, 22u8, 12u8, 13u8, 14u8, 15u8], seq![0u8, 1u8, 2u8, 3u8, 4u8, 5u8, 6u8, 7u8, 8u8, 9u8, 10u8, 11u8, 12u8, 13u8, 14u8, 15u8]);
}

/// Symmetry LB and the one that undoes it compose to the identity, either way round.
#[verifier::spinoff_prover]
proof fn lemma_undo_lb()
    ensures
        edge_ops::spec_compose(spec_sym_edge_lanes(Sym::LB), spec_sym_edge_lanes(Sym::LB)) == edge_ops::spec_ident(),
        edge_ops::spec_compose(spec_sym_edge_lanes(Sym::LB), spec_sym_edge_lanes(Sym::LB)) == edge_ops::spec_ident(),
{
    assert(edge_ops::spec_ident() =~= seq![0u8, 1u8, 2u8, 3u8, 4u8, 5u8, 6u8, 7u8, 8u8, 9u8, 10u8, 11u8, 12u8, 13u8, 14u8, 15u8]);
    edges_model::lemma_edge_composes_to(seq![114u8, 113u8, 112u8, 115u8, 26u8, 25u8, 24u8, 27u8, 22u8, 21u8, 20u8, 23u8, 12u8, 13u8, 14u8, 15u8], seq![114u8, 113u8, 112u8, 115u8, 26u8, 25u8, 24u8, 27u8, 22u8, 21u8, 20u8, 23u8, 12u8, 13u8, 14u8, 15u8], seq![0u8, 1u8, 2u8, 3u8, 4u8, 5u8, 6u8, 7u8, 8u8, 9u8, 10u8, 11u8, 12u8, 13u8, 14u8, 15u8]);
    edges_model::lemma_edge_composes_to(seq![114u8, 113u8, 112u8, 115u8, 26u8, 25u8, 24u8, 27u8, 22u8, 21u8, 20u8, 23u8, 12u8, 13u8, 14u8, 15u8], seq![114u8, 113u8, 112u8, 115u8, 26u8, 25u8, 24u8, 27u8, 22u8, 21u8, 20u8, 23u8, 12u8, 13u8, 14u8, 15u8], seq![0u8, 1u8, 2u8, 3u8, 4u8, 5u8, 6u8, 7u8, 8u8, 9u8, 10u8, 11u8, 12u8, 13u8, 14u8, 15u8]);
}

/// Symmetry LF and the one that undoes it compose to the identity, either way round.
#[verifier::spinoff_prover]
proof fn lemma_undo_lf()
    ensures
        edge_ops::spec_compose(spec_sym_edge_lanes(Sym::LF), spec_sym_edge_lanes(Sym::RF)) == edge_ops::spec_ident(),
        edge_ops::spec_compose(spec_sym_edge_lanes(Sym::RF), spec_sym_edge_lanes(Sym::LF)) == edge_ops::spec_ident(),
{
    assert(edge_ops::spec_ident() =~= seq![0u8, 1u8, 2u8, 3u8, 4u8, 5u8, 6u8, 7u8, 8u8, 9u8, 10u8, 11u8, 12u8, 13u8, 14u8, 15u8]);
    edges_model::lemma_edge_composes_to(seq![115u8, 112u8, 113u8, 114u8, 27u8, 24u8, 25u8, 26u8, 20u8, 23u8, 22u8, 21u8, 12u8, 13u8, 14u8, 15u8], seq![113u8, 114u8, 115u8, 112u8, 24u8, 27u8, 26u8, 25u8, 21u8, 22u8, 23u8, 20u8, 12u8, 13u8, 14u8, 15u8], seq![0u8, 1u8, 2u8, 3u8, 4u8, 5u8, 6u8, 7u8, 8u8, 9u8, 10u8, 11u8, 12u8, 13u8, 14u8, 15u8]);
    edges_model::lemma_edge_composes_to(seq![113u8, 114u8, 115u8, 112u8, 24u8, 27u8, 26u8, 25u8, 21u8, 22u8, 23u8, 20u8, 12u8, 13u8, 14u8, 15u8], seq![115u8, 112u8, 113u8, 114u8, 27u8, 24u8, 25u8, 26u8, 20u8, 23u8, 22u8, 21u8, 12u8, 13u8, 14u8, 15u8], seq![0u8, 1u8, 2u8, 3u8, 4u8, 5u8, 6u8, 7u8, 8u8, 9u8, 10u8, 11u8, 12u8, 13u8, 14u8, 15u8]);
}

/// Symmetry URm and the one that undoes it compose to the identity, either way round.
#[verifier::spinoff_prover]
proof fn lemma_undo_urm()
    ensures
        edge_ops::spec_compose(spec_sym_edge_lanes(Sym::URm), spec_sym_edge_lanes(Sym::URm)) == edge_ops::spec_ident(),
        edge_ops::spec_compose(spec_sym_edge_lanes(Sym::URm), spec_sym_edge_lanes(Sym::URm)) == edge_ops::spec_ident(),
{
    assert(edge_ops::spec_ident() =~= seq![0u8, 1u8, 2u8, 3u8, 4u8, 5u8, 6u8, 7u8, 8u8, 9u8, 10u8, 11u8, 12u8, 13u8, 14u8, 15u8]);
    edges_model::lemma_edge_composes_to(seq![68u8, 69u8, 70u8, 71u8, 64u8, 65u8, 66u8, 67u8, 120u8, 123u8, 122u8, 121u8, 12u8, 13u8, 14u8, 15u8], seq![68u8, 69u8, 70u8, 71u8, 64u8, 65u8, 66u8, 67u8, 120u8, 123u8, 122u8, 121u8, 12u8, 13u8, 14u8, 15u8], seq![0u8, 1u8, 2u8, 3u8, 4u8, 5u8, 6u8, 7u8, 8u8, 9u8, 10u8, 11u8, 12u8, 13u8, 14u8, 15u8]);
    edges_model::lemma_edge_composes_to(seq![68u8, 69u8, 70u8, 71u8, 64u8, 65u8, 66u8, 67u8, 120u8, 123u8, 122u8, 121u8, 12u8, 13u8, 14u8, 15u8], seq![68u8, 69u8, 70u8, 71u8, 64u8, 65u8, 66u8, 67u8, 120u8, 123u8, 122u8, 121u8, 12u8, 13u8, 14u8, 15u8], seq![0u8, 1u8, 2u8, 3u8, 4u8, 5u8, 6u8, 7u8, 8u8, 9u8, 10u8, 11u8, 12u8, 13u8, 14u8, 15u8]);
}

/// Symmetry DRm and the one that undoes it compose to the identity, either way round.
#[verifier::spinoff_prover]
proof fn lemma_undo_drm()
    ensures
        edge_ops::spec_compose(spec_sym_edge_lanes(Sym::DRm), spec_sym_edge_lanes(Sym::DLm)) == edge_ops::spec_ident(),
        edge_ops::spec_compose(spec_sym_edge_lanes(Sym::DLm), spec_sym_edge_lanes(Sym::DRm)) == edge_ops::spec_ident(),
{
    assert(edge_ops::spec_ident() =~= seq![0u8, 1u8, 2u8, 3u8, 4u8, 5u8, 6u8, 7u8, 8u8, 9u8, 10u8, 11u8, 12u8, 13u8, 14u8, 15u8]);
    edges_model::lemma_edge_composes_to(seq![70u8, 71u8, 68u8, 69u8, 65u8, 64u8, 67u8, 66u8, 121u8, 122u8, 123u8, 120u8, 12u8, 13u8, 14u8, 15u8], seq![69u8, 68u8, 71u8, 70u8, 66u8, 67u8, 64u8, 65u8, 123u8, 120u8, 121u8, 122u8, 12u8, 13u8, 14u8, 15u8], seq![0u8, 1u8, 2u8, 3u8, 4u8, 5u8, 6u8, 7u8, 8u8, 9u8, 10u8, 11u8, 12u8, 13u8, 14u8, 15u8]);
    edges_model::lemma_edge_composes_to(seq![69u8, 68u8, 71u8, 70u8, 66u8, 67u8, 64u8, 65u8, 123u8, 120u8, 121u8, 122u8, 12u8, 13u8, 14u8, 15u8], seq![70u8, 71u8, 68u8, 69u8, 65u8, 64u8, 67u8, 66u8, 121u8, 122u8, 123u8, 120u8, 12u8, 13u8, 14u8, 15u8], seq![0u8, 1u8, 2u8, 3u8, 4u8, 5u8, 6u8, 7u8, 8u8, 9u8, 10u8, 11u8, 12u8, 13u8, 14u8, 15u8]);
}

/// Symmetry DLm and the one that undoes it compose to the identity, either way round.
#[verifier::spinoff_prover]
proof fn lemma_undo_dlm()
    ensures
        edge_ops::spec_compose(spec_sym_edge_lanes(Sym::DLm), spec_sym_edge_lanes(Sym::DRm)) == edge_ops::spec_ident(),
        edge_ops::spec_compose(spec_sym_edge_lanes(Sym::DRm), spec_sym_edge_lanes(Sym::DLm)) == edge_ops::spec_ident(),
{
    assert(edge_ops::spec_ident() =~= seq![0u8, 1u8, 2u8, 3u8, 4u8, 5u8, 6u8, 7u8, 8u8, 9u8, 10u8, 11u8, 12u8, 13u8, 14u8, 15u8]);
    edges_model::lemma_edge_composes_to(seq![69u8, 68u8, 71u8, 70u8, 66u8, 67u8, 64u8, 65u8, 123u8, 120u8, 121u8, 122u8, 12u8, 13u8, 14u8, 15u8], seq![70u8, 71u8, 68u8, 69u8, 65u8, 64u8, 67u8, 66u8, 121u8, 122u8, 123u8, 120u8, 12u8, 13u8, 14u8, 15u8], seq![0u8, 1u8, 2u8, 3u8, 4u8, 5u8, 6u8, 7u8, 8u8, 9u8, 10u8, 11u8, 12u8, 13u8, 14u8, 15u8]);
    edges_model::lemma_edge_composes_to(seq![70u8, 71u8, 68u8, 69u8, 65u8, 64u8, 67u8, 66u8, 121u8, 122u8, 123u8, 120u8, 12u8, 13u8, 14u8, 15u8], seq![69u8, 68u8, 71u8, 70u8, 66u8, 67u8, 64u8, 65u8, 123u8, 120u8, 121u8, 122u8, 12u8, 13u8, 14u8, 15u8], seq![0u8, 1u8, 2u8, 3u8, 4u8, 5u8, 6u8, 7u8, 8u8, 9u8, 10u8, 11u8, 12u8, 13u8, 14u8, 15u8]);
}

/// Symmetry ULm and the one that undoes it compose to the identity, either way round.
#[verifier::spinoff_prover]
proof fn lemma_undo_ulm()
    ensures
        edge_ops::spec_compose(spec_sym_edge_lanes(Sym::ULm), spec_sym_edge_lanes(Sym::ULm)) == edge_ops::spec_ident(),
        edge_ops::spec_compose(spec_sym_edge_lanes(Sym::ULm), spec_sym_edge_lanes(Sym::ULm)) == edge_ops::spec_ident(),
{
    assert(edge_ops::spec_ident() =~= seq![0u8, 1u8, 2u8, 3u8, 4u8, 5u8, 6u8, 7u8, 8u8, 9u8, 10u8, 11u8, 12u8, 13u8, 14u8, 15u8]);
    edges_model::lemma_edge_composes_to(seq![71u8, 70u8, 69u8, 68u8, 67u8, 66u8, 65u8, 64u8, 122u8, 121u8, 120u8, 123u8, 12u8, 13u8, 14u8, 15u8], seq![71u8, 70u8, 69u8, 68u8, 67u8, 66u8, 65u8, 64u8, 122u8, 121u8, 120u8, 123u8, 12u8, 13u8, 14u8, 15u8], seq![0u8, 1u8, 2u8, 3u8, 4u8, 5u8, 6u8, 7u8, 8u8, 9u8, 10u8, 11u8, 12u8, 13u8, 14u8, 15u8]);
    edges_model::lemma_edge_composes_to(seq![71u8, 70u8, 69u8, 68u8, 67u8, 66u8, 65u8, 64u8, 122u8, 121u8, 120u8, 123u8, 12u8, 13u8, 14u8, 15u8], seq![71u8, 70u8, 69u8, 68u8, 67u8, 66u8, 65u8, 64u8, 122u8, 121u8, 120u8, 123u8, 12u8, 13u8, 14u8, 15u8], seq![0u8, 1u8, 2u8, 3u8, 4u8, 5u8, 6u8, 7u8, 8u8, 9u8, 10u8, 11u8, 12u8, 13u8, 14u8, 15u8]);
}

/// Symmetry UFm and the one that undoes it compose to the identity, either way round.
#[verifier::spinoff_prover]
proof fn lemma_undo_ufm()
    ensures
        edge_ops::spec_compose(spec_sym_edge_lanes(Sym::UFm), spec_sym_edge_lanes(Sym::UFm)) == edge_ops::spec_ident(),
        edge_ops::spec_compose(spec_sym_edge_lanes(Sym::UFm), spec_sym_edge_lanes(Sym::UFm)) == edge_ops::spec_ident(),
{
    assert(edge_ops::spec_ident() =~= seq![0u8, 1u8, 2u8, 3u8, 4u8, 5u8, 6u8, 7u8, 8u8, 9u8, 10u8, 11u8, 12u8, 13u8, 14u8, 15u8]);
    edges_model::lemma_edge_composes_to(seq![3u8, 2u8, 1u8, 0u8, 4u8, 5u8, 6u8, 7u8, 11u8, 10u8, 9u8, 8u8, 12u8, 13u8, 14u8, 15u8], seq![3u8, 2u8, 1u8, 0u8, 4u8, 5u8, 6u8, 7u8, 11u8, 10u8, 9u8, 8u8, 12u8, 13u8, 14u8, 15u8], seq![0u8, 1u8, 2u8, 3u8, 4u8, 5u8, 6u8, 7u8, 8u8, 9u8, 10u8, 11u8, 12u8, 13u8, 14u8, 15u8]);
    edges_model::lemma_edge_composes_to(seq![3u8, 2u8, 1u8, 0u8, 4u8, 5u8, 6u8, 7u8, 11u8, 10u8, 9u8, 8u8, 12u8, 13u8, 14u8, 15u8], seq![3u8, 2u8, 1u8, 0u8, 4u8, 5u8, 6u8, 7u8, 11u8, 10u8, 9u8, 8u8, 12u8, 13u8, 14u8, 15u8], seq![0u8, 1u8, 2u8, 3u8, 4u8, 5u8, 6u8, 7u8, 8u8, 9u8, 10u8, 11u8, 12u8, 13u8, 14u8, 15u8]);
}

/// Symmetry DFm and the one that undoes it compose to the identity, either way round.
#[verifier::spinoff_prover]
proof fn lemma_undo_dfm()
    ensures
        edge_ops::spec_compose(spec_sym_edge_lanes(Sym::DFm), spec_sym_edge_lanes(Sym::DFm)) == edge_ops::spec_ident(),
        edge_ops::spec_compose(spec_sym_edge_lanes(Sym::DFm), spec_sym_edge_lanes(Sym::DFm)) == edge_ops::spec_ident(),
{
    assert(edge_ops::spec_ident() =~= seq![0u8, 1u8, 2u8, 3u8, 4u8, 5u8, 6u8, 7u8, 8u8, 9u8, 10u8, 11u8, 12u8, 13u8, 14u8, 15u8]);
    edges_model::lemma_edge_composes_to(seq![1u8, 0u8, 3u8, 2u8, 5u8, 4u8, 7u8, 6u8, 8u8, 9u8, 10u8, 11u8, 12u8, 13u8, 14u8, 15u8], seq![1u8, 0u8, 3u8, 2u8, 5u8, 4u8, 7u8, 6u8, 8u8, 9u8, 10u8, 11u8, 12u8, 13u8, 14u8, 15u8], seq![0u8, 1u8, 2u8, 3u8, 4u8, 5u8, 6u8, 7u8, 8u8, 9u8, 10u8, 11u8, 12u8, 13u8, 14u8, 15u8]);
    edges_model::lemma_edge_composes_to(seq![1u8, 0u8, 3u8, 2u8, 5u8, 4u8, 7u8, 6u8, 8u8, 9u8, 10u8, 11u8, 12u8, 13u8, 14u8, 15u8], seq![1u8, 0u8, 3u8, 2u8, 5u8, 4u8, 7u8, 6u8, 8u8, 9u8, 10u8, 11u8, 12u8, 13u8, 14u8, 15u8], seq![0u8, 1u8, 2u8, 3u8, 4u8, 5u8, 6u8, 7u8, 8u8, 9u8, 10u8, 11u8, 12u8, 13u8, 14u8, 15u8]);
}

/// Symmetry DBm and the one that undoes it compose to the identity, either way round.
#[verifier::spinoff_prover]
proof fn lemma_undo_dbm()
    ensures
        edge_ops::spec_compose(spec_sym_edge_lanes(Sym::DBm), spec_sym_edge_lanes(Sym::DBm)) == edge_ops::spec_ident(),
        edge_ops::spec_compose(spec_sym_edge_lanes(Sym::DBm), spec_sym_edge_lanes(Sym::DBm)) == edge_ops::spec_ident(),
{
    assert(edge_ops::spec_ident() =~= seq![0u8, 1u8, 2u8, 3u8, 4u8, 5u8, 6u8, 7u8, 8u8, 9u8, 10u8, 11u8, 12u8, 13u8, 14u8, 15u8]);
    edges_model::lemma_edge_composes_to(seq![2u8, 3u8, 0u8, 1u8, 6u8, 7u8, 4u8, 5u8, 10u8, 11u8, 8u8, 9u8, 12u8, 13u8, 14u8, 15u8], seq![2u8, 3u8, 0u8, 1u8, 6u8, 7u8, 4u8, 5u8, 10u8, 11u8, 8u8, 9u8, 12u8, 13u8, 14u8, 15u8], seq![0u8, 1u8, 2u8, 3u8, 4u8, 5u8, 6u8, 7u8, 8u8, 9u8, 10u8, 11u8, 12u8, 13u8, 14u8, 15u8]);
    edges_model::lemma_edge_composes_to(seq![2u8, 3u8, 0u8, 1u8, 6u8, 7u8, 4u8, 5u8, 10u8, 11u8, 8u8, 9u8, 12u8, 13u8, 14u8, 15u8], seq![2u8, 3u8, 0u8, 1u8, 6u8, 7u8, 4u8, 5u8, 10u8, 11u8, 8u8, 9u8, 12u8, 13u8, 14u8, 15u8], seq![0u8, 1u8, 2u8, 3u8, 4u8, 5u8, 6u8, 7u8, 8u8, 9u8, 10u8, 11u8, 12u8, 13u8, 14u8, 15u8]);
}

/// Symmetry UBm and the one that undoes it compose to the identity, either way round.
#[verifier::spinoff_prover]
proof fn lemma_undo_ubm()
    ensures
        edge_ops::spec_compose(spec_sym_edge_lanes(Sym::UBm), spec_sym_edge_lanes(Sym::UBm)) == edge_ops::spec_ident(),
        edge_ops::spec_compose(spec_sym_edge_lanes(Sym::UBm), spec_sym_edge_lanes(Sym::UBm)) == edge_ops::spec_ident(),
{
    assert(edge_ops::spec_ident() =~= seq![0u8, 1u8, 2u8, 3u8, 4u8, 5u8, 6u8, 7u8, 8u8, 9u8, 10u8, 11u8, 12u8, 13u8, 14u8, 15u8]);
    edges_model::lemma_edge_composes_to(seq![0u8, 1u8, 2u8, 3u8, 7u8, 6u8, 5u8, 4u8, 9u8, 8u8, 11u8, 10u8, 12u8, 13u8, 14u8, 15u8], seq![0u8, 1u8, 2u8, 3u8, 7u8, 6u8, 5u8, 4u8, 9u8, 8u8, 11u8, 10u8, 12u8, 13u8, 14u8, 15u8], seq![0u8, 1u8, 2u8, 3u8, 4u8, 5u8, 6u8, 7u8, 8u8, 9u8, 10u8, 11u8, 12u8, 13u8, 14u8, 15u8]);
    edges_model::lemma_edge_composes_to(seq![0u8, 1u8, 2u8, 3u8, 7u8, 6u8, 5u8, 4u8, 9u8, 8u8, 11u8, 10u8, 12u8, 13u8, 14u8, 15u8], seq![0u8, 1u8, 2u8, 3u8, 7u8, 6u8, 5u8, 4u8, 9u8, 8u8, 11u8, 10u8, 12u8, 13u8, 14u8, 15u8], seq![0u8, 1u8, 2u8, 3u8, 4u8, 5u8, 6u8, 7u8, 8u8, 9u8, 10u8, 11u8, 12u8, 13u8, 14u8, 15u8]);
}

/// Symmetry FRm and the one that undoes it compose to the identity, either way round.
#[verifier::spinoff_prover]
proof fn lemma_undo_frm()
    ensures
        edge_ops::spec_compose(spec_sym_edge_lanes(Sym::FRm), spec_sym_edge_lanes(Sym::LUm)) == edge_ops::spec_ident(),
        edge_ops::spec_compose(spec_sym_edge_lanes(Sym::LUm), spec_sym_edge_lanes(Sym::FRm)) == edge_ops::spec_ident(),
{
    assert(edge_ops::spec_ident() =~= seq![0u8, 1u8, 2u8, 3u8, 4u8, 5u8, 6u8, 7u8, 8u8, 9u8, 10u8, 11u8, 12u8, 13u8, 14u8, 15u8]);
    edges_model::lemma_edge_composes_to(seq![53u8, 54u8, 55u8, 52u8, 104u8, 105u8, 106u8, 107u8, 81u8, 82u8, 83u8, 80u8, 12u8, 13u8, 14u8, 15u8], seq![91u8, 88u8, 89u8, 90u8, 51u8, 48u8, 49u8, 50u8, 100u8, 101u8, 102u8, 103u8, 12u8, 13u8, 14u8, 15u8], seq![0u8, 1u8, 2u8, 3u8, 4u8, 5u8, 6u8, 7u8, 8u8, 9u8, 10u8, 11u8, 12u8, 13u8, 14u8, 15u8]);
    edges_model::lemma_edge_composes_to(seq![91u8, 88u8, 89u8, 90u8, 51u8, 48u8, 49u8, 50u8, 100u8, 101u8, 102u8, 103u8, 12u8, 13u8, 14u8, 15u8], seq![53u8, 54u8, 55u8, 52u8, 104u8, 105u8, 106u8, 107u8, 81u8, 82u8, 83u8, 80u8, 12u8, 13u8, 14u8, 15u8], seq![0u8, 1u8, 2u8, 3u8, 4u8, 5u8, 6u8, 7u8, 8u8, 9u8, 10u8, 11u8, 12u8, 13u8, 14u8, 15u8]);
}

/// Symmetry BRm and the one that undoes it compose to the identity, either way round.
#[verifier::spinoff_prover]
proof fn lemma_undo_brm()
    ensures
        edge_ops::spec_compose(spec_sym_edge_lanes(Sym::BRm), spec_sym_edge_lanes(Sym::RDm)) == edge_ops::spec_ident(),
        edge_ops::spec_compose(spec_sym_edge_lanes(Sym::RDm), spec_sym_edge_lanes(Sym::BRm)) == edge_ops::spec_ident(),
{
    assert(edge_ops::spec_ident() =~= seq![0u8, 1u8, 2u8, 3u8, 4u8, 5u8, 6u8, 7u8, 8u8, 9u8, 10u8, 11u8, 12u8, 13u8, 14u8, 15u8]);
    edges_model::lemma_edge_composes_to(seq![55u8, 52u8, 53u8, 54u8, 105u8, 104u8, 107u8, 106u8, 80u8, 83u8, 82u8, 81u8, 12u8, 13u8, 14u8, 15u8], seq![88u8, 91u8, 90u8, 89u8, 49u8, 50u8, 51u8, 48u8, 101u8, 100u8, 103u8, 102u8, 12u8, 13u8, 14u8, 15u8], seq![0u8, 1u8, 2u8, 3u8, 4u8, 5u8, 6u8, 7u8, 8u8, 9u8, 10u8, 11u8, 12u8, 13u8, 14u8, 15u8]);
    edges_model::lemma_edge_composes_to(seq![88u8, 91u8, 90u8, 89u8, 49u8, 50u8, 51u8, 48u8, 101u8, 100u8, 103u8, 102u8, 12u8, 13u8, 14u8, 15u8], seq![55u8, 52u8, 53u8, 54u8, 105u8, 104u8, 107u8, 106u8, 80u8, 83u8, 82u8, 81u8, 12u8, 13u8, 14u8, 15u8], seq![0u8, 1u8, 2u8, 3u8, 4u8, 5u8, 6u8, 7u8, 8u8, 9u8, 10u8, 11u8, 12u8, 13u8, 14u8, 15u8]);
}

/// Symmetry BLm and the one that undoes it compose to the identity, either way round.
#[verifier::spinoff_prover]
proof fn lemma_undo_blm()
    ensures
        edge_ops::spec_compose(spec_sym_edge_lanes(Sym::BLm), spec_sym_edge_lanes(Sym::LDm)) == edge_ops::spec_ident(),
        edge_ops::spec_compose(spec_sym_edge_lanes(Sym::LDm), spec_sym_edge_lanes(Sym::BLm)) == edge_ops::spec_ident(),
{
    assert(edge_ops::spec_ident() =~= seq![0u8, 1u8, 2u8, 3u8, 4u8, 5u8, 6u8, 7u8, 8u8, 9u8, 10u8, 11u8, 12u8, 13u8, 14u8, 15u8]);
    edges_model::lemma_edge_composes_to(seq![54u8, 53u8, 52u8, 55u8, 106u8, 107u8, 104u8, 105u8, 82u8, 81u8, 80u8, 83u8, 12u8, 13u8, 14u8, 15u8], seq![90u8, 89u8, 88u8, 91u8, 50u8, 49u8, 48u8, 51u8, 102u8, 103u8, 100u8, 101u8, 12u8, 13u8, 14u8, 15u8], seq![0u8, 1u8, 2u8, 3u8, 4u8, 5u8, 6u8, 7u8, 8u8, 9u8, 10u8, 11u8, 12u8, 13u8, 14u8, 15u8]);
    edges_model::lemma_edge_composes_to(seq![90u8, 89u8, 88u8, 91u8, 50u8, 49u8, 48u8, 51u8, 102u8, 103u8, 100u8, 101u8, 12u8, 13u8, 14u8, 15u8], seq![54u8, 53u8, 52u8, 55u8, 106u8, 107u8, 104u8, 105u8, 82u8, 81u8, 80u8, 83u8, 12u8, 13u8, 14u8, 15u8], seq![0u8, 1u8, 2u8, 3u8, 4u8, 5u8, 6u8, 7u8, 8u8, 9u8, 10u8, 11u8, 12u8, 13u8, 14u8, 15u8]);
}

/// Symmetry FLm and the one that undoes it compose to the identity, either way round.
#[verifier::spinoff_prover]
proof fn lemma_undo_flm()
    ensures
        edge_ops::spec_compose(spec_sym_edge_lanes(Sym::FLm), spec_sym_edge_lanes(Sym::RUm)) == edge_ops::spec_ident(),
        edge_ops::spec_compose(spec_sym_edge_lanes(Sym::RUm), spec_sym_edge_lanes(Sym::FLm)) == edge_ops::spec_ident(),
{
    assert(edge_ops::spec_ident() =~= seq![0u8, 1u8, 2u8, 3u8, 4u8, 5u8, 6u8, 7u8, 8u8, 9u8, 10u8, 11u8, 12u8, 13u8, 14u8, 15u8]);
    edges_model::lemma_edge_composes_to(seq![52u8, 55u8, 54u8, 53u8, 107u8, 106u8, 105u8, 104u8, 83u8, 80u8, 81u8, 82u8, 12u8, 13u8, 14u8, 15u8], seq![89u8, 90u8, 91u8, 88u8, 48u8, 51u8, 50u8, 49u8, 103u8, 102u8, 101u8, 100u8, 12u8, 13u8, 14u8, 15u8], seq![0u8, 1u8, 2u8, 3u8, 4u8, 5u8, 6u8, 7u8, 8u8, 9u8, 10u8, 11u8, 12u8, 13u8, 14u8, 15u8]);
    edges_model::lemma_edge_composes_to(seq![89u8, 90u8, 91u8, 88u8, 48u8, 51u8, 50u8, 49u8, 103u8, 102u8, 101u8, 100u8, 12u8, 13u8, 14u8, 15u8], seq![52u8, 55u8, 54u8, 53u8, 107u8, 106u8, 105u8, 104u8, 83u8, 80u8, 81u8, 82u8, 12u8, 13u8, 14u8, 15u8], seq![0u8, 1u8, 2u8, 3u8, 4u8, 5u8, 6u8, 7u8, 8u8, 9u8, 10u8, 11u8, 12u8, 13u8, 14u8, 15u8]);
}

/// Symmetry RUm and the one that undoes it compose to the identity, either way round.
#[verifier::spinoff_prover]
proof fn lemma_undo_rum()
    ensures
        edge_ops::spec_compose(spec_sym_edge_lanes(Sym::RUm), spec_sym_edge_lanes(Sym::FLm)) == edge_ops::spec_ident(),
        edge_ops::spec_compose(spec_sym_edge_lanes(Sym::FLm), spec_sym_edge_lanes(Sym::RUm)) == edge_ops::spec_ident(),
{
    assert(edge_ops::spec_ident() =~= seq![0u8, 1u8, 2u8, 3u8, 4u8, 5u8, 6u8, 7u8, 8u8, 9u8, 10u8, 11u8, 12u8, 13u8, 14u8, 15u8]);
    edges_model::lemma_edge_composes_to(seq![89u8, 90u8, 91u8, 88u8, 48u8, 51u8, 50u8, 49u8, 103u8, 102u8, 101u8, 100u8, 12u8, 13u8, 14u8, 15u8], seq![52u8, 55u8, 54u8, 53u8, 107u8, 106u8, 105u8, 104u8, 83u8, 80u8, 81u8, 82u8, 12u8, 13u8, 14u8, 15u8], seq![0u8, 1u8, 2u8, 3u8, 4u8, 5u8, 6u8, 7u8, 8u8, 9u8, 10u8, 11u8, 12u8, 13u8, 14u8, 15u8]);
    edges_model::lemma_edge_composes_to(seq![52u8, 55u8, 54u8, 53u8, 107u8, 106u8, 105u8, 104u8, 83u8, 80u8, 81u8, 82u8, 12u8, 13u8, 14u8, 15u8], seq![89u8, 90u8, 91u8, 88u8, 48u8, 51u8, 50u8, 49u8, 103u8, 102u8, 101u8, 100u8, 12u8, 13u8, 14u8, 15u8], seq![0u8, 1u8, 2u8, 3u8, 4u8, 5u8, 6u8, 7u8, 8u8, 9u8, 10u8, 11u8, 12u8, 13u8, 14u8, 15u8]);
}

/// Symmetry RDm and the one that undoes it compose to the identity, either way round.
#[verifier::spinoff_prover]
proof fn lemma_undo_rdm()
    ensures
        edge_ops::spec_compose(spec_sym_edge_lanes(Sym::RDm), spec_sym_edge_lanes(Sym::BRm)) == edge_ops::spec_ident(),
        edge_ops::spec_compose(spec_sym_edge_lanes(Sym::BRm), spec_sym_edge_lanes(Sym::RDm)) == edge_ops::spec_ident(),
{
    assert(edge_ops::spec_ident() =~= seq![0u8, 1u8, 2u8, 3u8, 4u8, 5u8, 6u8, 7u8, 8u8, 9u8, 10u8, 11u8, 12u8, 13u8, 14u8, 15u8]);
    edges_model::lemma_edge_composes_to(seq![88u8, 91u8, 90u8, 89u8, 49u8, 50u8, 51u8, 48u8, 101u8, 100u8, 103u8, 102u8, 12u8, 13u8, 14u8, 15u8], seq![55u8, 52u8, 53u8, 54u8, 105u8, 104u8, 107u8, 106u8, 80u8, 83u8, 82u8, 81u8, 12u8, 13u8, 14u8, 15u8], seq![0u8, 1u8, 2u8, 3u8, 4u8, 5u8, 6u8, 7u8, 8u8, 9u8, 10u8, 11u8, 12u8, 13u8, 14u8, 15u8]);
    edges_model::lemma_edge_composes_to(seq![55u8, 52u8, 53u8, 54u8, 105u8, 104u8, 107u8, 106u8, 80u8, 83u8, 82u8, 81u8, 12u8, 13u8, 14u8, 15u8], seq![88u8, 91u8, 90u8, 89u8, 49u8, 50u8, 51u8, 48u8, 101u8, 100u8, 103u8, 102u8, 12u8, 13u8, 14u8, 15u8], seq![0u8, 1u8, 2u8, 3u8, 4u8, 5u8, 6u8, 7u8, 8u8, 9u8, 10u8, 11u8, 12u8, 13u8, 14u8, 15u8]);
}

/// Symmetry LDm and the one that undoes it compose to the identity, either way round.
#[verifier::spinoff_prover]
proof fn lemma_undo_ldm()
    ensures
        edge_ops::spec_compose(spec_sym_edge_lanes(Sym::LDm), spec_sym_edge_lanes(Sym::BLm)) == edge_ops::spec_ident(),
        edge_ops::spec_compose(spec_sym_edge_lanes(Sym::BLm), spec_sym_edge_lanes(Sym::LDm)) == edge_ops::spec_ident(),
{
    assert(edge_ops::spec_ident() =~= seq![0u8, 1u8, 2u8, 3u8, 4u8, 5u8, 6u8, 7u8, 8u8, 9u8, 10u8, 11u8, 12u8, 13u8, 14u8, 15u8]);
    edges_model::lemma_edge_composes_to(seq![90u8, 89u8, 88u8, 91u8, 50u8, 49u8, 48u8, 51u8, 102u8, 103u8, 100u8, 101u8, 12u8, 13u8, 14u8, 15u8], seq![54u8, 53u8, 52u8, 55u8, 106u8, 107u8, 104u8, 105u8, 82u8, 81u8, 80u8, 83u8, 12u8, 13u8, 14u8, 15u8], seq![0u8, 1u8, 2u8, 3u8, 4u8, 5u8, 6u8, 7u8, 8u8, 9u8, 10u8, 11u8, 12u8, 13u8, 14u8, 15u8]);
    edges_model::lemma_edge_composes_to(seq![54u8, 53u8, 52u8, 55u8, 106u8, 107u8, 104u8, 105u8, 82u8, 81u8, 80u8, 83u8, 12u8, 13u8, 14u8, 15u8], seq![90u8, 89u8, 88u8, 91u8, 50u8, 49u8, 48u8, 51u8, 102u8, 103u8, 100u8, 101u8, 12u8, 13u8, 14u8, 15u8], seq![0u8, 1u8, 2u8, 3u8, 4u8, 5u8, 6u8, 7u8, 8u8, 9u8, 10u8, 11u8, 12u8, 13u8, 14u8, 15u8]);
}

/// Symmetry LUm and the one that undoes it compose to the identity, either way round.
#[verifier::spinoff_prover]
proof fn lemma_undo_lum()
    ensures
        edge_ops::spec_compose(spec_sym_edge_lanes(Sym::LUm), spec_sym_edge_lanes(Sym::FRm)) == edge_ops::spec_ident(),
        edge_ops::spec_compose(spec_sym_edge_lanes(Sym::FRm), spec_sym_edge_lanes(Sym::LUm)) == edge_ops::spec_ident(),
{
    assert(edge_ops::spec_ident() =~= seq![0u8, 1u8, 2u8, 3u8, 4u8, 5u8, 6u8, 7u8, 8u8, 9u8, 10u8, 11u8, 12u8, 13u8, 14u8, 15u8]);
    edges_model::lemma_edge_composes_to(seq![91u8, 88u8, 89u8, 90u8, 51u8, 48u8, 49u8, 50u8, 100u8, 101u8, 102u8, 103u8, 12u8, 13u8, 14u8, 15u8], seq![53u8, 54u8, 55u8, 52u8, 104u8, 105u8, 106u8, 107u8, 81u8, 82u8, 83u8, 80u8, 12u8, 13u8, 14u8, 15u8], seq![0u8, 1u8, 2u8, 3u8, 4u8, 5u8, 6u8, 7u8, 8u8, 9u8, 10u8, 11u8, 12u8, 13u8, 14u8, 15u8]);
    edges_model::lemma_edge_composes_to(seq![53u8, 54u8, 55u8, 52u8, 104u8, 105u8, 106u8, 107u8, 81u8, 82u8, 83u8, 80u8, 12u8, 13u8, 14u8, 15u8], seq![91u8, 88u8, 89u8, 90u8, 51u8, 48u8, 49u8, 50u8, 100u8, 101u8, 102u8, 103u8, 12u8, 13u8, 14u8, 15u8], seq![0u8, 1u8, 2u8, 3u8, 4u8, 5u8, 6u8, 7u8, 8u8, 9u8, 10u8, 11u8, 12u8, 13u8, 14u8, 15u8]);
}

/// Symmetry FUm and the one that undoes it compose to the identity, either way round.
#[verifier::spinoff_prover]
proof fn lemma_undo_fum()
    ensures
        edge_ops::spec_compose(spec_sym_edge_lanes(Sym::FUm), spec_sym_edge_lanes(Sym::FUm)) == edge_ops::spec_ident(),
        edge_ops::spec_compose(spec_sym_edge_lanes(Sym::FUm), spec_sym_edge_lanes(Sym::FUm)) == edge_ops::spec_ident(),
{
    assert(edge_ops::spec_ident() =~= seq![0u8, 1u8, 2u8, 3u8, 4u8, 5u8, 6u8, 7u8, 8u8, 9u8, 10u8, 11u8, 12u8, 13u8, 14u8, 15u8]);
    edges_model::lemma_edge_composes_to(seq![40u8, 41u8, 42u8, 43u8, 116u8, 119u8, 118u8, 117u8, 32u8, 33u8, 34u8, 35u8, 12u8, 13u8, 14u8, 15u8], seq![40u8, 41u8, 42u8, 43u8, 116u8, 119u8, 118u8, 117u8, 32u8, 33u8, 34u8, 35u8, 12u8, 13u8, 14u8, 15u8], seq![0u8, 1u8, 2u8, 3u8, 4u8, 5u8, 6u8, 7u8, 8u8, 9u8, 10u8, 11u8, 12u8, 13u8, 14u8, 15u8]);
    edges_model::lemma_edge_composes_to(seq![40u8, 41u8, 42u8, 43u8, 116u8, 119u8, 118u8, 117u8, 32u8, 33u8, 34u8, 35u8, 12u8, 13u8, 14u8, 15u8], seq![40u8, 41u8, 42u8, 43u8, 116u8, 119u8, 118u8, 117u8, 32u8, 33u8, 34u8, 35u8, 12u8, 13u8, 14u8, 15u8], seq![0u8, 1u8, 2u8, 3u8, 4u8, 5u8, 6u8, 7u8, 8u8, 9u8, 10u8, 11u8, 12u8, 13u8, 14u8, 15u8]);
}

/// Symmetry FDm and the one that undoes it compose to the identity, either way round.
#[verifier::spinoff_prover]
proof fn lemma_undo_fdm()
    ensures
        edge_ops::spec_compose(spec_sym_edge_lanes(Sym::FDm), spec_sym_edge_lanes(Sym::BUm)) == edge_ops::spec_ident(),
        edge_ops::spec_compose(spec_sym_edge_lanes(Sym::BUm), spec_sym_edge_lanes(Sym::FDm)) == edge_ops::spec_ident(),
{
    assert(edge_ops::spec_ident() =~= seq![0u8, 1u8, 2u8, 3u8, 4u8, 5u8, 6u8, 7u8, 8u8, 9u8, 10u8, 11u8, 12u8, 13u8, 14u8, 15u8]);
    edges_model::lemma_edge_composes_to(seq![43u8, 42u8, 41u8, 40u8, 117u8, 118u8, 119u8, 116u8, 34u8, 35u8, 32u8, 33u8, 12u8, 13u8, 14u8, 15u8], seq![42u8, 43u8, 40u8, 41u8, 119u8, 116u8, 117u8, 118u8, 35u8, 34u8, 33u8, 32u8, 12u8, 13u8, 14u8, 15u8], seq![0u8, 1u8, 2u8, 3u8, 4u8, 5u8, 6u8, 7u8, 8u8, 9u8, 10u8, 11u8, 12u8, 13u8, 14u8, 15u8]);
    edges_model::lemma_edge_composes_to(seq![42u8, 43u8, 40u8, 41u8, 119u8, 116u8, 117u8, 118u8, 35u8, 34u8, 33u8, 32u8, 12u8, 13u8, 14u8, 15u8], seq![43u8, 42u8, 41u8, 40u8, 117u8, 118u8, 119u8, 116u8, 34u8, 35u8, 32u8, 33u8, 12u8, 13u8, 14u8, 15u8], seq![0u8, 1u8, 2u8, 3u8, 4u8, 5u8, 6u8, 7u8, 8u8, 9u8, 10u8, 11u8, 12u8, 13u8, 14u8, 15u8]);
}

/// Symmetry BDm and the one that undoes it compose to the identity, either way round.
#[verifier::spinoff_prover]
proof fn lemma_undo_bdm()
    ensures
        edge_ops::spec_compose(spec_sym_edge_lanes(Sym::BDm), spec_sym_edge_lanes(Sym::BDm)) == edge_ops::spec_ident(),
        edge_ops::spec_compose(spec_sym_edge_lanes(Sym::BDm), spec_sym_edge_lanes(Sym::BDm)) == edge_ops::spec_ident(),
{
    assert(edge_ops::spec_ident() =~= seq![0u8, 1u8, 2u8, 3u8, 4u8, 5u8, 6u8, 7u8, 8u8, 9u8, 10u8, 11u8, 12u8, 13u8, 14u8, 15u8]);
    edges_model::lemma_edge_composes_to(seq![41u8, 40u8, 43u8, 42u8, 118u8, 117u8, 116u8, 119u8, 33u8, 32u8, 35u8, 34u8, 12u8, 13u8, 14u8, 15u8], seq![41u8, 40u8, 43u8, 42u8, 118u8, 117u8, 116u8, 119u8, 33u8, 32u8, 35u8, 34u8, 12u8, 13u8, 14u8, 15u8], seq![0u8, 1u8, 2u8, 3u8, 4u8, 5u8, 6u8, 7u8, 8u8, 9u8, 10u8, 11u8, 12u8, 13u8, 14u8, 15u8]);
    edges_model::lemma_edge_composes_to(seq![41u8, 40u8, 43u8, 42u8, 118u8, 117u8, 116u8, 119u8, 33u8, 32u8, 35u8, 34u8, 12u8, 13u8, 14u8, 15u8], seq![41u8, 40u8, 43u8, 42u8, 118u8, 117u8, 116u8, 119u8, 33u8, 32u8, 35u8, 34u8, 12u8, 13u8, 14u8, 15u8], seq![0u8, 1u8, 2u8, 3u8, 4u8, 5u8, 6u8, 7u8, 8u8, 9u8, 10u8, 11u8, 12u8, 13u8, 14u8, 15u8]);
}

/// Symmetry BUm and the one that undoes it compose to the identity, either way round.
#[verifier::spinoff_prover]
proof fn lemma_undo_bum()
    ensures
        edge_ops::spec_compose(spec_sym_edge_lanes(Sym::BUm), spec_sym_edge_lanes(Sym::FDm)) == edge_ops::spec_ident(),
        edge_ops::spec_compose(spec_sym_edge_lanes(Sym::FDm), spec_sym_edge_lanes(Sym::BUm)) == edge_ops::spec_ident(),
{
    assert(edge_ops::spec_ident() =~= seq![0u8, 1u8, 2u8, 3u8, 4u8, 5u8, 6u8, 7u8, 8u8, 9u8, 10u8, 11u8, 12u8, 13u8, 14u8, 15u8]);
    edges_model::lemma_edge_composes_to(seq![42u8, 43u8, 40u8, 41u8, 119u8, 116u8, 117u8, 118u8, 35u8, 34u8, 33u8, 32u8, 12u8, 13u8, 14u8, 15u8], seq![43u8, 42u8, 41u8, 40u8, 117u8, 118u8, 119u8, 116u8, 34u8, 35u8, 32u8, 33u8, 12u8, 13u8, 14u8, 15u8], seq![0u8, 1u8, 2u8, 3u8, 4u8, 5u8, 6u8, 7u8, 8u8, 9u8, 10u8, 11u8, 12u8, 13u8, 14u8, 15u8]);
    edges_model::lemma_edge_composes_to(seq![43u8, 42u8, 41u8, 40u8, 117u8, 118u8, 119u8, 116u8, 34u8, 35u8, 32u8, 33u8, 12u8, 13u8, 14u8, 15u8], seq![42u8, 43u8, 40u8, 41u8, 119u8, 116u8, 117u8, 118u8, 35u8, 34u8, 33u8, 32u8, 12u8, 13u8, 14u8, 15u8], seq![0u8, 1u8, 2u8, 3u8, 4u8, 5u8, 6u8, 7u8, 8u8, 9u8, 10u8, 11u8, 12u8, 13u8, 14u8, 15u8]);
}

/// Symmetry RFm and the one that undoes it compose to the identity, either way round.
#[verifier::spinoff_prover]
proof fn lemma_undo_rfm()
    ensures
        edge_ops::spec_compose(spec_sym_edge_lanes(Sym::RFm), spec_sym_edge_lanes(Sym::RFm)) == edge_ops::spec_ident(),
        edge_ops::spec_compose(spec_sym_edge_lanes(Sym::RFm), spec_sym_edge_lanes(Sym::RFm)) == edge_ops::spec_ident(),
{
    assert(edge_ops::spec_ident() =~= seq![0u8, 1u8, 2u8, 3u8, 4u8, 5u8, 6u8, 7u8, 8u8, 9u8, 10u8, 11u8, 12u8, 13u8, 14u8, 15u8]);
    edges_model::lemma_edge_composes_to(seq![112u8, 115u8, 114u8, 113u8, 24u8, 27u8, 26u8, 25u8, 20u8, 23u8, 22u8, 21u8, 12u8, 13u8, 14u8, 15u8], seq![112u8, 115u8, 114u8, 113u8, 24u8, 27u8, 26u8, 25u8, 20u8, 23u8, 22u8, 21u8, 12u8, 13u8, 14u8, 15u8], seq![0u8, 1u8, 2u8, 3u8, 4u8, 5u8, 6u8, 7u8, 8u8, 9u8, 10u8, 11u8, 12u8, 13u8, 14u8, 15u8]);
    edges_model::lemma_edge_composes_to(seq![112u8, 115u8, 114u8, 113u8, 24u8, 27u8, 26u8, 25u8, 20u8, 23u8, 22u8, 21u8, 12u8, 13u8, 14u8, 15u8], seq![112u8, 115u8, 114u8, 113u8, 24u8, 27u8, 26u8, 25u8, 20u8, 23u8, 22u8, 21u8, 12u8, 13u8, 14u8, 15u8], seq![0u8, 1u8, 2u8, 3u8, 4u8, 5u8, 6u8, 7u8, 8u8, 9u8, 10u8, 11u8, 12u8, 13u8, 14u8, 15u8]);
}

/// Symmetry RBm and the one that undoes it compose to the identity, either way round.
#[verifier::spinoff_prover]
proof fn lemma_undo_rbm()
    ensures
        edge_ops::spec_compose(spec_sym_edge_lanes(Sym::RBm), spec_sym_edge_lanes(Sym::LBm)) == edge_ops::spec_ident(),
        edge_ops::spec_compose(spec_sym_edge_lanes(Sym::LBm), spec_sym_edge_lanes(Sym::RBm)) == edge_ops::spec_ident(),
{
    assert(edge_ops::spec_ident() =~= seq![0u8, 1u8, 2u8, 3u8, 4u8, 5u8, 6u8, 7u8, 8u8, 9u8, 10u8, 11u8, 12u8, 13u8, 14u8, 15u8]);
    edges_model::lemma_edge_composes_to(seq![113u8, 114u8, 115u8, 112u8, 25u8, 26u8, 27u8, 24u8, 22u8, 21u8, 20u8, 23u8, 12u8, 13u8, 14u8, 15u8], seq![115u8, 112u8, 113u8, 114u8, 26u8, 25u8, 24u8, 27u8, 23u8, 20u8, 21u8, 22u8, 12u8, 13u8, 14u8, 15u8], seq![0u8, 1u8, 2u8, 3u8, 4u8, 5u8, 6u8, 7u8, 8u8, 9u8, 10u8, 11u8, 12u8, 13u8, 14u8, 15u8]);
    edges_model::lemma_edge_composes_to(seq![115u8, 112u8, 113u8, 114u8, 26u8, 25u8, 24u8, 27u8, 23u8, 20u8, 21u8, 22u8, 12u8, 13u8, 14u8, 15u8], seq![113u8, 114u8, 115u8, 112u8, 25u8, 26u8, 27u8, 24u8, 22u8, 21u8, 20u8, 23u8, 12u8, 13u8, 14u8, 15u8], seq![0u8, 1u8, 2u8, 3u8, 4u8, 5u8, 6u8, 7u8, 8u8, 9u8, 10u8, 11u8, 12u8, 13u8, 14u8, 15u8]);
}

/// Symmetry LBm and the one that undoes it compose to the identity, either way round.
#[verifier::spinoff_prover]
proof fn lemma_undo_lbm()
    ensures
        edge_ops::spec_compose(spec_sym_edge_lanes(Sym::LBm), spec_sym_edge_lanes(Sym::RBm)) == edge_ops::spec_ident(),
        edge_ops::spec_compose(spec_sym_edge_lanes(Sym::RBm), spec_sym_edge_lanes(Sym::LBm)) == edge_ops::spec_ident(),
{
    assert(edge_ops::spec_ident() =~= seq![0u8, 1u8, 2u8, 3u8, 4u8, 5u8, 6u8, 7u8, 8u8, 9u8, 10u8, 11u8, 12u8, 13u8, 14u8, 15u8]);
    edges_model::lemma_edge_composes_to(seq![115u8, 112u8, 113u8, 114u8, 26u8, 25u8, 24u8, 27u8, 23u8, 20u8, 21u8, 22u8, 12u8, 13u8, 14u8, 15u8], seq![113u8, 114u8, 115u8, 112u8, 25u8, 26u8, 27u8, 24u8, 22u8, 21u8, 20u8, 23u8, 12u8, 13u8, 14u8, 15u8], seq![0u8, 1u8, 2u8, 3u8, 4u8, 5u8, 6u8, 7u8, 8u8, 9u8, 10u8, 11u8, 12u8, 13u8, 14u8, 15u8]);
    edges_model::lemma_edge_composes_to(seq![113u8, 114u8, 115u8, 112u8, 25u8, 26u8, 27u8, 24u8, 22u8, 21u8, 20u8, 23u8, 12u8, 13u8, 14u8, 15u8], seq![115u8, 112u8, 113u8, 114u8, 26u8, 25u8, 24u8, 27u8, 23u8, 20u8, 21u8, 22u8, 12u8, 13u8, 14u8, 15u8], seq![0u8, 1u8, 2u8, 3u8, 4u8, 5u8, 6u8, 7u8, 8u8, 9u8, 10u8, 11u8, 12u8, 13u8, 14u8, 15u8]);
}

/// Symmetry LFm and the one that undoes it compose to the identity, either way round.
#[verifier::spinoff_prover]
proof fn lemma_undo_lfm()
    ensures
        edge_ops::spec_compose(spec_sym_edge_lanes(Sym::LFm), spec_sym_edge_lanes(Sym::LFm)) == edge_ops::spec_ident(),
        edge_ops::spec_compose(spec_sym_edge_lanes(Sym::LFm), spec_sym_edge_lanes(Sym::LFm)) == edge_ops::spec_ident(),
{
    assert(edge_ops::spec_ident() =~= seq![0u8, 1u8, 2u8, 3u8, 4u8, 5u8, 6u8, 7u8, 8u8, 9u8, 10u8, 11u8, 12u8, 13u8, 14u8, 15u8]);
    edges_model::lemma_edge_composes_to(seq![114u8, 113u8, 112u8, 115u8, 27u8, 24u8, 25u8, 26u8, 21u8, 22u8, 23u8, 20u8, 12u8, 13u8, 14u8, 15u8], seq![114u8, 113u8, 112u8, 115u8, 27u8, 24u8, 25u8, 26u8, 21u8, 22u8, 23u8, 20u8, 12u8, 13u8, 14u8, 15u8], seq![0u8, 1u8, 2u8, 3u8, 4u8, 5u8, 6u8, 7u8, 8u8, 9u8, 10u8, 11u8, 12u8, 13u8, 14u8, 15u8]);
    edges_model::lemma_edge_composes_to(seq![114u8, 113u8, 112u8, 115u8, 27u8, 24u8, 25u8, 26u8, 21u8, 22u8, 23u8, 20u8, 12u8, 13u8, 14u8, 15u8], seq![114u8, 113u8, 112u8, 115u8, 27u8, 24u8, 25u8, 26u8, 21u8, 22u8, 23u8, 20u8, 12u8, 13u8, 14u8, 15u8], seq![0u8, 1u8, 2u8, 3u8, 4u8, 5u8, 6u8, 7u8, 8u8, 9u8, 10u8, 11u8, 12u8, 13u8, 14u8, 15u8]);
}

/// Every symmetry and the one that undoes it compose to the identity on the edges,
/// either way round.
proof fn lemma_undo(s: Sym)
    ensures
        edge_ops::spec_compose(spec_sym_edge_lanes(s), spec_sym_edge_lanes(spec_sym_undo(s))) == edge_ops::spec_ident(),
        edge_ops::spec_compose(spec_sym_edge_lanes(spec_sym_undo(s)), spec_sym_edge_lanes(s)) == edge_ops::spec_ident(),
{
    match s {
        Sym::UR => lemma_undo_ur(),
        Sym::DR => lemma_undo_dr(),
        Sym::DL => lemma_undo_dl(),
        Sym::UL => lemma_undo_ul(),
        Sym::UF => lemma_undo_uf(),
        Sym::DF => lemma_undo_df(),
        Sym::DB => lemma_undo_db(),
        Sym::UB => lemma_undo_ub(),
        Sym::FR => lemma_undo_fr(),
        Sym::BR => lemma_undo_br(),
        Sym::BL => lemma_undo_bl(),
        Sym::FL => lemma_undo_fl(),
        Sym::RU => lemma_undo_ru(),
        Sym::RD => lemma_undo_rd(),
        Sym::LD => lemma_undo_ld(),
        Sym::LU => lemma_undo_lu(),
        Sym::FU => lemma_undo_fu(),
        Sym::FD => lemma_undo_fd(),
        Sym::BD => lemma_undo_bd(),
        Sym::BU => lemma_undo_bu(),
        Sym::RF => lemma_undo_rf(),
        Sym::RB => lemma_undo_rb(),
        Sym::LB => lemma_undo_lb(),
        Sym::LF => lemma_undo_lf(),
        Sym::URm => lemma_undo_urm(),
        Sym::DRm => lemma_undo_drm(),
        Sym::DLm => lemma_undo_dlm(),
        Sym::ULm => lemma_undo_ulm(),
        Sym::UFm => lemma_undo_ufm(),
        Sym::DFm => lemma_undo_dfm(),
        Sym::DBm => lemma_undo_dbm(),
        Sym::UBm => lemma_undo_ubm(),
        Sym::FRm => lemma_undo_frm(),
        Sym::BRm => lemma_undo_brm(),
        Sym::BLm => lemma_undo_blm(),
        Sym::FLm => lemma_undo_flm(),
        Sym::RUm => lemma_undo_rum(),
        Sym::RDm => lemma_undo_rdm(),
        Sym::LDm => lemma_undo_ldm(),
        Sym::LUm => lemma_undo_lum(),
        Sym::FUm => lemma_undo_fum(),
        Sym::FDm => lemma_undo_fdm(),
        Sym::BDm => lemma_undo_bdm(),
        Sym::BUm => lemma_undo_bum(),
        Sym::RFm => lemma_undo_rfm(),
        Sym::RBm => lemma_undo_rbm(),
        Sym::LBm => lemma_undo_lbm(),
        Sym::LFm => lemma_undo_lfm(),
    }
}

/// Following edges whose lanes are below 128 after the solved edges changes nothing.
proof fn lemma_ident_compose(x: Seq<u8>)
    requires
        x.len() == 16,
        forall|i: int| 0 <= i < 16 ==> #[trigger] x[i] < 128,
    ensures
        edge_ops::spec_compose(edge_ops::spec_ident(), x) == x,
{
    let r = edge_ops::spec_compose(edge_ops::spec_ident(), x);
    assert forall|i: int| 0 <= i < 16 implies #[trigger] r[i] == x[i] by {
        edges_model::lemma_xor_bits(x[i], 0, 0);
    }
    assert(r =~= x);
}

/// The symmetries whose edge lanes follow those of `s` to solved edges: exactly the one
/// that undoes it.
proof fn lemma_edges_undo_unique(s: Sym, j: Sym)
    requires
        edges_add_to(s, j, Sym::UF),
    ensures
        j == spec_sym_undo(s),
{
    let u = spec_sym_undo(s);
    lemma_sym_edges(s);
    lemma_sym_edges(j);
    lemma_sym_edges(u);
    lemma_sym_edges(Sym::UF);
    lemma_undo(s);
    lemma_sym_of_edges(j);
    lemma_sym_of_edges(u);
    let es = spec_sym_edge_lanes(s);
    let ej = spec_sym_edge_lanes(j);
    let eu = spec_sym_edge_lanes(u);
    assert(spec_sym_edge_lanes(Sym::UF) =~= edge_ops::spec_ident());
    // ej = ident . ej = (eu . es) . ej = eu . (es . ej) = eu . ident = eu
    lemma_ident_compose(ej);
    edges_model::lemma_compose_assoc(eu, es, ej);
    edges_model::lemma_compose_ident_right(eu);
    assert(ej == eu);
    lemma_sym_edges_unique(j, u);
}

/// Every symmetry has an inverse: the one that undoes it is the inverse that
/// `Sym::inverse` gives, and the only symmetry whose edges are those of `s` followed by
/// those of its inverse is the identity `UF`, so that `s + s.inverse()` is `UF`.
pub proof fn lemma_sym_inverse_exists(s: Sym)
    ensures
        spec_sym_inverse(s) == spec_sym_undo(s),
        edges_add_to(s, spec_sym_inverse(s), Sym::UF),
        forall|k: Sym| #[trigger] edges_add_to(s, spec_sym_inverse(s), k) ==> k == Sym::UF,
{
    let u = spec_sym_undo(s);
    lemma_sym_edges(s);
    lemma_sym_edges(u);
    lemma_sym_edges(Sym::UF);
    lemma_undo(s);
    assert(spec_sym_edge_lanes(Sym::UF) =~= edge_ops::spec_ident());
    assert(edges_add_to(s, u, Sym::UF));
    assert(is_sym_inverse(s, u)) by {
        assert forall|j: Sym| sym_index(u) < #[trigger] sym_index(j) implies !edges_add_to(s, j, Sym::UF) by {
            if edges_add_to(s, j, Sym::UF) {
                lemma_edges_undo_unique(s, j);
            }
        }
    }
    lemma_sym_inverse_unique(s, u);
    assert forall|k: Sym| #[trigger] edges_add_to(s, spec_sym_inverse(s), k) implies k == Sym::UF by {
        lemma_sym_edges(k);
        lemma_sym_edges_unique(k, Sym::UF);
    }
}

} // verus!
