use libfmc::cube::coord::pruning::PruneTable;
use libfmc::cube::corners::htr::{compute_corner_cosets, NO_COSET};
use libfmc::{Coord, CoordCOUD, CoordEOFB, CoordSyms, IDASearcher};
use libfmc::cube::corners::ops::{index_coud, prank, unindex_coud, unprank};
use libfmc::{
    Alg, Center, Centers, Corner, Corners, Cube, Edge, Edges, Face, Move, Rotation, Searcher, Set64, Slice,
    SliceMove, Sym, Transform, CO, EO,
};
use std::collections::HashSet;

/// Compare two multi-line texts line by line, ignoring surrounding blanks and empty lines.
fn expect(actual: &str, expected: &str) {
    let norm = |s: &str| -> String {
        s.lines()
            .map(str::trim)
            .filter(|l| !l.is_empty())
            .map(str::to_string)
            .collect::<Vec<_>>()
            .join("\n")
    };
    let a = norm(actual);
    let e = norm(expected);
    assert_eq!(a, e, "\noutput:\n{}\n\nexpected:\n{}\n", a, e);
}

#[test]
fn test_canonicalize() {
    let alg = Alg::try_from("R D U").unwrap();
    let s = alg.canonicalize().to_string();
    expect(&s, "R U D");

    let alg = Alg::try_from("R D U D").unwrap();
    let s = alg.canonicalize().to_string();
    expect(&s, "R U D2");

    let alg = Alg::try_from("B R D D2 D R' F").unwrap();
    let s = alg.canonicalize().to_string();
    expect(&s, "F B");
}

#[test]
fn test_parse_ok() {
    let algs = vec![
        "",
        "R",
        "RUFUDL",
        "  R'U'F'U'D'      L'F2R2   B     ",
        "R' U' F B2 L2 U2 R2 U' R2 B2 D B2 R2 U' R' F R D2 R F2 D2 R F' L R' U' F",
    ];
    for alg in algs {
        assert!(Alg::try_from(alg).is_ok());
    }
}

#[test]
fn test_parse_fail() {
    let algs = vec!["B3", "U '", "rF"];
    for alg in algs {
        assert!(Alg::try_from(alg).is_err());
    }
}

#[test]
fn test_rotation() {
    let a = Centers::rotation(Rotation::X) + Centers::rotation(Rotation::Y);
    let b = Centers::rotation(Rotation::Y) + Centers::rotation(Rotation::Z);
    assert_eq!(a, b);
    let a = Centers::rotation(Rotation::X) + Centers::rotation(Rotation::Y);
    let b = Centers::rotation(Rotation::Y) + Centers::rotation(Rotation::X);
    assert_ne!(a, b);
}

#[test]
fn test_gen_slice_magics() {
    let mut out = String::new();
    for m in SliceMove::all() {
        let (s, n) = m.decompose();
        let cycle = match s {
            Slice::M => Centers::cycle(&[Center::U, Center::F, Center::D, Center::B]),
            Slice::E => Centers::cycle(&[Center::F, Center::R, Center::B, Center::L]),
            Slice::S => Centers::cycle(&[Center::U, Center::R, Center::D, Center::L]),
        };
        let mut c = Centers::new();
        for _ in 0..n {
            c = c.compose(cycle);
        }
        out += &format!("{m:?} => Centers::from_magic(0x{:016x}),\n", c.magic());
    }
    expect(
        &out,
        "
        M => Centers::from_magic(0x0706030402000105),
        M2 => Centers::from_magic(0x0706020400050103),
        M3 => Centers::from_magic(0x0706000405030102),
        E => Centers::from_magic(0x0706010503040200),
        E2 => Centers::from_magic(0x0706020103050400),
        E3 => Centers::from_magic(0x0706040203010500),
        S => Centers::from_magic(0x0706050301020004),
        S2 => Centers::from_magic(0x0706050100020403),
        S3 => Centers::from_magic(0x0706050004020301),
    ",
    )
}

#[test]
fn test_set_co() {
    let c = Corners::new();
    let s = c.table();
    expect(
        &s,
        "
        slot:   UBL UBR UFR UFL DFL DFR DBR DBL
        corner: UBL UBR UFR UFL DFL DFR DBR DBL
        coud:   0   0   0   0   0   0   0   0
    ",
    );
}

#[test]
fn test_cofb_colr() {
    let c = Corners::new().apply_alg(&Alg::try_from("R U F R2 U F'").unwrap());
    let s = c.table();
    expect(
        &s,
        "
        slot:   UBL UBR UFR UFL DFL DFR DBR DBL
        corner: DFL UFL UBL UFR UBR DBR DFR DBL
        coud:   1   0   2   1   0   2   0   0
    ",
    );
    let s = format!("{:?}", Corner::all().map(|slot| c.cofb(slot)));
    expect(&s, "[CCW, Solved, CW, Solved, CCW, CCW, CCW, Solved]");
    let s = format!("{:?}", Corner::all().map(|slot| c.colr(slot)));
    expect(&s, "[CCW, Solved, CW, CW, CW, Solved, CW, Solved]");
}

#[test]
fn test_gen_apply_move() {
    let mut s = String::new();
    for m in Move::all() {
        let (f, n) = m.decompose();
        let cycle = match f {
            Face::U => Corners::cycle_drud(&[Corner::UFR, Corner::UFL, Corner::UBL, Corner::UBR]),
            Face::F => Corners::cycle_drfb(&[Corner::UFR, Corner::DFR, Corner::DFL, Corner::UFL]),
            Face::R => Corners::cycle_drlr(&[Corner::UFR, Corner::UBR, Corner::DBR, Corner::DFR]),
            Face::D => Corners::cycle_drud(&[Corner::DFL, Corner::DFR, Corner::DBR, Corner::DBL]),
            Face::B => Corners::cycle_drfb(&[Corner::UBR, Corner::UBL, Corner::DBL, Corner::DBR]),
            Face::L => Corners::cycle_drlr(&[Corner::UFL, Corner::DFL, Corner::DBL, Corner::UBL]),
        };
        let mut c = Corners::new();
        for _ in 0..n {
            c = c.compose(cycle);
        }
        s += &format!("{m:?} => Corners::from_magic(0x{:016x}),\n", c.magic());
    }
    expect(
        &s,
        "
        U => Corners::from_magic(0x0706050402010003),
        U2 => Corners::from_magic(0x0706050401000302),
        U3 => Corners::from_magic(0x0706050400030201),
        D => Corners::from_magic(0x0605040703020100),
        D2 => Corners::from_magic(0x0504070603020100),
        D3 => Corners::from_magic(0x0407060503020100),
        F => Corners::from_magic(0x07060a150c130100),
        F2 => Corners::from_magic(0x0706030205040100),
        F3 => Corners::from_magic(0x07060c130a150100),
        B => Corners::from_magic(0x0817050403020e11),
        B2 => Corners::from_magic(0x0100050403020706),
        B3 => Corners::from_magic(0x0e11050403020817),
        R => Corners::from_magic(0x07091604030d1200),
        R2 => Corners::from_magic(0x0702010403060500),
        R3 => Corners::from_magic(0x070d120403091600),
        L => Corners::from_magic(0x1406050b1002010f),
        L2 => Corners::from_magic(0x0306050007020104),
        L3 => Corners::from_magic(0x1006050f1402010b),
    ",
    )
}

#[test]
fn test_prank_roundtrip() {
    for rank in 0..40320 {
        let p = unprank(rank);
        assert_eq!(rank, prank(p));
    }
}

#[test]
fn test_coud_roundtrip() {
    let mut cases = HashSet::<[u8; 8]>::new();
    for coord in 0..2187 {
        let case = unindex_coud(coord);
        assert_eq!(coord, index_coud(case));
        cases.insert(case);
    }
    assert_eq!(cases.len(), 2187);
}

#[test]
fn test_set_eo() {
    let alg = Alg::try_from("R' U' F R' B2 R L' B R L F B' L2 U' F2 U' D2 F2 U' R2 L2 B R' U' F").unwrap();
    let e = Edges::new().apply_alg(&alg);
    let s = e.table();
    expect(
        &s,
        "
        slot: UR DR DL UL UF DF DB UB FR BR BL FL
       piece: UL DR DF FL UR DB UB DL BR UF BL FR
        eofb:  X  .  .  X  X  .  X  X  .  X  .  .
        eolr:  X  .  .  .  X  .  X  X  .  .  .  .
        eoud:  X  .  X  X  .  .  X  .  .  .  .  .
    ",
    );
}

#[test]
fn test_set64_edge() {
    let mut s = Set64::from_slice(&[Edge::UF, Edge::UR, Edge::FL]);
    assert_eq!(s.len(), 3);
    assert_eq!(s.contains(&Edge::UF), true);
    assert_eq!(s.contains(&Edge::UL), false);
    assert_eq!(s.remove(&Edge::FL), true);
    assert_eq!(s.len(), 2);
    assert_eq!(s.pop_first().is_some(), true);
    assert_eq!(s.len(), 1);
    assert_eq!(s.pop_first().is_some(), true);
    assert_eq!(s.len(), 0);
    assert_eq!(s.pop_first(), None);
    assert_eq!(s.is_empty(), true);
}

#[test]
fn test_sym_add() {
    assert_eq!(Sym::UF, Sym::DR + Sym::DR);
    assert_eq!(Sym::UF, Sym::BR + Sym::UL + Sym::FD);
    assert_eq!(Sym::UF, Sym::BL + Sym::RF + Sym::DF + Sym::DL);
    assert_eq!(Sym::UR + Sym::FRm, Sym::RBm);
}

#[test]
fn test_syms_unique() {
    for i in 0..48 {
        let a = Sym::from_u8(i);
        for j in (i + 1)..48 {
            let b = Sym::from_u8(j);
            assert_ne!(a.cube(), b.cube());
        }
    }
}

#[test]
fn test_cayley_table_rows_bijective() {
    for i in 0..48 {
        let a = Sym::from_u8(i);
        let s: HashSet<Sym> = (0..48).map(|j| a + Sym::from_u8(j)).collect();
        assert_eq!(s.len(), 48);
    }
}

#[test]
fn test_inverse() {
    for sym in Sym::all() {
        assert_eq!(sym + sym.inverse(), Sym::UF)
    }
}

#[test]
fn test_canonical() {
    assert_eq!(Move::D.canonically_succeeds(Move::U), true);
    assert_eq!(Move::U.canonically_succeeds(Move::D), false);
}

#[test]
fn test_from_str() {
    let res = Transform::try_from("U'");
    assert_eq!(res, Ok(Transform::Move(Move::U3)));
    let res = Transform::try_from("y'");
    assert_eq!(res, Ok(Transform::Rotation(Rotation::Y3)));
    let res = Transform::try_from("M2");
    assert_eq!(res, Ok(Transform::SliceMove(SliceMove::M2)));
}

#[test]
fn test_foobar() {
    let mut s = libfmc::IDASearcher::default();
    let mut seen = 0;
    while let Some(_c) = s.next() {
        if !s.is_frontier() {
            continue;
        }
        if s.moves().len() >= 3 {
            break;
        }
        println!("{}", s.moves().alg().to_string());
        seen += 1;
    }
    assert_eq!(seen, 1 + 18 + 243);
}

#[test]
fn test_canonical_distribution() {
    let mut s = Searcher::default();
    let mut dist = [0; 6];
    while s.next().is_some() {
        if s.moves().len() == 5 {
            s.prune();
        }
        dist[s.moves().len()] += 1;
    }
    assert_eq!(dist, [1, 18, 243, 3240, 43254, 577368]);
}

#[test]
fn test_foo() {
    let c = Cube::default().apply_alg(
        Alg::try_from("R' U' F R F' R' B' L' D' B2 L' D B2 R' B2 D2 B2 L' F2 L U2 D2 R' U' F").unwrap(),
    );
    let c2 = c.apply_alg("R U L F B".try_into().unwrap());
    println!("{}", c2.edges.table());
}

#[test]
pub fn test_coordsyms_eofb() {
    let c = CoordSyms::<CoordEOFB>::new();
    assert_eq!(c.n_classes(), 336);
    for i in 0..2048 {
        let cube = CoordEOFB::unindex(i);
        let mut it = c.self_syms(i).into_iter();
        while let Some(s) = it.next() {
            assert_eq!(CoordEOFB::index(cube), CoordEOFB::index(cube.conjugate_sym(s)));
        }
    }
    assert_eq!(CoordEOFB::index(Cube::default()), 0);
}

#[test]
pub fn test_coordsyms_coud() {
    let c = CoordSyms::<CoordCOUD>::new();
    assert_eq!(c.n_classes(), 168);
    assert_eq!(CoordCOUD::index(Cube::default()), 0);
}

#[test]
fn test_cp_htr_cosets() {
    let cosets = compute_corner_cosets();
    let c = Cube::new().apply_alg(Alg::try_from("R U").unwrap());
    println!("{}", cosets[c.corners.perm_coord()]);
    let mut s = Searcher::new(c, &Move::all());
    while let Some(c) = s.next() {
        if s.moves().len() >= 7 || c.is_drud() {
            s.prune();
        }
        if c.is_drud() && cosets[c.corners.perm_coord()] != 0 {
            println!("{}", s.moves().alg().to_string());
        }
    }
}

#[test]
fn test_corner_cosets_partition() {
    let cosets = compute_corner_cosets();
    assert_eq!(cosets.len(), 40320);
    assert!(cosets.iter().all(|&k| k != NO_COSET));
    // The solved permutation opens the first coset.
    assert_eq!(cosets[Cube::new().corners.perm_coord()], 0);
    // Half turns stay in the coset; a quarter turn leaves it.
    let htr = Cube::new().apply_alg(Alg::try_from("R2 U2 F2 L2 D2 B2").unwrap());
    assert_eq!(cosets[htr.corners.perm_coord()], 0);
    let quarter = Cube::new().apply_alg(Alg::try_from("R").unwrap());
    assert_ne!(cosets[quarter.corners.perm_coord()], 0);
    // The half-turn group has 96 corner permutations: 420 cosets of equal size.
    let n = cosets.iter().max().unwrap() + 1;
    assert_eq!(n, 420);
    let mut sizes = vec![0usize; n];
    for &k in &cosets {
        sizes[k] += 1;
    }
    assert!(sizes.iter().all(|&z| z == 96));
}

#[test]
fn test_prune() {
    let mut s = IDASearcher::new(Cube::default());
    let pt = PruneTable::<CoordEOFB, CoordCOUD>::new();
    while let Some(c) = s.next_frontier() {
        if s.moves().len() > 4 {
            break;
        }
        assert!(
            pt.eval(c) <= s.moves().len(),
            "moves = {}, pt = {}",
            s.moves().alg().to_string(),
            pt.eval(c),
        );
    }
}

#[test]
fn test_solve_dr() {
    let pt = PruneTable::<CoordEOFB, CoordCOUD>::new();
    let alg = Alg::try_from("R' U' F B2 R2 B2 F L2 B D2 B' L2 R2 D2 F' D L' B F' D L' B' L2 B2 R' U' F").unwrap();
    let start = Cube::from_alg(alg);
    let mut s = IDASearcher::new(start);
    while let Some(c) = s.next() {
        if s.n == 13 {
            break;
        }
        if s.is_frontier() && s.n != 0 && c.is_drud() {
            let moves = s.moves().alg().iter();
            let last = *moves.last().unwrap();
            let mut ok = last.is_clockwise() && !last.commutes_with(&Move::U);
            if let Some([a, b]) = moves.last_chunk::<2>() {
                if a.commutes_with(b) && !a.is_clockwise() {
                    ok = false;
                }
            }
            if ok {
                println!("found {}", s.moves().alg().to_string());
            }
        }
        if s.moves().len() + pt.eval(c) as usize > s.n {
            s.prune();
        }
    }
}

#[test]
fn test_prune_table_solved_entry() {
    let pt = PruneTable::<CoordEOFB, CoordCOUD>::new();
    assert_eq!(pt.eval(Cube::new()), 0);
    // One quarter turn of F flips edges and twists corners: one move away.
    let f = Cube::new().apply_alg(Alg::try_from("F").unwrap());
    assert_eq!(pt.eval(f), 1);
    // Moves that keep both orientations cost nothing.
    let u = Cube::new().apply_alg(Alg::try_from("U D2 R2 F2").unwrap());
    assert_eq!(pt.eval(u), 0);
}

#[test]
fn prank_ends_of_the_order() {
    assert_eq!(unprank(0), [0, 1, 2, 3, 4, 5, 6, 7]);
    assert_eq!(prank([7, 6, 5, 4, 3, 2, 1, 0]), 40319);
    assert_eq!(unprank(40319), [7, 6, 5, 4, 3, 2, 1, 0]);
}
