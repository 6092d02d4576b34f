use libfmc::cube::coord::pruning::PruneTable;
use libfmc::cube::corners::htr::compute_corner_cosets;
use libfmc::{Alg, Center, Centers, Coord, CoordCOUD, CoordEOFB, Corner, Cube, Move, Rotation, Searcher, Set64, Slice, SliceMove, Sym, Edge};

fn cube(s: &str) -> Cube {
    Cube::new().apply_alg(Alg::try_from(s).unwrap())
}

#[test]
fn compose_is_associative_with_identity() {
    let a = cube("R U F'");
    let b = cube("L2 D B");
    let c = cube("U' R2 F2");
    assert_eq!(a.compose(b).compose(c), a.compose(b.compose(c)));
    assert_eq!(a.compose(Cube::new()), a);
    assert_eq!(Cube::new().compose(a), a);
}

#[test]
fn inverse_undoes_a_cube() {
    for s in ["R", "R U R' U'", "F B2 L' D2 U R2", "R' U' F B2 R2 B2 F L2 B D2 B' L2"] {
        let a = cube(s);
        assert!(a.compose(a.inverse()).is_solved());
        assert!(a.inverse().compose(a).is_solved());
    }
}

#[test]
fn apply_alg_appends() {
    let a = Alg::try_from("R U F").unwrap();
    let b = Alg::try_from("L' D2").unwrap();
    let ab = Alg::try_from("R U F L' D2").unwrap();
    assert_eq!(Cube::new().apply_alg(a).apply_alg(b), Cube::new().apply_alg(ab));
}

#[test]
fn four_quarter_turns_solve() {
    for m in Move::all() {
        let mut c = Cube::new();
        for _ in 0..4 {
            c = c.apply_move(m);
        }
        assert!(c.is_solved());
    }
}

#[test]
fn move_addition() {
    assert_eq!(Move::R + Move::R, Some(Move::R2));
    assert_eq!(Move::R + Move::R3, None);
    assert_eq!(Move::U2 + Move::U, Some(Move::U3));
    assert_eq!(Move::U + Move::D, None);
}

#[test]
fn alg_text_roundtrip() {
    let s = "R' U' F B2 L2 U2 R2 U' R2";
    let a = Alg::try_from(s).unwrap();
    assert_eq!(a.to_string(), s);
    assert_eq!(Alg::try_from(a.to_string().as_str()).unwrap().to_string(), s);
}

#[test]
fn centers_rotation_cycles() {
    let x = Centers::rotation(Rotation::X);
    let mut c = Centers::new();
    for _ in 0..4 {
        c = c.compose(x);
    }
    assert_eq!(c, Centers::new());
    assert_ne!(x, Centers::new());
}

#[test]
fn set64_semantics() {
    let mut s: Set64<Edge> = Set64::new();
    assert!(s.is_empty());
    assert!(s.insert(&Edge::BL));
    assert!(!s.insert(&Edge::BL));
    assert!(s.insert(&Edge::UR));
    assert_eq!(s.len(), 2);
    assert_eq!(s.first(), Some(Edge::UR));
    assert!(s.remove(&Edge::UR));
    assert!(!s.contains(&Edge::UR));
    assert_eq!(s.pop_first(), Some(Edge::BL));
    assert!(s.is_empty());
    assert_eq!(s.pop_first(), None);
}

#[test]
fn searcher_yields_cube_after_path() {
    let start = cube("R U");
    let mut s = Searcher::new(start, &Move::all());
    let mut n = 0;
    while let Some(c) = s.next() {
        let path = s.moves().alg();
        assert_eq!(start.apply_alg(path), c);
        n += 1;
        if s.moves().len() == 2 {
            s.prune();
        }
    }
    assert_eq!(n, 1 + 18 + 243);
}

#[test]
fn sym_inverse_and_conjugation() {
    for i in 0..48u8 {
        let s = Sym::from_u8(i);
        assert_eq!(s + s.inverse(), Sym::UF);
        let c = cube("R U F' D2");
        // Conjugating back by the inverse gives the cube again.
        assert_eq!(c.conjugate_sym(s).conjugate_sym(s.inverse()), c);
    }
}

#[test]
fn mirror_conjugation_turns_twists() {
    // A mirror keeps the twist coordinate's class: R seen in the LR mirror is L', whose
    // corners twist the other way.
    let r = cube("R");
    let l3 = cube("L'");
    assert_eq!(r.conjugate_sym(Sym::UFm).corners, l3.corners);
    assert_eq!(CoordCOUD::index(r.conjugate_sym(Sym::UFm)), CoordCOUD::index(l3));
    assert_eq!(CoordEOFB::index(Cube::new()), 0);
}

#[test]
fn coset_numbers_are_stable() {
    let cosets = compute_corner_cosets();
    let a = cube("R U");
    let b = cube("R U R2 F2");
    assert_eq!(cosets[a.corners.perm_coord()], cosets[b.corners.perm_coord()]);
}

#[test]
fn prune_table_layers() {
    let pt = PruneTable::<CoordEOFB, CoordCOUD>::new();
    // Distances seen from the solved cube outwards come without gaps.
    let mut seen = [false; 16];
    let mut s = Searcher::new(Cube::new(), &Move::all());
    while let Some(c) = s.next() {
        let d = pt.eval(c);
        assert!(d <= s.moves().len());
        seen[d] = true;
        if s.moves().len() == 3 {
            s.prune();
        }
    }
    let max = (0..16).filter(|&d| seen[d]).max().unwrap();
    assert!((0..=max).all(|d| seen[d]));
    assert!(max >= 2);
}

#[test]
fn parse_skips_unicode_whitespace() {
    let a = Alg::try_from("\u{3000}R\u{00A0}U2 \u{2003}F'").unwrap();
    assert_eq!(a.to_string(), "R U2 F'");
    assert!(Alg::try_from("R é").is_err());
}

#[test]
fn find_locates_every_piece() {
    let c = cube("R U F' L2 D B'").corners;
    for x in Corner::all() {
        let slot = c.find(x);
        assert_eq!(c.at(slot).piece(), x);
    }
}

#[test]
fn next_frontier_meets_each_sequence_once_per_depth() {
    let mut s = libfmc::IDASearcher::new(Cube::default());
    let mut counts = vec![0usize; 3];
    let mut seen: Vec<String> = Vec::new();
    let mut last_depth = 0usize;
    while let Some(c) = s.next_frontier() {
        let depth = s.moves().len();
        assert_eq!(depth, s.n);
        assert!(depth >= last_depth);
        last_depth = depth;
        if depth > 2 {
            break;
        }
        assert!(c == Cube::default().apply_alg(s.moves().alg()));
        let text = s.moves().alg().to_string();
        assert!(!seen.contains(&text));
        seen.push(text);
        counts[depth] += 1;
    }
    assert_eq!(counts, vec![1, 18, 243]);
}

#[test]
fn set_co_touches_one_slot_on_one_axis() {
    let c = cube("R U F' L2 D B'").corners;
    for slot in Corner::all() {
        for axis in [libfmc::Axis::UD, libfmc::Axis::FB, libfmc::Axis::LR] {
            for co in [libfmc::CO::Solved, libfmc::CO::CCW, libfmc::CO::CW] {
                let r = c.set_co(slot, co, axis);
                assert!(r.co(slot, axis) == co);
                for t in Corner::all() {
                    assert!(r.at(t).piece() == c.at(t).piece());
                    if t != slot {
                        for a in [libfmc::Axis::UD, libfmc::Axis::FB, libfmc::Axis::LR] {
                            assert!(r.co(t, a) == c.co(t, a));
                        }
                    }
                }
            }
        }
    }
}

#[test]
fn moves_keep_edge_orientation_layout() {
    use_layout_check(libfmc::Edges::new());
    for m in Move::all() {
        use_layout_check(libfmc::Edges::new().apply_move(m));
    }
    use_layout_check(cube("R U F' L2 D B' R2 U'").edges);
    use_layout_check(cube("F B' U D' R L'").edges.compose(cube("F2 R' D").edges));
}

fn use_layout_check(e: libfmc::Edges) {
    for slot in Edge::all() {
        let piece = e.at(slot);
        let fb = e.eofb(slot) != libfmc::EO::Solved;
        let lr = e.eolr(slot) != libfmc::EO::Solved;
        let ud = e.eoud(slot) != libfmc::EO::Solved;
        let in_e = |x: Edge| x.slice() == libfmc::Slice::E;
        let in_m = |x: Edge| x.slice() == libfmc::Slice::M;
        assert_eq!(lr, fb ^ (in_e(piece) != in_e(slot)));
        assert_eq!(ud, fb ^ (in_m(piece) != in_m(slot)));
    }
}

#[test]
fn canonicalize_never_lengthens_and_keeps_the_cube() {
    for text in ["R L R' L'", "U U U U", "R L R L", "U D U' D2 F", "R R R", "F B F' B2 U D2 U2 D"] {
        let a = Alg::try_from(text).unwrap();
        let c = a.canonicalize();
        assert!(c.len() <= a.len());
        assert!(c.is_canonical());
        assert!(Cube::new().apply_alg(c.clone()) == Cube::new().apply_alg(a.clone()));
    }
    assert_eq!(Alg::try_from("U U U U").unwrap().canonicalize().len(), 0);
}

#[test]
fn quarter_turns_cancel_and_double() {
    let c = cube("R U F' L2 D B'").corners;
    let all = Move::all();
    for k in [0usize, 3, 6, 9, 12, 15] {
        let (q, q2, q3) = (all[k], all[k + 1], all[k + 2]);
        assert!(c.apply_move(q).apply_move(q3) == c);
        assert!(c.apply_move(q2) == c.apply_move(q).apply_move(q));
        assert!(c.apply_move(q) == c.compose(libfmc::Corners::new().apply_move(q)));
    }
}

#[test]
fn slice_moves_repeat_their_cycle() {
    for m in SliceMove::all() {
        let (s, n) = m.decompose();
        let k = match s {
            Slice::M => Centers::cycle(&[Center::U, Center::F, Center::D, Center::B]),
            Slice::E => Centers::cycle(&[Center::F, Center::R, Center::B, Center::L]),
            Slice::S => Centers::cycle(&[Center::U, Center::R, Center::D, Center::L]),
        };
        let mut c = Centers::new();
        for _ in 0..n {
            c = c.compose(k);
        }
        assert!(Centers::slice_move(m) == c);
    }
}

#[test]
fn pieces_and_faces_parse_from_names() {
    assert_eq!(libfmc::Face::try_from("r"), Ok(libfmc::Face::R));
    assert_eq!(libfmc::Face::try_from("RU"), Err(()));
    assert_eq!(Edge::try_from("UF"), Ok(Edge::UF));
    assert_eq!(Edge::try_from("fu"), Ok(Edge::UF));
    assert_eq!(Edge::try_from("UD"), Err(()));
    assert_eq!(Edge::try_from("UX"), Err(()));
    assert_eq!(Edge::try_from("U"), Err(()));
    assert_eq!(Corner::try_from("URF"), Ok(Corner::UFR));
    assert_eq!(Corner::try_from("dbl"), Ok(Corner::DBL));
    assert_eq!(Corner::try_from("UDF"), Err(()));
    assert_eq!(Corner::try_from("UF"), Err(()));
}

#[test]
fn every_corner_permutation_has_a_coset() {
    let cosets = compute_corner_cosets();
    assert_eq!(cosets.len(), 40320);
    assert!(cosets.iter().all(|&k| k != usize::MAX));
    assert_eq!(cosets[0], 0);
}
