use vstd::prelude::*;
use vstd::string::*;
use crate::cube::axis::{Axis, spec_axis_primary, spec_axis_secondary};
use crate::cube::direction::{Direction, spec_direction};
use crate::cube::face::{Face, spec_face_axis, spec_face_move};
use crate::cube::corners::corners as corners_model;
use crate::cube::edges::edges as edges_model;
use crate::cube::edges::ops as edge_ops;
use crate::cube::transform::mov::{Move, lemma_parse_move_name, spec_move_name, spec_parse_move, spec_canonically_succeeds};

verus! {

/// A sequence of face turns.
#[derive(Clone, Debug)]
pub struct Alg(pub Vec<Move>);

impl Alg {
    pub fn new() -> (r: Alg)
        ensures
            r.0@ == Seq::<Move>::empty(),
    {
        Alg(Vec::new())
    }

    /// The algorithm of the given moves.
    pub fn from_moves(moves: Vec<Move>) -> (r: Alg)
        ensures
            r.0@ == moves@,
    {
        Alg(moves)
    }

    pub fn push(&mut self, m: Move)
        ensures
            final(self).0@ == old(self).0@.push(m),
    {
        self.0.push(m)
    }

    /// The moves of the algorithm, in order.
    pub fn iter(&self) -> (r: Vec<Move>)
        ensures
            r@ == self.0@,
    {
        self.0.clone()
    }

    /// The moves of the algorithm, in order.
    pub fn into_iter(self) -> (r: Vec<Move>)
        ensures
            r@ == self.0@,
    {
        self.0
    }

    /// The number of moves.
    pub fn len(&self) -> (r: usize)
        ensures
            r == self.0@.len(),
    {
        self.0.len()
    }

    /// Whether each move may follow the one before it in a canonical sequence.
    pub fn is_canonical(&self) -> (r: bool)
        ensures
            r == spec_is_canonical(self.0@),
    {
        let n = self.0.len();
        if n < 2 {
            return true;
        }
        let mut i: usize = 0;
        while i + 1 < n
            invariant
                n == self.0@.len(),
                n >= 2,
                i + 1 <= n,
                forall|k: int| 0 <= k < i ==> #[trigger] spec_canonically_succeeds(self.0@[k + 1], self.0@[k]),
            decreases n - i,
        {
            if !self.0[i].canonically_precedes(self.0[i + 1]) {
                return false;
            }
            i += 1;
        }
        true
    }
}

/// Each move may follow the one before it in a canonical sequence.
pub open spec fn spec_is_canonical(s: Seq<Move>) -> bool {
    forall|k: int| 0 <= k < s.len() - 1 ==> #[trigger] spec_canonically_succeeds(s[k + 1], s[k])
}


/// The turns of one axis that `canonicalize` has gathered: the axis, the primary
/// face's direction and the secondary face's direction.
pub type SpecItem = (Axis, Direction, Direction);

/// One step of `canonicalize`: the stack after move `m`.
pub open spec fn spec_stack_step(st: Seq<SpecItem>, m: Move) -> Seq<SpecItem> {
    let ax = spec_face_axis(m.spec_face());
    let (p, q) = spec_split(m);
    if st.len() > 0 && st.last().0 == ax {
        let top = st.last();
        let p1 = spec_direction(top.1 as int + p as int);
        let q1 = spec_direction(top.2 as int + q as int);
        if p1 == Direction::Zero && q1 == Direction::Zero {
            st.drop_last()
        } else {
            st.drop_last().push((ax, p1, q1))
        }
    } else {
        st.push((ax, p, q))
    }
}

/// The split of a move into a turn of its axis' primary face and one of its secondary face.
pub open spec fn spec_split(m: Move) -> (Direction, Direction) {
    if m.spec_face() == spec_axis_primary(spec_face_axis(m.spec_face())) {
        (spec_direction((m as u8) % 3 + 1), Direction::Zero)
    } else {
        (Direction::Zero, spec_direction((m as u8) % 3 + 1))
    }
}

/// The stack of gathered axes after the moves `s`: a move on the axis at the top of
/// the stack adds to it (and an axis that adds up to nothing is dropped); any other
/// move starts a new axis.
pub open spec fn spec_canon_stack(s: Seq<Move>) -> Seq<SpecItem>
    decreases s.len(),
{
    if s.len() == 0 {
        Seq::empty()
    } else {
        spec_stack_step(spec_canon_stack(s.drop_last()), s.last())
    }
}

/// The moves of a gathered axis: the primary face's turn, then the secondary face's.
pub open spec fn spec_item_moves(it: SpecItem) -> Seq<Move> {
    let a = if it.1 == Direction::Zero { Seq::<Move>::empty() } else {
        seq![spec_face_move(spec_axis_primary(it.0), it.1 as int)] };
    let b = if it.2 == Direction::Zero { Seq::<Move>::empty() } else {
        seq![spec_face_move(spec_axis_secondary(it.0), it.2 as int)] };
    a + b
}

/// The moves of all gathered axes, bottom of the stack first.
pub open spec fn spec_flatten(st: Seq<SpecItem>) -> Seq<Move>
    decreases st.len(),
{
    if st.len() == 0 {
        Seq::empty()
    } else {
        spec_flatten(st.drop_last()) + spec_item_moves(st.last())
    }
}

/// What `canonicalize` returns for the moves `s`.
pub open spec fn spec_canonicalize(s: Seq<Move>) -> Seq<Move> {
    spec_flatten(spec_canon_stack(s))
}

/// No gathered axis is empty, and neighbouring axes differ.
pub open spec fn spec_stack_ok(st: Seq<SpecItem>) -> bool {
    &&& forall|k: int| 0 <= k < st.len() ==> !(#[trigger] st[k].1 == Direction::Zero && st[k].2 == Direction::Zero)
    &&& forall|k: int| 0 <= k < st.len() - 1 ==> #[trigger] st[k].0 != st[k + 1].0
}

proof fn lemma_canon_stack_ok(s: Seq<Move>)
    ensures
        spec_stack_ok(spec_canon_stack(s)),
    decreases s.len(),
{
    if s.len() > 0 {
        lemma_canon_stack_ok(s.drop_last());
        let st = spec_canon_stack(s.drop_last());
        let m = s.last();
        let (p, q) = spec_split(m);
        assert(!(p == Direction::Zero && q == Direction::Zero));
        let st2 = spec_canon_stack(s);
        assert(st2.len() <= st.len() + 1);
        assert forall|k: int| 0 <= k < st2.len() implies #[trigger] st2[k].0 == (if k < st.len() { st[k].0 } else { spec_face_axis(m.spec_face()) }) by {
            if k < st.len() - 1 {
                assert(st2[k] == st[k]);
            }
        }
        assert forall|k: int| 0 <= k < st2.len() - 1 implies #[trigger] st2[k].0 != st2[k + 1].0 by {
            if k + 1 < st.len() {
                assert(st[k].0 != st[k + 1].0);
            }
        }
        assert forall|k: int| 0 <= k < st2.len() implies !(#[trigger] st2[k].1 == Direction::Zero && st2[k].2 == Direction::Zero) by {
            if k < st.len() - 1 {
                assert(st2[k] == st[k]);
            }
        }
    }
}

/// The moves of one gathered axis form a canonical sequence.
proof fn lemma_item_moves(it: SpecItem)
    ensures
        spec_is_canonical(spec_item_moves(it)),
        spec_item_moves(it).len() <= 2,
        forall|k: int| 0 <= k < spec_item_moves(it).len() ==>
            spec_face_axis((#[trigger] spec_item_moves(it)[k]).spec_face()) == it.0,
        !(it.1 == Direction::Zero && it.2 == Direction::Zero) ==> spec_item_moves(it).len() > 0,
{
}

/// The moves of a well-formed stack form a canonical sequence.
proof fn lemma_flatten_canonical(st: Seq<SpecItem>)
    requires
        spec_stack_ok(st),
    ensures
        spec_is_canonical(spec_flatten(st)),
        st.len() > 0 ==> spec_flatten(st).len() > 0
            && spec_face_axis(spec_flatten(st).last().spec_face()) == st.last().0,
    decreases st.len(),
{
    if st.len() > 0 {
        let rest = st.drop_last();
        assert(spec_stack_ok(rest)) by {
            assert forall|k: int| 0 <= k < rest.len() - 1 implies #[trigger] rest[k].0 != rest[k + 1].0 by {
                assert(rest[k] == st[k]);
                assert(rest[k + 1] == st[k + 1]);
            }
            assert forall|k: int| 0 <= k < rest.len() implies !(#[trigger] rest[k].1 == Direction::Zero && rest[k].2 == Direction::Zero) by {
                assert(rest[k] == st[k]);
            }
        }
        lemma_flatten_canonical(rest);
        let a = spec_flatten(rest);
        let b = spec_item_moves(st.last());
        lemma_item_moves(st.last());
        assert(!(st[st.len() - 1].1 == Direction::Zero && st[st.len() - 1].2 == Direction::Zero));
        let ab = a + b;
        assert forall|k: int| 0 <= k < ab.len() - 1 implies #[trigger] spec_canonically_succeeds(ab[k + 1], ab[k]) by {
            if k + 1 < a.len() {
                assert(ab[k] == a[k]);
                assert(ab[k + 1] == a[k + 1]);
            } else if k >= a.len() {
                assert(ab[k] == b[k - a.len()]);
                assert(ab[k + 1] == b[k + 1 - a.len()]);
            } else {
                assert(rest.len() > 0);
                assert(rest.last().0 != st.last().0) by {
                    assert(rest.last() == st[st.len() - 2]);
                }
                assert(ab[k] == a.last());
                assert(ab[k + 1] == b[0]);
            }
        }
    }
}

/// Gathering an algorithm gives a canonical sequence.
pub proof fn lemma_canonicalize_is_canonical(s: Seq<Move>)
    ensures
        spec_is_canonical(spec_canonicalize(s)),
{
    lemma_canon_stack_ok(s);
    lemma_flatten_canonical(spec_canon_stack(s));
}

/// Gathering one more move adds at most one move to the result.
proof fn lemma_stack_step_len(st: Seq<SpecItem>, m: Move)
    ensures
        spec_flatten(spec_stack_step(st, m)).len() <= spec_flatten(st).len() + 1,
{
    let ax = spec_face_axis(m.spec_face());
    let (p, q) = spec_split(m);
    assert(p == Direction::Zero || q == Direction::Zero);
    let st2 = spec_stack_step(st, m);
    if st.len() > 0 && st.last().0 == ax {
        let top = st.last();
        let rest = st.drop_last();
        assert(spec_flatten(st).len() == spec_flatten(rest).len() + spec_item_moves(top).len());
        let p1 = spec_direction(top.1 as int + p as int);
        let q1 = spec_direction(top.2 as int + q as int);
        if p1 == Direction::Zero && q1 == Direction::Zero {
            assert(st2 == rest);
        } else {
            let it = (ax, p1, q1);
            assert(st2.drop_last() =~= rest);
            assert(spec_flatten(st2).len() == spec_flatten(rest).len() + spec_item_moves(it).len());
            if p == Direction::Zero {
                assert(p1 == top.1);
            } else {
                assert(q1 == top.2);
            }
        }
    } else {
        let it = (ax, p, q);
        assert(st2.drop_last() =~= st);
        assert(spec_flatten(st2).len() == spec_flatten(st).len() + spec_item_moves(it).len());
    }
}

/// Gathering an algorithm never makes it longer.
pub proof fn lemma_canonicalize_no_longer(s: Seq<Move>)
    ensures
        spec_canonicalize(s).len() <= s.len(),
    decreases s.len(),
{
    if s.len() > 0 {
        lemma_canonicalize_no_longer(s.drop_last());
        lemma_stack_step_len(spec_canon_stack(s.drop_last()), s.last());
    }
}

/// How a move splits into a turn of its axis' primary face and one of its secondary face:
/// exactly one of them turns, and it is the move itself.
proof fn lemma_split_move(m: Move)
    ensures
        ({
            let ax = spec_face_axis(m.spec_face());
            let (p, q) = spec_split(m);
            if m.spec_face() == spec_axis_primary(ax) {
                &&& q == Direction::Zero
                &&& 1 <= p as int <= 3
                &&& spec_face_move(spec_axis_primary(ax), p as int) == m
            } else {
                &&& p == Direction::Zero
                &&& 1 <= q as int <= 3
                &&& spec_face_move(spec_axis_secondary(ax), q as int) == m
            }
        }),
{
    match m {
        Move::U => {}, Move::U2 => {}, Move::U3 => {},
        Move::D => {}, Move::D2 => {}, Move::D3 => {},
        Move::F => {}, Move::F2 => {}, Move::F3 => {},
        Move::B => {}, Move::B2 => {}, Move::B3 => {},
        Move::R => {}, Move::R2 => {}, Move::R3 => {},
        Move::L => {}, Move::L2 => {}, Move::L3 => {},
    }
}

/// The number of quarter turns of a sum of directions.
proof fn lemma_direction_sum(a: Direction, b: int)
    ensures
        spec_direction(a as int + b) as int == (a as int + b) % 4,
{
}

/// Composition of edges is associative.
proof fn lemma_edges_assoc(a: Seq<u8>, b: Seq<u8>, c: Seq<u8>)
    requires
        a.len() == 16,
        b.len() == 16,
        c.len() == 16,
    ensures
        edge_ops::spec_compose(edge_ops::spec_compose(a, b), c) == edge_ops::spec_compose(a, edge_ops::spec_compose(b, c)),
{
    edges_model::lemma_compose_assoc(a, b, c);
}

/// Composition of valid corners is associative, whichever way the moves of the cube are
/// grouped.
proof fn lemma_corners_assoc(a: Seq<u8>, b: Seq<u8>, c: Seq<u8>)
    requires
        corners_model::wf(a),
        corners_model::wf(b),
        corners_model::wf(c),
    ensures
        corners_model::spec_compose(corners_model::spec_compose(a, b), c)
            == corners_model::spec_compose(a, corners_model::spec_compose(b, c)),
{
    corners_model::lemma_compose_assoc(a, b, c);
}

/// Following valid corners with the solved corners changes nothing.
proof fn lemma_corners_ident_right(a: Seq<u8>)
    requires
        corners_model::wf(a),
    ensures
        corners_model::spec_compose(a, corners_model::spec_ident()) == a,
{
    corners_model::lemma_compose_ident(a);
}

/// The lanes of every move are valid corners.
proof fn lemma_corner_moves_wf()
    ensures
        forall|mv: Move| #[trigger] corners_model::wf(corners_model::spec_move(mv)),
{
    assert forall|mv: Move| #[trigger] corners_model::wf(corners_model::spec_move(mv)) by {
        corners_model::lemma_move_wf(mv);
    }
}

/// Valid corners stay valid after turns of the primary face of an axis.
proof fn lemma_corners_axis_wf(x: Seq<u8>, ax: Axis, a: int)
    requires
        corners_model::wf(x),
        0 <= a <= 3,
    ensures
        corners_model::wf(corners_axis_lanes(x, ax, a, 0)),
{
    if a != 0 {
        let m = spec_face_move(spec_axis_primary(ax), a);
        corners_model::lemma_move_wf(m);
        corners_model::lemma_compose_wf(x, corners_model::spec_move(m));
    }
}

/// The lanes `x` after the moves `s` and then `t` are those after `s + t`.
proof fn lemma_edges_append(x: Seq<u8>, s: Seq<Move>, t: Seq<Move>)
    ensures
        edges_model::spec_apply_moves(x, s + t) == edges_model::spec_apply_moves(edges_model::spec_apply_moves(x, s), t),
    decreases t.len(),
{
    if t.len() == 0 {
        assert(s + t =~= s);
    } else {
        assert((s + t).drop_last() =~= s + t.drop_last());
        assert((s + t).last() == t.last());
        lemma_edges_append(x, s, t.drop_last());
    }
}

/// The lanes `x` after one move.
proof fn lemma_edges_one(x: Seq<u8>, m: Move)
    ensures
        edges_model::spec_apply_moves(x, seq![m]) == edge_ops::spec_compose(x, edges_model::spec_move(m)),
{
    assert(seq![m].drop_last() =~= Seq::<Move>::empty());
    assert(edges_model::spec_apply_moves(x, Seq::<Move>::empty()) == x);
}

/// The lanes `x` after `a` quarter turns of the primary face of `ax` and then `b` of its
/// secondary face.
spec fn edges_axis_lanes(x: Seq<u8>, ax: Axis, a: int, b: int) -> Seq<u8> {
    let xa = if a == 0 { x } else { edge_ops::spec_compose(x, edges_model::spec_move(spec_face_move(spec_axis_primary(ax), a))) };
    if b == 0 { xa } else { edge_ops::spec_compose(xa, edges_model::spec_move(spec_face_move(spec_axis_secondary(ax), b))) }
}

/// The lanes `x` after the turns of an axis that the stack holds.
#[verifier::spinoff_prover]
#[verifier::rlimit(60)]
proof fn lemma_edges_item(x: Seq<u8>, it: SpecItem)
    ensures
        edges_model::spec_apply_moves(x, spec_item_moves(it)) == edges_axis_lanes(x, it.0, it.1 as int, it.2 as int),
{
    let pf = spec_axis_primary(it.0);
    let sf = spec_axis_secondary(it.0);
    let a = it.1 as int;
    let b = it.2 as int;
    let mv = spec_item_moves(it);
    let xa = if a == 0 { x } else { edge_ops::spec_compose(x, edges_model::spec_move(spec_face_move(pf, a))) };
    if a == 0 {
        if b == 0 {
            assert(mv =~= Seq::<Move>::empty());
        } else {
            assert(mv =~= seq![spec_face_move(sf, b)]);
            lemma_edges_one(x, spec_face_move(sf, b));
        }
    } else {
        if b == 0 {
            assert(mv =~= seq![spec_face_move(pf, a)]);
            lemma_edges_one(x, spec_face_move(pf, a));
        } else {
            assert(mv =~= seq![spec_face_move(pf, a)] + seq![spec_face_move(sf, b)]);
            lemma_edges_append(x, seq![spec_face_move(pf, a)], seq![spec_face_move(sf, b)]);
            lemma_edges_one(x, spec_face_move(pf, a));
            lemma_edges_one(xa, spec_face_move(sf, b));
        }
    }
}

/// A turn of the primary face adds to the primary face's turns.
#[verifier::spinoff_prover]
proof fn lemma_edges_add_primary(x: Seq<u8>, ax: Axis, a: int, b: int, d: int)
    requires
        x.len() == 16,
        0 <= a <= 3,
        0 <= b <= 3,
        1 <= d <= 3,
    ensures
        edges_axis_lanes(x, ax, (a + d) % 4, b)
            == edge_ops::spec_compose(edges_axis_lanes(x, ax, a, b), edges_model::spec_move(spec_face_move(spec_axis_primary(ax), d))),
{
    let pf = spec_axis_primary(ax);
    let sf = spec_axis_secondary(ax);
    let pd = edges_model::spec_move(spec_face_move(pf, d));
    let xa = edges_axis_lanes(x, ax, a, 0);
    let xa2 = edges_axis_lanes(x, ax, (a + d) % 4, 0);
    assert(edge_ops::spec_compose(xa, pd) == xa2) by {
        if a != 0 {
            let pa = edges_model::spec_move(spec_face_move(pf, a));
            edges_model::lemma_face_turns_add(pf, a, d);
            lemma_edges_assoc(x, pa, pd);
            if (a + d) % 4 == 0 {
                edges_model::lemma_compose_ident_right(x);
            }
        }
    }
    if b != 0 {
        let sb = edges_model::spec_move(spec_face_move(sf, b));
        
        edges_model::lemma_axis_turns_commute(ax, d, b);
        lemma_edges_assoc(xa, sb, pd);
        lemma_edges_assoc(xa, pd, sb);
    }
}

/// A turn of the secondary face adds to the secondary face's turns.
#[verifier::spinoff_prover]
proof fn lemma_edges_add_secondary(x: Seq<u8>, ax: Axis, a: int, b: int, d: int)
    requires
        x.len() == 16,
        0 <= a <= 3,
        0 <= b <= 3,
        1 <= d <= 3,
    ensures
        edges_axis_lanes(x, ax, a, (b + d) % 4)
            == edge_ops::spec_compose(edges_axis_lanes(x, ax, a, b), edges_model::spec_move(spec_face_move(spec_axis_secondary(ax), d))),
{
    let sf = spec_axis_secondary(ax);
    let sd = edges_model::spec_move(spec_face_move(sf, d));
    let xa = edges_axis_lanes(x, ax, a, 0);
    if b != 0 {
        let sb = edges_model::spec_move(spec_face_move(sf, b));
        
        edges_model::lemma_face_turns_add(sf, b, d);
        lemma_edges_assoc(xa, sb, sd);
        if (b + d) % 4 == 0 {
            edges_model::lemma_compose_ident_right(xa);
        }
    }
}

/// Gathering a move into the top axis of the stack turns the lanes as the move does.
#[verifier::spinoff_prover]
#[verifier::rlimit(60)]
proof fn lemma_edges_merge(x: Seq<u8>, it: SpecItem, m: Move)
    requires
        x.len() == 16,
        it.0 == spec_face_axis(m.spec_face()),
    ensures
        ({
            let (p, q) = spec_split(m);
            let it2 = (it.0, spec_direction(it.1 as int + p as int), spec_direction(it.2 as int + q as int));
            edges_model::spec_apply_moves(x, spec_item_moves(it2))
                == edge_ops::spec_compose(edges_model::spec_apply_moves(x, spec_item_moves(it)), edges_model::spec_move(m))
        }),
{
    let ax = it.0;
    let (p, q) = spec_split(m);
    lemma_split_move(m);
    lemma_direction_sum(it.1, p as int);
    lemma_direction_sum(it.2, q as int);
    let it2 = (ax, spec_direction(it.1 as int + p as int), spec_direction(it.2 as int + q as int));
    lemma_edges_item(x, it);
    lemma_edges_item(x, it2);
    if m.spec_face() == spec_axis_primary(ax) {
        lemma_edges_add_primary(x, ax, it.1 as int, it.2 as int, p as int);
    } else {
        lemma_edges_add_secondary(x, ax, it.1 as int, it.2 as int, q as int);
    }
}

/// Gathering moves keeps the lanes they turn `x` into.
#[verifier::spinoff_prover]
#[verifier::rlimit(60)]
proof fn lemma_edges_canonicalize(x: Seq<u8>, s: Seq<Move>)
    requires
        x.len() == 16,
    ensures
        edges_model::spec_apply_moves(x, spec_canonicalize(s)) == edges_model::spec_apply_moves(x, s),
    decreases s.len(),
{
    if s.len() > 0 {
        let s0 = s.drop_last();
        let m = s.last();
        lemma_edges_canonicalize(x, s0);
        let st = spec_canon_stack(s0);
        let ax = spec_face_axis(m.spec_face());
        let (p, q) = spec_split(m);
        assert(spec_canon_stack(s) == spec_stack_step(st, m));
        if st.len() > 0 && st.last().0 == ax {
            let rest = st.drop_last();
            let top = st.last();
            let it2 = (ax, spec_direction(top.1 as int + p as int), spec_direction(top.2 as int + q as int));
            let fr = spec_flatten(rest);
            assert(spec_flatten(st) == fr + spec_item_moves(top));
            assert(spec_flatten(spec_stack_step(st, m)) =~= fr + spec_item_moves(it2)) by {
                if it2.1 == Direction::Zero && it2.2 == Direction::Zero {
                    assert(spec_item_moves(it2) =~= Seq::<Move>::empty());
                    assert(fr + spec_item_moves(it2) =~= fr);
                } else {
                    assert(spec_stack_step(st, m).drop_last() =~= rest);
                }
            }
            let xr = edges_model::spec_apply_moves(x, fr);
            
            lemma_edges_append(x, fr, spec_item_moves(it2));
            lemma_edges_append(x, fr, spec_item_moves(top));
            lemma_edges_merge(xr, top, m);
        } else {
            lemma_split_move(m);
            let it = (ax, p, q);
            assert(spec_stack_step(st, m).drop_last() =~= st);
            assert(spec_item_moves(it) =~= seq![m]);
            lemma_edges_append(x, spec_flatten(st), seq![m]);
            lemma_edges_one(edges_model::spec_apply_moves(x, spec_flatten(st)), m);
        }
    }
}

/// The lanes `x` after the moves `s` and then `t` are those after `s + t`.
proof fn lemma_corners_append(x: Seq<u8>, s: Seq<Move>, t: Seq<Move>)
    ensures
        corners_model::spec_apply_moves(x, s + t) == corners_model::spec_apply_moves(corners_model::spec_apply_moves(x, s), t),
    decreases t.len(),
{
    if t.len() == 0 {
        assert(s + t =~= s);
    } else {
        assert((s + t).drop_last() =~= s + t.drop_last());
        assert((s + t).last() == t.last());
        lemma_corners_append(x, s, t.drop_last());
    }
}

/// The lanes `x` after one move.
proof fn lemma_corners_one(x: Seq<u8>, m: Move)
    ensures
        corners_model::spec_apply_moves(x, seq![m]) == corners_model::spec_compose(x, corners_model::spec_move(m)),
{
    assert(seq![m].drop_last() =~= Seq::<Move>::empty());
    assert(corners_model::spec_apply_moves(x, Seq::<Move>::empty()) == x);
}

/// The lanes `x` after `a` quarter turns of the primary face of `ax` and then `b` of its
/// secondary face.
spec fn corners_axis_lanes(x: Seq<u8>, ax: Axis, a: int, b: int) -> Seq<u8> {
    let xa = if a == 0 { x } else { corners_model::spec_compose(x, corners_model::spec_move(spec_face_move(spec_axis_primary(ax), a))) };
    if b == 0 { xa } else { corners_model::spec_compose(xa, corners_model::spec_move(spec_face_move(spec_axis_secondary(ax), b))) }
}

/// The lanes `x` after the turns of an axis that the stack holds.
#[verifier::spinoff_prover]
#[verifier::rlimit(60)]
proof fn lemma_corners_item(x: Seq<u8>, it: SpecItem)
    ensures
        corners_model::spec_apply_moves(x, spec_item_moves(it)) == corners_axis_lanes(x, it.0, it.1 as int, it.2 as int),
{
    let pf = spec_axis_primary(it.0);
    let sf = spec_axis_secondary(it.0);
    let a = it.1 as int;
    let b = it.2 as int;
    let mv = spec_item_moves(it);
    let xa = if a == 0 { x } else { corners_model::spec_compose(x, corners_model::spec_move(spec_face_move(pf, a))) };
    if a == 0 {
        if b == 0 {
            assert(mv =~= Seq::<Move>::empty());
        } else {
            assert(mv =~= seq![spec_face_move(sf, b)]);
            lemma_corners_one(x, spec_face_move(sf, b));
        }
    } else {
        if b == 0 {
            assert(mv =~= seq![spec_face_move(pf, a)]);
            lemma_corners_one(x, spec_face_move(pf, a));
        } else {
            assert(mv =~= seq![spec_face_move(pf, a)] + seq![spec_face_move(sf, b)]);
            lemma_corners_append(x, seq![spec_face_move(pf, a)], seq![spec_face_move(sf, b)]);
            lemma_corners_one(x, spec_face_move(pf, a));
            lemma_corners_one(xa, spec_face_move(sf, b));
        }
    }
}

/// A turn of the primary face adds to the primary face's turns.
#[verifier::spinoff_prover]
proof fn lemma_corners_add_primary(x: Seq<u8>, ax: Axis, a: int, b: int, d: int)
    requires
        corners_model::wf(x),
        0 <= a <= 3,
        0 <= b <= 3,
        1 <= d <= 3,
    ensures
        corners_axis_lanes(x, ax, (a + d) % 4, b)
            == corners_model::spec_compose(corners_axis_lanes(x, ax, a, b), corners_model::spec_move(spec_face_move(spec_axis_primary(ax), d))),
{
    lemma_corner_moves_wf();
    let pf = spec_axis_primary(ax);
    let sf = spec_axis_secondary(ax);
    let pd = corners_model::spec_move(spec_face_move(pf, d));
    let xa = corners_axis_lanes(x, ax, a, 0);
    let xa2 = corners_axis_lanes(x, ax, (a + d) % 4, 0);
    assert(corners_model::spec_compose(xa, pd) == xa2) by {
        if a != 0 {
            let pa = corners_model::spec_move(spec_face_move(pf, a));
            corners_model::lemma_face_turns_add(pf, a, d);
            lemma_corners_assoc(x, pa, pd);
            if (a + d) % 4 == 0 {
                lemma_corners_ident_right(x);
            }
        }
    }
    if b != 0 {
        let sb = corners_model::spec_move(spec_face_move(sf, b));
        lemma_corners_axis_wf(x, ax, a);
        corners_model::lemma_axis_turns_commute(ax, d, b);
        lemma_corners_assoc(xa, sb, pd);
        lemma_corners_assoc(xa, pd, sb);
    }
}

/// A turn of the secondary face adds to the secondary face's turns.
#[verifier::spinoff_prover]
proof fn lemma_corners_add_secondary(x: Seq<u8>, ax: Axis, a: int, b: int, d: int)
    requires
        corners_model::wf(x),
        0 <= a <= 3,
        0 <= b <= 3,
        1 <= d <= 3,
    ensures
        corners_axis_lanes(x, ax, a, (b + d) % 4)
            == corners_model::spec_compose(corners_axis_lanes(x, ax, a, b), corners_model::spec_move(spec_face_move(spec_axis_secondary(ax), d))),
{
    lemma_corner_moves_wf();
    let sf = spec_axis_secondary(ax);
    let sd = corners_model::spec_move(spec_face_move(sf, d));
    let xa = corners_axis_lanes(x, ax, a, 0);
    if b != 0 {
        let sb = corners_model::spec_move(spec_face_move(sf, b));
        lemma_corners_axis_wf(x, ax, a);
        corners_model::lemma_face_turns_add(sf, b, d);
        lemma_corners_assoc(xa, sb, sd);
        if (b + d) % 4 == 0 {
            lemma_corners_ident_right(xa);
        }
    }
}

/// Gathering a move into the top axis of the stack turns the lanes as the move does.
#[verifier::spinoff_prover]
#[verifier::rlimit(60)]
proof fn lemma_corners_merge(x: Seq<u8>, it: SpecItem, m: Move)
    requires
        corners_model::wf(x),
        it.0 == spec_face_axis(m.spec_face()),
    ensures
        ({
            let (p, q) = spec_split(m);
            let it2 = (it.0, spec_direction(it.1 as int + p as int), spec_direction(it.2 as int + q as int));
            corners_model::spec_apply_moves(x, spec_item_moves(it2))
                == corners_model::spec_compose(corners_model::spec_apply_moves(x, spec_item_moves(it)), corners_model::spec_move(m))
        }),
{
    let ax = it.0;
    let (p, q) = spec_split(m);
    lemma_split_move(m);
    lemma_direction_sum(it.1, p as int);
    lemma_direction_sum(it.2, q as int);
    let it2 = (ax, spec_direction(it.1 as int + p as int), spec_direction(it.2 as int + q as int));
    lemma_corners_item(x, it);
    lemma_corners_item(x, it2);
    if m.spec_face() == spec_axis_primary(ax) {
        lemma_corners_add_primary(x, ax, it.1 as int, it.2 as int, p as int);
    } else {
        lemma_corners_add_secondary(x, ax, it.1 as int, it.2 as int, q as int);
    }
}

/// Gathering moves keeps the lanes they turn `x` into.
#[verifier::spinoff_prover]
#[verifier::rlimit(60)]
proof fn lemma_corners_canonicalize(x: Seq<u8>, s: Seq<Move>)
    requires
        corners_model::wf(x),
    ensures
        corners_model::spec_apply_moves(x, spec_canonicalize(s)) == corners_model::spec_apply_moves(x, s),
    decreases s.len(),
{
    if s.len() > 0 {
        let s0 = s.drop_last();
        let m = s.last();
        lemma_corners_canonicalize(x, s0);
        let st = spec_canon_stack(s0);
        let ax = spec_face_axis(m.spec_face());
        let (p, q) = spec_split(m);
        assert(spec_canon_stack(s) == spec_stack_step(st, m));
        if st.len() > 0 && st.last().0 == ax {
            let rest = st.drop_last();
            let top = st.last();
            let it2 = (ax, spec_direction(top.1 as int + p as int), spec_direction(top.2 as int + q as int));
            let fr = spec_flatten(rest);
            assert(spec_flatten(st) == fr + spec_item_moves(top));
            assert(spec_flatten(spec_stack_step(st, m)) =~= fr + spec_item_moves(it2)) by {
                if it2.1 == Direction::Zero && it2.2 == Direction::Zero {
                    assert(spec_item_moves(it2) =~= Seq::<Move>::empty());
                    assert(fr + spec_item_moves(it2) =~= fr);
                } else {
                    assert(spec_stack_step(st, m).drop_last() =~= rest);
                }
            }
            let xr = corners_model::spec_apply_moves(x, fr);
            corners_model::lemma_apply_moves_wf(x, fr);
            lemma_corners_append(x, fr, spec_item_moves(it2));
            lemma_corners_append(x, fr, spec_item_moves(top));
            lemma_corners_merge(xr, top, m);
        } else {
            lemma_split_move(m);
            let it = (ax, p, q);
            assert(spec_stack_step(st, m).drop_last() =~= st);
            assert(spec_item_moves(it) =~= seq![m]);
            lemma_corners_append(x, spec_flatten(st), seq![m]);
            lemma_corners_one(corners_model::spec_apply_moves(x, spec_flatten(st)), m);
        }
    }
}

/// Gathering an algorithm never changes what it does: from any valid corners, and any
/// edges, the gathered moves and the moves as given lead to the same lanes.
pub proof fn lemma_canonicalize_keeps_cube(edges: Seq<u8>, corners: Seq<u8>, s: Seq<Move>)
    requires
        edges.len() == 16,
        corners_model::wf(corners),
    ensures
        edges_model::spec_apply_moves(edges, spec_canonicalize(s)) == edges_model::spec_apply_moves(edges, s),
        corners_model::spec_apply_moves(corners, spec_canonicalize(s)) == corners_model::spec_apply_moves(corners, s),
{
    lemma_edges_canonicalize(edges, s);
    lemma_corners_canonicalize(corners, s);
}

impl Alg {
    /// Gather consecutive moves of one axis, turning the axis' primary face before its
    /// secondary face and dropping turns that add up to nothing.
    pub fn canonicalize(&self) -> (r: Alg)
        ensures
            r.0@ == spec_canonicalize(self.0@),
            spec_is_canonical(r.0@),
            r.0@.len() <= self.0@.len(),
    {
        proof {
            lemma_canonicalize_no_longer(self.0@);
        }
        let mut stack: Vec<(Axis, Direction, Direction)> = Vec::new();
        let n = self.0.len();
        let mut i: usize = 0;
        while i < n
            invariant
                n == self.0@.len(),
                i <= n,
                stack@ == spec_canon_stack(self.0@.take(i as int)),
            decreases n - i,
        {
            let m = self.0[i];
            let (p, s) = if m.face() == m.axis().primary() {
                (m.direction(), Direction::Zero)
            } else {
                (Direction::Zero, m.direction())
            };
            proof {
                assert(self.0@.take(i as int + 1).drop_last() =~= self.0@.take(i as int));
                assert(self.0@.take(i as int + 1).last() == m);
            }
            let ghost before = stack@;
            let len = stack.len();
            if len > 0 && stack[len - 1].0 == m.axis() {
                let top = stack.pop().unwrap();
                let p1 = top.1 + p;
                let s1 = top.2 + s;
                if !(p1 == Direction::Zero && s1 == Direction::Zero) {
                    stack.push((top.0, p1, s1));
                }
            } else {
                stack.push((m.axis(), p, s));
            }
            proof {
                assert(stack@ =~= spec_stack_step(before, m));
            }
            i += 1;
        }
        proof {
            assert(self.0@.take(n as int) =~= self.0@);
        }
        let ghost st = stack@;
        let mut out: Vec<Move> = Vec::new();
        let mut j: usize = 0;
        while j < stack.len()
            invariant
                j <= stack@.len(),
                st == stack@,
                out@ == spec_flatten(st.take(j as int)),
            decreases stack@.len() - j,
        {
            let it = stack[j];
            proof {
                assert(st.take(j as int + 1).drop_last() =~= st.take(j as int));
                assert(st.take(j as int + 1).last() == st[j as int]);
            }
            if let Some(m) = it.0.primary().turn(it.1) {
                out.push(m);
            }
            if let Some(m) = it.0.secondary().turn(it.2) {
                out.push(m);
            }
            proof {
                assert(out@ =~= spec_flatten(st.take(j as int + 1)));
            }
            j += 1;
        }
        proof {
            assert(st.take(stack@.len() as int) =~= st);
            lemma_canonicalize_is_canonical(self.0@);
        }
        Alg(out)
    }
}


/// The characters that `char::is_whitespace` accepts: those with the Unicode
/// `White_Space` property.
pub open spec fn spec_is_whitespace(c: char) -> bool {
    ||| c == ' ' || c == '\t' || c == '\n' || c == '\r' || c == '\x0B' || c == '\x0C'
    ||| c == '\u{85}' || c == '\u{A0}' || c == '\u{1680}'
    ||| ('\u{2000}' <= c && c <= '\u{200A}')
    ||| c == '\u{2028}' || c == '\u{2029}' || c == '\u{202F}' || c == '\u{205F}' || c == '\u{3000}'
}

/// The first index at or after `i` that does not hold whitespace.
pub open spec fn spec_skip_ws(s: Seq<char>, i: int) -> int
    decreases s.len() - i,
{
    if i >= s.len() || i < 0 {
        i
    } else if spec_is_whitespace(s[i]) {
        spec_skip_ws(s, i + 1)
    } else {
        i
    }
}

/// Prepend a move to a successful parse.
pub open spec fn spec_prepend(m: Move, r: Result<Seq<Move>, Seq<char>>) -> Result<Seq<Move>, Seq<char>> {
    match r {
        Ok(ms) => Ok(seq![m] + ms),
        Err(e) => Err(e),
    }
}

/// Parse the moves of `s` from index `i`: skip whitespace, then read a move of two
/// characters if there is one, else a move of one character, else fail with the
/// message that names that character.
pub open spec fn spec_parse_alg_from(s: Seq<char>, i: int) -> Result<Seq<Move>, Seq<char>>
    decreases s.len() - i,
{
    let j = spec_skip_ws(s, i);
    proof {
        lemma_skip_ws_ge(s, i);
    }
    if i < 0 || j >= s.len() {
        Ok(Seq::empty())
    } else if j + 2 <= s.len() && spec_parse_move(s.subrange(j, j + 2)) is Some {
        spec_prepend(spec_parse_move(s.subrange(j, j + 2)).unwrap(), spec_parse_alg_from(s, j + 2))
    } else {
        match spec_parse_move(s.subrange(j, j + 1)) {
            Some(m) => spec_prepend(m, spec_parse_alg_from(s, j + 1)),
            None => Err("Invalid move: "@ + s.subrange(j, j + 1)),
        }
    }
}

pub proof fn lemma_skip_ws_ge(s: Seq<char>, i: int)
    ensures
        spec_skip_ws(s, i) >= i,
    decreases s.len() - i,
{
    if 0 <= i < s.len() && spec_is_whitespace(s[i]) {
        lemma_skip_ws_ge(s, i + 1);
    }
}

proof fn lemma_skip_ws(s: Seq<char>, i: int)
    requires
        0 <= i <= s.len(),
    ensures
        i <= spec_skip_ws(s, i) <= s.len(),
        forall|k: int| i <= k < spec_skip_ws(s, i) ==> spec_is_whitespace(#[trigger] s[k]),
        spec_skip_ws(s, i) < s.len() ==> !spec_is_whitespace(s[spec_skip_ws(s, i)]),
    decreases s.len() - i,
{
    if i < s.len() && spec_is_whitespace(s[i]) {
        lemma_skip_ws(s, i + 1);
    }
}

/// The whole parse of `s` is the moves read so far followed by the parse of the rest.
pub open spec fn spec_prepend_all(ms: Seq<Move>, r: Result<Seq<Move>, Seq<char>>) -> Result<Seq<Move>, Seq<char>> {
    match r {
        Ok(rest) => Ok(ms + rest),
        Err(e) => Err(e),
    }
}

impl Alg {
    /// Parse a sequence of moves in standard notation, with or without whitespace
    /// between them.
    pub fn parse(s: &str) -> (r: Result<Alg, String>)
        ensures
            r matches Ok(a) ==> spec_parse_alg_from(s@, 0) == Ok::<Seq<Move>, Seq<char>>(a.0@),
            r matches Err(e) ==> spec_parse_alg_from(s@, 0) == Err::<Seq<Move>, Seq<char>>(e@),
    {
        let n = s.unicode_len();
        let mut moves: Vec<Move> = Vec::new();
        let mut i: usize = 0;
        while i < n
            invariant
                n == s@.len(),
                i <= n,
                spec_parse_alg_from(s@, 0) == spec_prepend_all(moves@, spec_parse_alg_from(s@, i as int)),
            decreases n - i + 1,
        {
            let ghost i0 = i as int;
            proof {
                lemma_skip_ws(s@, i as int);
            }
            // skip whitespace
            while i < n && Self::is_ws(s.get_char(i))
                invariant
                    n == s@.len(),
                    i0 <= i <= n,
                    spec_skip_ws(s@, i0) >= i,
                    spec_skip_ws(s@, i as int) == spec_skip_ws(s@, i0),
                decreases n - i,
            {
                proof {
                    assert(spec_is_whitespace(s@[i as int]));
                    lemma_skip_ws_ge(s@, i as int + 1);
                }
                i += 1;
            }
            proof {
                if i < n {
                    assert(!spec_is_whitespace(s@[i as int]));
                }
                assert(spec_skip_ws(s@, i as int) == i);
            }
            let mut found = false;
            if i >= n {
                proof {
                    assert(spec_parse_alg_from(s@, i0) == Ok::<Seq<Move>, Seq<char>>(Seq::empty()));
                    assert(spec_parse_alg_from(s@, i as int) == Ok::<Seq<Move>, Seq<char>>(Seq::empty()));
                }
                found = true;
            } else if i < n - 1 {
                let hd = s.substring_char(i, i + 2);
                if let Some(m) = Move::parse(hd) {
                    proof {
                        assert(spec_parse_alg_from(s@, i0) == spec_prepend(m, spec_parse_alg_from(s@, i as int + 2)));
                        assert(moves@.push(m) =~= moves@ + seq![m]);
                        assert forall|rest: Seq<Move>| #[trigger] (moves@ + (seq![m] + rest)) =~= moves@.push(m) + rest by {}
                    }
                    moves.push(m);
                    i += 2;
                    found = true;
                }
            }
            if !found {
                let hd = s.substring_char(i, i + 1);
                match Move::parse(hd) {
                    Some(m) => {
                        proof {
                            assert(spec_parse_alg_from(s@, i0) == spec_prepend(m, spec_parse_alg_from(s@, i as int + 1)));
                            assert forall|rest: Seq<Move>| #[trigger] (moves@ + (seq![m] + rest)) =~= moves@.push(m) + rest by {}
                        }
                        moves.push(m);
                        i += 1;
                    },
                    None => {
                        let mut e = String::from_str("Invalid move: ");
                        e.append(hd);
                        return Err(e);
                    },
                }
            }
        }
        proof {
            assert(spec_parse_alg_from(s@, i as int) == Ok::<Seq<Move>, Seq<char>>(Seq::empty()));
            assert(moves@ + Seq::<Move>::empty() =~= moves@);
        }
        Ok(Alg(moves))
    }

    fn is_ws(c: char) -> (r: bool)
        ensures
            r == spec_is_whitespace(c),
    {
        c == ' ' || c == '\t' || c == '\n' || c == '\r' || c == '\x0B' || c == '\x0C'
            || c == '\u{85}' || c == '\u{A0}' || c == '\u{1680}'
            || ('\u{2000}' <= c && c <= '\u{200A}')
            || c == '\u{2028}' || c == '\u{2029}' || c == '\u{202F}' || c == '\u{205F}' || c == '\u{3000}'
    }
}

impl core::convert::TryFrom<&str> for Alg {
    type Error = String;

    /// Parse an algorithm: moves in standard notation, with or without whitespace between
    /// them.
    fn try_from(s: &str) -> (r: Result<Alg, String>)
        ensures
            r matches Ok(a) ==> spec_parse_alg_from(s@, 0) == Ok::<Seq<Move>, Seq<char>>(a.0@),
            r matches Err(e) ==> spec_parse_alg_from(s@, 0) == Err::<Seq<Move>, Seq<char>>(e@),
    {
        Alg::parse(s)
    }
}

impl vstd::std_specs::convert::TryFromSpecImpl<&str> for Alg {
    open spec fn obeys_try_from_spec() -> bool {
        false
    }

    open spec fn try_from_spec(s: &str) -> Result<Alg, String> {
        arbitrary()
    }
}


/// The notation of a sequence of moves: their names separated by single spaces.
pub open spec fn spec_alg_string(ms: Seq<Move>) -> Seq<char>
    decreases ms.len(),
{
    if ms.len() == 0 {
        Seq::empty()
    } else if ms.len() == 1 {
        spec_move_name(ms[0])
    } else {
        spec_alg_string(ms.drop_last()) + " "@ + spec_move_name(ms.last())
    }
}

/// The notation of a sequence of moves built from the front: the first name, then a space
/// and the notation of the rest.
spec fn spec_alg_tail(ms: Seq<Move>) -> Seq<char>
    decreases ms.len(),
{
    if ms.len() == 0 {
        Seq::empty()
    } else if ms.len() == 1 {
        spec_move_name(ms[0])
    } else {
        spec_move_name(ms[0]) + seq![' '] + spec_alg_tail(ms.drop_first())
    }
}

/// Built from the front, the notation ends with a space and the name of the last move.
proof fn lemma_alg_tail_snoc(ms: Seq<Move>)
    requires
        ms.len() >= 2,
    ensures
        spec_alg_tail(ms) == spec_alg_tail(ms.drop_last()) + seq![' '] + spec_move_name(ms.last()),
    decreases ms.len(),
{
    let df = ms.drop_first();
    if ms.len() == 2 {
        assert(df.len() == 1 && df[0] == ms.last());
        assert(ms.drop_last().len() == 1 && ms.drop_last()[0] == ms[0]);
        assert(spec_alg_tail(ms) =~= spec_alg_tail(ms.drop_last()) + seq![' '] + spec_move_name(ms.last()));
    } else {
        lemma_alg_tail_snoc(df);
        assert(df.drop_last() =~= ms.drop_last().drop_first());
        assert(df.last() == ms.last());
        assert(ms.drop_last()[0] == ms[0]);
        let dl = ms.drop_last();
        assert(spec_alg_tail(ms) == spec_move_name(ms[0]) + seq![' '] + spec_alg_tail(df));
        assert(spec_alg_tail(dl) == spec_move_name(dl[0]) + seq![' '] + spec_alg_tail(dl.drop_first()));
        assert(spec_alg_tail(df) == spec_alg_tail(df.drop_last()) + seq![' '] + spec_move_name(df.last()));
        assert(spec_alg_tail(ms) =~= spec_alg_tail(ms.drop_last()) + seq![' '] + spec_move_name(ms.last()));
    }
}

/// The notation is the same built from either end.
proof fn lemma_alg_string_tail(ms: Seq<Move>)
    ensures
        spec_alg_string(ms) == spec_alg_tail(ms),
    decreases ms.len(),
{
    reveal_strlit(" ");
    if ms.len() >= 2 {
        lemma_alg_string_tail(ms.drop_last());
        lemma_alg_tail_snoc(ms);
        assert(" "@ =~= seq![' ']);
    }
}

/// Parsing from two indices that skip to the same place gives the same.
proof fn lemma_parse_same_skip(s: Seq<char>, a: int, b: int)
    requires
        0 <= a,
        0 <= b,
        spec_skip_ws(s, a) == spec_skip_ws(s, b),
    ensures
        spec_parse_alg_from(s, a) == spec_parse_alg_from(s, b),
{
}

/// The name of a move starts with its face letter and has one more character at most, a
/// `2` or a `'`.
proof fn lemma_move_name_shape(m: Move)
    ensures
        1 <= spec_move_name(m).len() <= 2,
        !spec_is_whitespace(spec_move_name(m)[0]),
        spec_move_name(m).len() == 2 ==> (spec_move_name(m)[1] == '2' || spec_move_name(m)[1] == '\''),
        spec_move_name(m).len() == 1 ==> spec_parse_move(spec_move_name(m)) == Some(m),
        spec_move_name(m).len() == 2 ==> spec_parse_move(spec_move_name(m)) == Some(m),
{
    lemma_parse_move_name(m);
}

/// Parsing a text whose rest from `i` is the notation of `ms` gives `ms`.
proof fn lemma_parse_tail(s: Seq<char>, i: int, ms: Seq<Move>)
    requires
        0 <= i <= s.len(),
        s.subrange(i, s.len() as int) == spec_alg_tail(ms),
    ensures
        spec_parse_alg_from(s, i) == Ok::<Seq<Move>, Seq<char>>(ms),
    decreases ms.len(),
{
    if ms.len() == 0 {
        assert(s.subrange(i, s.len() as int).len() == 0);
        assert(ms =~= Seq::<Move>::empty());
    } else {
        let m = ms[0];
        let name = spec_move_name(m);
        let k = name.len() as int;
        lemma_move_name_shape(m);
        let rest = ms.drop_first();
        let tail = s.subrange(i, s.len() as int);
        if ms.len() == 1 {
            assert(tail == name);
        } else {
            assert(tail == name + seq![' '] + spec_alg_tail(rest));
        }
        assert(s.subrange(i, i + k) =~= name) by {
            assert forall|t: int| 0 <= t < k implies s.subrange(i, i + k)[t] == name[t] by {
                assert(tail[t] == s[i + t]);
            }
        }
        assert(s[i] == name[0]) by {
            assert(tail[0] == s[i]);
        }
        assert(spec_skip_ws(s, i) == i);
        let e = i + k;
        if ms.len() == 1 {
            assert(e == s.len());
            assert(spec_parse_alg_from(s, e) == Ok::<Seq<Move>, Seq<char>>(Seq::empty()));
        } else {
            assert(s[e] == ' ') by {
                assert(tail[k] == s[e]);
            }
            assert(s.subrange(e + 1, s.len() as int) =~= spec_alg_tail(rest)) by {
                assert forall|t: int| 0 <= t < s.len() - (e + 1) implies
                    s.subrange(e + 1, s.len() as int)[t] == spec_alg_tail(rest)[t] by {
                    assert(tail[k + 1 + t] == s[e + 1 + t]);
                }
            }
            lemma_parse_tail(s, e + 1, rest);
            assert(spec_skip_ws(s, e) == spec_skip_ws(s, e + 1));
            lemma_parse_same_skip(s, e, e + 1);
        }
        if k == 1 && i + 2 <= s.len() {
            assert(ms.len() > 1);
            assert(s.subrange(i, i + 2)[1] == ' ');
            assert(spec_parse_move(s.subrange(i, i + 2)) is None);
        }
        assert(seq![m] + rest =~= ms);
    }
}

/// Reading the notation of a sequence of moves gives the moves back.
pub proof fn lemma_alg_text_roundtrip(ms: Seq<Move>)
    ensures
        spec_parse_alg_from(spec_alg_string(ms), 0) == Ok::<Seq<Move>, Seq<char>>(ms),
{
    let s = spec_alg_string(ms);
    lemma_alg_string_tail(ms);
    assert(s.subrange(0, s.len() as int) =~= s);
    lemma_parse_tail(s, 0, ms);
}

impl Alg {
    /// The notation of the algorithm: its moves separated by single spaces.
    pub fn to_string(&self) -> (r: String)
        ensures
            r@ == spec_alg_string(self.0@),
    {
        let mut out = String::new();
        let n = self.0.len();
        let mut i: usize = 0;
        proof {
            reveal_strlit(" ");
        }
        while i < n
            invariant
                n == self.0@.len(),
                i <= n,
                out@ == spec_alg_string(self.0@.take(i as int)),
            decreases n - i,
        {
            proof {
                assert(self.0@.take(i as int + 1).drop_last() =~= self.0@.take(i as int));
            }
            if i > 0 {
                out.append(" ");
            }
            out.append(self.0[i].to_str());
            proof {
                if i == 0 {
                    assert(self.0@.take(1) =~= seq![self.0@[0]]);
                    assert(out@ =~= spec_alg_string(self.0@.take(1)));
                } else {
                    assert(out@ =~= spec_alg_string(self.0@.take(i as int + 1)));
                }
            }
            i += 1;
        }
        proof {
            assert(self.0@.take(n as int) =~= self.0@);
        }
        out
    }
}

impl core::convert::From<Vec<Move>> for Alg {
    fn from(alg: Vec<Move>) -> (r: Alg)
        ensures
            r.0@ == alg@,
    {
        Alg(alg)
    }
}

impl vstd::std_specs::convert::FromSpecImpl<Vec<Move>> for Alg {
    open spec fn obeys_from_spec() -> bool {
        false
    }

    open spec fn from_spec(alg: Vec<Move>) -> Alg {
        arbitrary()
    }
}

} // verus!
