use vstd::prelude::*;
use std::collections::VecDeque;
use crate::cube::coord::coord::{Coord, CoordSyms, class_entry, spec_canonical_lanes};
use crate::cube::cube::{Cube, spec_edges_ident, spec_corners_ident};
use crate::cube::corners::corners as corners_model;
use crate::cube::edges::edges as edges_model;
use crate::cube::edges::ops as edge_ops;
use crate::cube::sym::{Sym, lemma_sym_number, spec_sym_from};
use crate::cube::set::bit_numbers;
use crate::cube::solver::searcher::lemma_move_number;
use crate::cube::transform::mov::Move;

verus! {

/// The number of entries of `s` that are not set yet.
pub open spec fn n_unset(s: Seq<Option<u8>>) -> nat
    decreases s.len(),
{
    if s.len() == 0 {
        0
    } else {
        n_unset(s.drop_last()) + if s.last() is None { 1nat } else { 0nat }
    }
}

/// Setting an entry that was not set leaves one fewer unset.
proof fn lemma_n_unset_update(s: Seq<Option<u8>>, i: int, v: u8)
    requires
        0 <= i < s.len(),
        s[i] is None,
    ensures
        n_unset(s) >= 1,
        n_unset(s.update(i, Some(v))) == n_unset(s) - 1,
    decreases s.len(),
{
    let t = s.update(i, Some(v));
    if i == s.len() - 1 {
        assert(t.drop_last() =~= s.drop_last());
    } else {
        lemma_n_unset_update(s.drop_last(), i, v);
        assert(t.drop_last() =~= s.drop_last().update(i, Some(v)));
    }
}

/// Some entry of `s` is set to `v`.
pub open spec fn has_value(s: Seq<Option<u8>>, v: u8) -> bool {
    exists|e: int| 0 <= e < s.len() && s[e] == Some(v)
}

/// Every entry set to a positive distance has an entry set to one less.
pub open spec fn layered(s: Seq<Option<u8>>) -> bool {
    forall|e: int| 0 <= e < s.len() && #[trigger] s[e] is Some && s[e]->0 >= 1 ==> has_value(s, (s[e]->0 - 1) as u8)
}

/// Every distance waiting in the queue is set in some entry.
pub open spec fn queued_values_set(s: Seq<Option<u8>>, q: Seq<(Cube, u8)>) -> bool {
    forall|k: int| 0 <= k < q.len() ==> has_value(s, #[trigger] q[k].1)
}

/// Setting an unset entry to `v` keeps every value that was set, and keeps the entries
/// layered when one less than `v` was set.
proof fn lemma_set_entry(s: Seq<Option<u8>>, c: int, v: u8, q: Seq<(Cube, u8)>)
    requires
        0 <= c < s.len(),
        s[c] is None,
        layered(s),
        queued_values_set(s, q),
        v >= 1 ==> has_value(s, (v - 1) as u8),
    ensures
        forall|w: u8| has_value(s, w) ==> #[trigger] has_value(s.update(c, Some(v)), w),
        has_value(s.update(c, Some(v)), v),
        layered(s.update(c, Some(v))),
        queued_values_set(s.update(c, Some(v)), q),
{
    let t = s.update(c, Some(v));
    assert forall|w: u8| has_value(s, w) implies #[trigger] has_value(t, w) by {
        let e = choose|e: int| 0 <= e < s.len() && s[e] == Some(w);
        assert(t[e] == Some(w));
    }
    assert(t[c] == Some(v));
    assert forall|e: int| 0 <= e < t.len() && #[trigger] t[e] is Some && t[e]->0 >= 1 implies has_value(t, (t[e]->0 - 1) as u8) by {
        if e != c {
            assert(s[e] == t[e]);
            assert(has_value(s, (s[e]->0 - 1) as u8));
        }
    }
    assert forall|k: int| 0 <= k < q.len() implies has_value(t, #[trigger] q[k].1) by {
        assert(has_value(s, q[k].1));
    }
}

/// The entry for value `c` of the second coordinate in the block of class `k`.
pub open spec fn table_index(k: int, nc: int, c: int) -> int {
    k * nc + c
}

/// The value of coordinate `C` of the cube that `unindex` gives for `z`, brought over by
/// symmetry `s` as `canonicalize` brings a cube over; 0 should that fall out of range.
pub open spec fn spec_conj_value<C: Coord>(z: int, s: Sym) -> int {
    let l = C::spec_unindex(z);
    let m = spec_canonical_lanes(l.0, l.1, s);
    let v = C::spec_index(m.0, m.1);
    if 0 <= v < C::spec_n_values() { v } else { 0 }
}

/// The edge and corner lanes of a cube.
pub open spec fn cube_lanes(c: Cube) -> (Seq<u8>, Seq<u8>) {
    (c.edges.0@, c.corners.0@)
}

/// The lanes of the solved cube.
pub open spec fn solved_lanes() -> (Seq<u8>, Seq<u8>) {
    (spec_edges_ident(), spec_corners_ident())
}

/// The lanes `l` after move `m`.
pub open spec fn lanes_after(l: (Seq<u8>, Seq<u8>), m: Move) -> (Seq<u8>, Seq<u8>) {
    (edge_ops::spec_compose(l.0, edges_model::spec_move(m)),
        corners_model::spec_compose(l.1, corners_model::spec_move(m)))
}

/// The lanes that a step of the search reaches from `l` by move `m`, brought to the
/// representative of the class of the first coordinate.
pub open spec fn step_canonical<R: Coord>(rs: CoordSyms<R>, l: (Seq<u8>, Seq<u8>), m: Move) -> (Seq<u8>, Seq<u8>) {
    let b0 = lanes_after(l, m);
    spec_canonical_lanes(b0.0, b0.1, rs.canonicalizer_of(R::spec_index(b0.0, b0.1)))
}

/// The state that a step of the search reaches from `l` by move `m` and self-symmetry `s`
/// of the representative.
pub open spec fn step_state<R: Coord>(rs: CoordSyms<R>, l: (Seq<u8>, Seq<u8>), m: Move, s: Sym) -> (Seq<u8>, Seq<u8>) {
    let b = step_canonical(rs, l, m);
    spec_canonical_lanes(b.0, b.1, s)
}

/// Whether the search takes the step from `l` by move `m` and symmetry `s`: both
/// coordinates in range, and `s` a self-symmetry of the representative reached.
pub open spec fn step_ok<R: Coord, C: Coord>(rs: CoordSyms<R>, l: (Seq<u8>, Seq<u8>), m: Move, s: Sym) -> bool {
    let b0 = lanes_after(l, m);
    let b = step_canonical(rs, l, m);
    let b2 = step_state(rs, l, m, s);
    &&& R::spec_index(b0.0, b0.1) < R::spec_n_values()
    &&& R::spec_index(b.0, b.1) < R::spec_n_values()
    &&& rs.self_syms_of(rs.class_of(R::spec_index(b.0, b.1))).contains((s as u8) as int)
    &&& C::spec_index(b2.0, b2.1) < C::spec_n_values()
}

/// The entry of the table for the step from `l` by move `m` and symmetry `s`: the class
/// of the representative reached and the second coordinate of the state reached.
pub open spec fn step_entry<R: Coord, C: Coord>(rs: CoordSyms<R>, l: (Seq<u8>, Seq<u8>), m: Move, s: Sym) -> int {
    let b = step_canonical(rs, l, m);
    let b2 = step_state(rs, l, m, s);
    table_index(rs.class_of(R::spec_index(b.0, b.1)), C::spec_n_values(), C::spec_index(b2.0, b2.1))
}

/// One more than `d`, kept at 255.
pub open spec fn next_depth(d: u8) -> u8 {
    if d < 255 { (d + 1) as u8 } else { 255 }
}

/// Entry `e` holds at most one more than `d`, and 0 only at the solved entry.
pub open spec fn entry_within(t: Seq<u8>, e: int, d: u8) -> bool {
    0 <= e < t.len() && t[e] <= d + 1 && (t[e] == 0 ==> e == 0)
}

/// Every step the search takes from `l`, met at depth `d`, leads to an entry within one
/// more than `d`.
pub open spec fn closed_at<R: Coord, C: Coord>(rs: CoordSyms<R>, t: Seq<u8>, l: (Seq<u8>, Seq<u8>), d: u8) -> bool {
    forall|m: Move, s: Sym| #[trigger] step_ok::<R, C>(rs, l, m, s) ==> entry_within(t, step_entry::<R, C>(rs, l, m, s), d)
}

/// State `x` is one step from a state visited at one less depth, and the entry of that
/// step holds the depth of `x`.
pub open spec fn stepped_to<R: Coord, C: Coord>(rs: CoordSyms<R>, t: Seq<u8>, visited: Set<((Seq<u8>, Seq<u8>), u8)>,
    x: ((Seq<u8>, Seq<u8>), u8)) -> bool {
    exists|a: (Seq<u8>, Seq<u8>), d: u8, m: Move, s: Sym|
        #![trigger visited.contains((a, d)), step_ok::<R, C>(rs, a, m, s)]
        visited.contains((a, d)) && step_ok::<R, C>(rs, a, m, s) && step_state(rs, a, m, s) == x.0
            && x.1 == next_depth(d) && 0 <= step_entry::<R, C>(rs, a, m, s) < t.len()
            && t[step_entry::<R, C>(rs, a, m, s)] == x.1
}

/// Entry `e` is the entry of a step from a state visited at one less depth than it holds.
pub open spec fn entry_stepped<R: Coord, C: Coord>(rs: CoordSyms<R>, t: Seq<u8>, visited: Set<((Seq<u8>, Seq<u8>), u8)>,
    e: int) -> bool {
    exists|a: (Seq<u8>, Seq<u8>), d: u8, m: Move, s: Sym|
        #![trigger visited.contains((a, d)), step_ok::<R, C>(rs, a, m, s)]
        visited.contains((a, d)) && step_ok::<R, C>(rs, a, m, s) && step_entry::<R, C>(rs, a, m, s) == e
            && t[e] == next_depth(d)
}

/// The table the search leaves: each distance found, and 0 where none was.
pub open spec fn table_of(dist: Seq<Option<u8>>) -> Seq<u8> {
    Seq::new(dist.len(), |k: int| match dist[k] {
        Some(v) => v,
        None => 0u8,
    })
}

/// What the search keeps of the states it has visited and finished.
spec fn search_inv<R: Coord, C: Coord>(rs: CoordSyms<R>, t: Seq<u8>, visited: Set<((Seq<u8>, Seq<u8>), u8)>,
    done: Set<((Seq<u8>, Seq<u8>), u8)>) -> bool {
    &&& forall|x: ((Seq<u8>, Seq<u8>), u8)| #[trigger] done.contains(x) ==> visited.contains(x) && closed_at::<R, C>(rs, t, x.0, x.1)
    &&& forall|x: ((Seq<u8>, Seq<u8>), u8)| #[trigger] visited.contains(x) && x.1 >= 1 ==> stepped_to::<R, C>(rs, t, visited, x)
    &&& forall|x: ((Seq<u8>, Seq<u8>), u8)| #[trigger] visited.contains(x) && x.1 == 0 ==> x.0 == solved_lanes()
    &&& forall|e: int| 0 <= e < t.len() && #[trigger] t[e] >= 1 ==> entry_stepped::<R, C>(rs, t, visited, e)
}

/// The steps from `a` by moves numbered below `i`, and by the move numbered `i` with
/// symmetries numbered below `x`, lead to entries within one more than `d`.
spec fn closed_upto<R: Coord, C: Coord>(rs: CoordSyms<R>, t: Seq<u8>, a: (Seq<u8>, Seq<u8>), d: u8, i: int, x: int) -> bool {
    forall|m: Move, s: Sym| #[trigger] step_ok::<R, C>(rs, a, m, s)
        && ((m as u8) < i || ((m as u8) == i && (s as u8) < x)) ==> entry_within(t, step_entry::<R, C>(rs, a, m, s), d)
}

/// Recording a distance at an entry not set before keeps every state finished closed.
proof fn lemma_record_done<R: Coord, C: Coord>(rs: CoordSyms<R>, t: Seq<u8>, visited: Set<((Seq<u8>, Seq<u8>), u8)>,
    done: Set<((Seq<u8>, Seq<u8>), u8)>, c: int, v: u8, y: ((Seq<u8>, Seq<u8>), u8))
    requires
        forall|x: ((Seq<u8>, Seq<u8>), u8)| #[trigger] done.contains(x) ==> visited.contains(x) && closed_at::<R, C>(rs, t, x.0, x.1),
        0 < c < t.len(),
        t[c] == 0,
    ensures
        forall|x: ((Seq<u8>, Seq<u8>), u8)| #[trigger] done.contains(x) ==> visited.insert(y).contains(x)
            && closed_at::<R, C>(rs, t.update(c, v), x.0, x.1),
{
    let t2 = t.update(c, v);
    assert forall|z: ((Seq<u8>, Seq<u8>), u8)| #[trigger] done.contains(z) implies visited.insert(y).contains(z)
        && closed_at::<R, C>(rs, t2, z.0, z.1) by {
        assert(closed_at::<R, C>(rs, t, z.0, z.1));
        assert forall|m2: Move, s2: Sym| #[trigger] step_ok::<R, C>(rs, z.0, m2, s2) implies
            entry_within(t2, step_entry::<R, C>(rs, z.0, m2, s2), z.1) by {
            assert(entry_within(t, step_entry::<R, C>(rs, z.0, m2, s2), z.1));
        }
    }
}

/// Recording a distance at an entry not set before keeps the steps to the states visited.
proof fn lemma_record_stepped<R: Coord, C: Coord>(rs: CoordSyms<R>, t: Seq<u8>, visited: Set<((Seq<u8>, Seq<u8>), u8)>,
    a: (Seq<u8>, Seq<u8>), d: u8, m: Move, s: Sym)
    requires
        forall|x: ((Seq<u8>, Seq<u8>), u8)| #[trigger] visited.contains(x) && x.1 >= 1 ==> stepped_to::<R, C>(rs, t, visited, x),
        visited.contains((a, d)),
        step_ok::<R, C>(rs, a, m, s),
        0 < step_entry::<R, C>(rs, a, m, s) < t.len(),
        t[step_entry::<R, C>(rs, a, m, s)] == 0,
    ensures
        ({
            let c = step_entry::<R, C>(rs, a, m, s);
            let t2 = t.update(c, next_depth(d));
            let v2 = visited.insert((step_state(rs, a, m, s), next_depth(d)));
            forall|x: ((Seq<u8>, Seq<u8>), u8)| #[trigger] v2.contains(x) && x.1 >= 1 ==> stepped_to::<R, C>(rs, t2, v2, x)
        }),
{
    let c = step_entry::<R, C>(rs, a, m, s);
    let v = next_depth(d);
    let t2 = t.update(c, v);
    let y = (step_state(rs, a, m, s), v);
    let v2 = visited.insert(y);
    assert forall|z: ((Seq<u8>, Seq<u8>), u8)| #[trigger] v2.contains(z) && z.1 >= 1 implies stepped_to::<R, C>(rs, t2, v2, z) by {
        if z == y {
            assert(v2.contains((a, d)));
            assert(t2[c] == v);
            assert(step_ok::<R, C>(rs, a, m, s));
        } else {
            assert(visited.contains(z));
            assert(stepped_to::<R, C>(rs, t, visited, z));
            let (a2, d2, m2, s2) = choose|a2: (Seq<u8>, Seq<u8>), d2: u8, m2: Move, s2: Sym|
                #![trigger visited.contains((a2, d2)), step_ok::<R, C>(rs, a2, m2, s2)]
                visited.contains((a2, d2)) && step_ok::<R, C>(rs, a2, m2, s2) && step_state(rs, a2, m2, s2) == z.0
                    && z.1 == next_depth(d2) && 0 <= step_entry::<R, C>(rs, a2, m2, s2) < t.len()
                    && t[step_entry::<R, C>(rs, a2, m2, s2)] == z.1;
            assert(v2.contains((a2, d2)));
            assert(step_entry::<R, C>(rs, a2, m2, s2) != c);
            assert(t2[step_entry::<R, C>(rs, a2, m2, s2)] == z.1);
        }
    }
}

/// Recording a distance at an entry not set before keeps the steps to the entries set,
/// and gives one to the new entry.
proof fn lemma_record_entries<R: Coord, C: Coord>(rs: CoordSyms<R>, t: Seq<u8>, visited: Set<((Seq<u8>, Seq<u8>), u8)>,
    a: (Seq<u8>, Seq<u8>), d: u8, m: Move, s: Sym)
    requires
        forall|e: int| 0 <= e < t.len() && #[trigger] t[e] >= 1 ==> entry_stepped::<R, C>(rs, t, visited, e),
        visited.contains((a, d)),
        step_ok::<R, C>(rs, a, m, s),
        0 < step_entry::<R, C>(rs, a, m, s) < t.len(),
        t[step_entry::<R, C>(rs, a, m, s)] == 0,
    ensures
        ({
            let c = step_entry::<R, C>(rs, a, m, s);
            let t2 = t.update(c, next_depth(d));
            let v2 = visited.insert((step_state(rs, a, m, s), next_depth(d)));
            forall|e: int| 0 <= e < t2.len() && #[trigger] t2[e] >= 1 ==> entry_stepped::<R, C>(rs, t2, v2, e)
        }),
{
    let c = step_entry::<R, C>(rs, a, m, s);
    let v = next_depth(d);
    let t2 = t.update(c, v);
    let y = (step_state(rs, a, m, s), v);
    let v2 = visited.insert(y);
    assert forall|e: int| 0 <= e < t2.len() && #[trigger] t2[e] >= 1 implies entry_stepped::<R, C>(rs, t2, v2, e) by {
        if e == c {
            assert(v2.contains((a, d)));
            assert(step_ok::<R, C>(rs, a, m, s));
        } else {
            assert(t[e] >= 1);
            assert(entry_stepped::<R, C>(rs, t, visited, e));
            let (a2, d2, m2, s2) = choose|a2: (Seq<u8>, Seq<u8>), d2: u8, m2: Move, s2: Sym|
                #![trigger visited.contains((a2, d2)), step_ok::<R, C>(rs, a2, m2, s2)]
                visited.contains((a2, d2)) && step_ok::<R, C>(rs, a2, m2, s2) && step_entry::<R, C>(rs, a2, m2, s2) == e
                    && t[e] == next_depth(d2);
            assert(v2.contains((a2, d2)));
        }
    }
}

/// Recording a distance at an entry not set before keeps what the search knows of the
/// states finished and of the one under way, and adds the state reached.
proof fn lemma_record<R: Coord, C: Coord>(rs: CoordSyms<R>, t: Seq<u8>, visited: Set<((Seq<u8>, Seq<u8>), u8)>,
    done: Set<((Seq<u8>, Seq<u8>), u8)>, a: (Seq<u8>, Seq<u8>), d: u8, m: Move, s: Sym, i: int, x: int)
    requires
        search_inv::<R, C>(rs, t, visited, done),
        closed_upto::<R, C>(rs, t, a, d, i, x),
        visited.contains((a, d)),
        step_ok::<R, C>(rs, a, m, s),
        0 < step_entry::<R, C>(rs, a, m, s) < t.len(),
        t[step_entry::<R, C>(rs, a, m, s)] == 0,
    ensures
        ({
            let c = step_entry::<R, C>(rs, a, m, s);
            let t2 = t.update(c, next_depth(d));
            let v2 = visited.insert((step_state(rs, a, m, s), next_depth(d)));
            &&& search_inv::<R, C>(rs, t2, v2, done)
            &&& closed_upto::<R, C>(rs, t2, a, d, i, x)
        }),
{
    let c = step_entry::<R, C>(rs, a, m, s);
    let v = next_depth(d);
    let t2 = t.update(c, v);
    let y = (step_state(rs, a, m, s), v);
    let v2 = visited.insert(y);
    lemma_record_done::<R, C>(rs, t, visited, done, c, v, y);
    lemma_record_stepped::<R, C>(rs, t, visited, a, d, m, s);
    lemma_record_entries::<R, C>(rs, t, visited, a, d, m, s);
    assert forall|z: ((Seq<u8>, Seq<u8>), u8)| #[trigger] v2.contains(z) && z.1 == 0 implies z.0 == solved_lanes() by {
        if z != y {
            assert(visited.contains(z));
        }
    }
    assert forall|m2: Move, s2: Sym| #[trigger] step_ok::<R, C>(rs, a, m2, s2)
        && ((m2 as u8) < i || ((m2 as u8) == i && (s2 as u8) < x)) implies entry_within(t2, step_entry::<R, C>(rs, a, m2, s2), d) by {
        assert(entry_within(t, step_entry::<R, C>(rs, a, m2, s2), d));
    }
}

/// No bit from `x` on is set once the bits shifted down by `x` are none.
proof fn lemma_no_bits_from(b: u64, x: u64, y: u64)
    by (bit_vector)
    requires
        b >> x == 0,
        x <= y < 64,
    ensures
        (b >> y) & 1 == 0,
{
}

/// The state a queue item stands for: the lanes of its cube and its depth.
pub open spec fn queue_state(e: (Cube, u8)) -> ((Seq<u8>, Seq<u8>), u8) {
    (cube_lanes(e.0), e.1)
}

/// Whether state `y` waits in the queue.
spec fn queued(q: Seq<(Cube, u8)>, y: ((Seq<u8>, Seq<u8>), u8)) -> bool {
    exists|k: int| 0 <= k < q.len() && #[trigger] queue_state(q[k]) == y
}

/// The depths in the queue never fall, and lie between `level` and one more.
spec fn queue_ok(q: Seq<(Cube, u8)>, level: u8) -> bool {
    &&& forall|j: int, k: int| 0 <= j < k < q.len() ==> #[trigger] q[j].1 <= #[trigger] q[k].1
    &&& forall|k: int| 0 <= k < q.len() ==> level <= #[trigger] q[k].1 <= level + 1
}

/// Every distance set is at most one more than `level`.
spec fn values_within(dist: Seq<Option<u8>>, level: u8) -> bool {
    forall|e: int| 0 <= e < dist.len() && #[trigger] dist[e] is Some ==> dist[e]->0 <= level + 1
}

/// Only the solved entry holds 0.
spec fn zero_at_start(dist: Seq<Option<u8>>) -> bool {
    forall|e: int| 0 <= e < dist.len() && #[trigger] dist[e] == Some(0u8) ==> e == 0
}

/// Every state in the queue has been visited.
spec fn queue_visited(q: Seq<(Cube, u8)>, visited: Set<((Seq<u8>, Seq<u8>), u8)>) -> bool {
    forall|k: int| 0 <= k < q.len() ==> visited.contains(#[trigger] queue_state(q[k]))
}

/// Every state visited is finished or waits in the queue.
spec fn visited_covered(visited: Set<((Seq<u8>, Seq<u8>), u8)>, done: Set<((Seq<u8>, Seq<u8>), u8)>, q: Seq<(Cube, u8)>) -> bool {
    forall|y: ((Seq<u8>, Seq<u8>), u8)| #[trigger] visited.contains(y) ==> done.contains(y) || queued(q, y)
}

/// Every state visited is finished, waits in the queue, or is `cur`.
spec fn visited_covered_but(visited: Set<((Seq<u8>, Seq<u8>), u8)>, done: Set<((Seq<u8>, Seq<u8>), u8)>,
    q: Seq<(Cube, u8)>, cur: ((Seq<u8>, Seq<u8>), u8)) -> bool {
    forall|y: ((Seq<u8>, Seq<u8>), u8)| #[trigger] visited.contains(y) ==> done.contains(y) || queued(q, y) || y == cur
}

/// Taking the first state from the queue.
proof fn lemma_pop_queue(q0: Seq<(Cube, u8)>, q: Seq<(Cube, u8)>, level: u8, visited: Set<((Seq<u8>, Seq<u8>), u8)>,
    done: Set<((Seq<u8>, Seq<u8>), u8)>, dist: Seq<Option<u8>>)
    requires
        q0.len() > 0,
        q == q0.subrange(1, q0.len() as int),
        queue_ok(q0, level),
        queue_visited(q0, visited),
        visited_covered(visited, done, q0),
        values_within(dist, level),
    ensures
        level <= q0[0].1 <= level + 1,
        queue_ok(q, q0[0].1),
        queue_visited(q, visited),
        visited.contains(queue_state(q0[0])),
        visited_covered_but(visited, done, q, queue_state(q0[0])),
        values_within(dist, q0[0].1),
{
    let d = q0[0].1;
    assert(level <= q0[0].1 <= level + 1);
    assert forall|j: int, k: int| 0 <= j < k < q.len() implies #[trigger] q[j].1 <= #[trigger] q[k].1 by {
        assert(q[j] == q0[j + 1] && q[k] == q0[k + 1]);
        assert(q0[j + 1].1 <= q0[k + 1].1);
    }
    assert forall|k: int| 0 <= k < q.len() implies d <= #[trigger] q[k].1 <= d + 1 by {
        assert(q[k] == q0[k + 1]);
        assert(q0[0].1 <= q0[k + 1].1);
        assert(level <= q0[k + 1].1 <= level + 1);
    }
    assert forall|k: int| 0 <= k < q.len() implies visited.contains(#[trigger] queue_state(q[k])) by {
        assert(q[k] == q0[k + 1]);
        assert(visited.contains(queue_state(q0[k + 1])));
    }
    assert(visited.contains(queue_state(q0[0])));
    assert forall|y: ((Seq<u8>, Seq<u8>), u8)| #[trigger] visited.contains(y) implies
        done.contains(y) || queued(q, y) || y == queue_state(q0[0]) by {
        if !done.contains(y) && y != queue_state(q0[0]) {
            assert(queued(q0, y));
            let k = choose|k: int| 0 <= k < q0.len() && #[trigger] queue_state(q0[k]) == y;
            assert(k >= 1);
            assert(q[k - 1] == q0[k]);
            assert(queue_state(q[k - 1]) == y);
        }
    }
    assert forall|e: int| 0 <= e < dist.len() && #[trigger] dist[e] is Some implies dist[e]->0 <= d + 1 by {}
}

/// Adding a state one deeper than the level at the back of the queue.
proof fn lemma_push_queue(q1: Seq<(Cube, u8)>, q: Seq<(Cube, u8)>, level: u8, visited: Set<((Seq<u8>, Seq<u8>), u8)>,
    done: Set<((Seq<u8>, Seq<u8>), u8)>, cur: ((Seq<u8>, Seq<u8>), u8), b2: Cube, v: u8)
    requires
        q == q1.push((b2, v)),
        v == next_depth(level),
        queue_ok(q1, level),
        queue_visited(q1, visited),
        visited_covered_but(visited, done, q1, cur),
    ensures
        queue_ok(q, level),
        queue_visited(q, visited.insert((cube_lanes(b2), v))),
        visited_covered_but(visited.insert((cube_lanes(b2), v)), done, q, cur),
{
    let y = (cube_lanes(b2), v);
    let v2 = visited.insert(y);
    assert forall|j: int, k: int| 0 <= j < k < q.len() implies #[trigger] q[j].1 <= #[trigger] q[k].1 by {
        assert(q[j] == q1[j]);
        if k < q1.len() {
            assert(q[k] == q1[k]);
        }
    }
    assert forall|k: int| 0 <= k < q.len() implies level <= #[trigger] q[k].1 <= level + 1 by {
        if k < q1.len() {
            assert(q[k] == q1[k]);
        }
    }
    assert forall|k: int| 0 <= k < q.len() implies v2.contains(#[trigger] queue_state(q[k])) by {
        if k < q1.len() {
            assert(q[k] == q1[k]);
            assert(visited.contains(queue_state(q1[k])));
        } else {
            assert(queue_state(q[k]) == y);
        }
    }
    assert forall|z: ((Seq<u8>, Seq<u8>), u8)| #[trigger] v2.contains(z) implies
        done.contains(z) || queued(q, z) || z == cur by {
        if z == y {
            assert(queue_state(q[q1.len() as int]) == y);
        } else if !done.contains(z) && z != cur {
            assert(visited.contains(z));
            assert(queued(q1, z));
            let k = choose|k: int| 0 <= k < q1.len() && #[trigger] queue_state(q1[k]) == z;
            assert(q[k] == q1[k]);
            assert(queue_state(q[k]) == z);
        }
    }
}

/// Setting an unset entry to a positive distance within the level keeps the distances
/// within it, and 0 at the solved entry only.
proof fn lemma_values_set(dist: Seq<Option<u8>>, c: int, v: u8, level: u8)
    requires
        0 <= c < dist.len(),
        values_within(dist, level),
        zero_at_start(dist),
        1 <= v <= level + 1,
    ensures
        values_within(dist.update(c, Some(v)), level),
        zero_at_start(dist.update(c, Some(v))),
{
    let d2 = dist.update(c, Some(v));
    assert forall|e: int| 0 <= e < d2.len() && #[trigger] d2[e] is Some implies d2[e]->0 <= level + 1 by {
        if e != c {
            assert(dist[e] is Some);
        }
    }
    assert forall|e: int| 0 <= e < d2.len() && #[trigger] d2[e] == Some(0u8) implies e == 0 by {
        if e != c {
            assert(dist[e] == Some(0u8));
        }
    }
}

/// The steps by move `m` and symmetry `s` are done once the step is taken or not to be
/// taken.
proof fn lemma_step_within<R: Coord, C: Coord>(rs: CoordSyms<R>, t: Seq<u8>, a: (Seq<u8>, Seq<u8>), d: u8, m: Move,
    s: Sym, mi: int, xi: int)
    requires
        closed_upto::<R, C>(rs, t, a, d, mi, xi),
        (m as u8) == mi,
        (s as u8) == xi,
        step_ok::<R, C>(rs, a, m, s) ==> entry_within(t, step_entry::<R, C>(rs, a, m, s), d),
    ensures
        closed_upto::<R, C>(rs, t, a, d, mi, xi + 1),
{
    lemma_move_number(m);
    lemma_sym_number(s);
    assert forall|m2: Move, s2: Sym| #[trigger] step_ok::<R, C>(rs, a, m2, s2)
        && ((m2 as u8) < mi || ((m2 as u8) == mi && (s2 as u8) < xi + 1)) implies
        entry_within(t, step_entry::<R, C>(rs, a, m2, s2), d) by {
        if (m2 as u8) == mi && (s2 as u8) == xi {
            lemma_move_number(m2);
            lemma_sym_number(s2);
            assert(m2 == m);
            assert(s2 == s);
        }
    }
}

/// No step by move `m` is taken when a coordinate of the cube after it is out of range.
proof fn lemma_no_step_for_move<R: Coord, C: Coord>(rs: CoordSyms<R>, t: Seq<u8>, a: (Seq<u8>, Seq<u8>), d: u8,
    m: Move, mi: int)
    requires
        closed_upto::<R, C>(rs, t, a, d, mi, 0),
        (m as u8) == mi,
        R::spec_index(lanes_after(a, m).0, lanes_after(a, m).1) >= R::spec_n_values()
            || R::spec_index(step_canonical(rs, a, m).0, step_canonical(rs, a, m).1) >= R::spec_n_values(),
    ensures
        closed_upto::<R, C>(rs, t, a, d, mi + 1, 0),
{
    lemma_move_number(m);
    assert forall|m2: Move, s2: Sym| #[trigger] step_ok::<R, C>(rs, a, m2, s2)
        && ((m2 as u8) < mi + 1 || ((m2 as u8) == mi + 1 && (s2 as u8) < 0)) implies
        entry_within(t, step_entry::<R, C>(rs, a, m2, s2), d) by {
        if (m2 as u8) == mi {
            lemma_move_number(m2);
            assert(m2 == m);
        }
    }
}

/// The steps by move `m` are done once the symmetries left are none of the self-symmetries.
proof fn lemma_move_done<R: Coord, C: Coord>(rs: CoordSyms<R>, t: Seq<u8>, a: (Seq<u8>, Seq<u8>), d: u8,
    m: Move, mi: int, x: int, bits: u64)
    requires
        closed_upto::<R, C>(rs, t, a, d, mi, x),
        (m as u8) == mi,
        0 <= x <= 48,
        x < 48 ==> bits >> (x as u64) == 0,
        bit_numbers(bits) == rs.self_syms_of(rs.class_of(R::spec_index(step_canonical(rs, a, m).0, step_canonical(rs, a, m).1))),
    ensures
        closed_upto::<R, C>(rs, t, a, d, mi + 1, 0),
{
    lemma_move_number(m);
    assert forall|m2: Move, s2: Sym| #[trigger] step_ok::<R, C>(rs, a, m2, s2)
        && ((m2 as u8) < mi + 1 || ((m2 as u8) == mi + 1 && (s2 as u8) < 0)) implies
        entry_within(t, step_entry::<R, C>(rs, a, m2, s2), d) by {
        if (m2 as u8) == mi {
            lemma_move_number(m2);
            lemma_sym_number(s2);
            assert(m2 == m);
            if (s2 as u8) >= x {
                lemma_no_bits_from(bits, x as u64, (s2 as u8) as u64);
                assert(!bit_numbers(bits).contains((s2 as u8) as int));
            }
        }
    }
}

/// A state whose steps by every move are done is finished.
proof fn lemma_finish_state<R: Coord, C: Coord>(rs: CoordSyms<R>, t: Seq<u8>, visited: Set<((Seq<u8>, Seq<u8>), u8)>,
    done: Set<((Seq<u8>, Seq<u8>), u8)>, q: Seq<(Cube, u8)>, cur: ((Seq<u8>, Seq<u8>), u8))
    requires
        search_inv::<R, C>(rs, t, visited, done),
        closed_upto::<R, C>(rs, t, cur.0, cur.1, 18, 0),
        visited.contains(cur),
        visited_covered_but(visited, done, q, cur),
    ensures
        search_inv::<R, C>(rs, t, visited, done.insert(cur)),
        visited_covered(visited, done.insert(cur), q),
{
    assert forall|m: Move, s: Sym| #[trigger] step_ok::<R, C>(rs, cur.0, m, s) implies
        entry_within(t, step_entry::<R, C>(rs, cur.0, m, s), cur.1) by {
        lemma_move_number(m);
    }
    assert(closed_at::<R, C>(rs, t, cur.0, cur.1));
    let d2 = done.insert(cur);
    assert forall|x: ((Seq<u8>, Seq<u8>), u8)| #[trigger] d2.contains(x) implies visited.contains(x)
        && closed_at::<R, C>(rs, t, x.0, x.1) by {
        if x != cur {
            assert(done.contains(x));
        }
    }
    assert forall|y: ((Seq<u8>, Seq<u8>), u8)| #[trigger] visited.contains(y) implies d2.contains(y) || queued(q, y) by {}
}

/// When the queue is empty, every state visited is finished.
proof fn lemma_search_done<R: Coord, C: Coord>(rs: CoordSyms<R>, t: Seq<u8>, visited: Set<((Seq<u8>, Seq<u8>), u8)>,
    done: Set<((Seq<u8>, Seq<u8>), u8)>, q: Seq<(Cube, u8)>)
    requires
        search_inv::<R, C>(rs, t, visited, done),
        visited_covered(visited, done, q),
        q.len() == 0,
    ensures
        forall|x: ((Seq<u8>, Seq<u8>), u8)| #[trigger] visited.contains(x) ==> closed_at::<R, C>(rs, t, x.0, x.1),
        forall|x: ((Seq<u8>, Seq<u8>), u8)| #[trigger] visited.contains(x) && x.1 == 0 ==> x.0 == solved_lanes(),
        forall|x: ((Seq<u8>, Seq<u8>), u8)| #[trigger] visited.contains(x) && x.1 >= 1 ==> stepped_to::<R, C>(rs, t, visited, x),
        forall|e: int| 0 <= e < t.len() && #[trigger] t[e] >= 1 ==> entry_stepped::<R, C>(rs, t, visited, e),
{
    assert forall|x: ((Seq<u8>, Seq<u8>), u8)| #[trigger] visited.contains(x) implies closed_at::<R, C>(rs, t, x.0, x.1) by {
        if !done.contains(x) {
            assert(queued(q, x));
        }
    }
}

/// Pruning table for a composite coordinate (R, C), where R is reduced by symmetry.
pub struct PruneTable<R: Coord, C: Coord> {
    rsym: CoordSyms<R>,
    dist: Vec<u8>,
    n_classes: usize,
    nc: usize,
    cconj: Vec<usize>,
    visited: Ghost<Set<((Seq<u8>, Seq<u8>), u8)>>,
    _c: core::marker::PhantomData<C>,
}

impl<R: Coord, C: Coord> PruneTable<R, C> {
    /// The symmetry information of the first coordinate.
    pub closed spec fn syms(&self) -> CoordSyms<R> {
        self.rsym
    }

    /// The states the search that built the table visited, with their depths.
    pub closed spec fn visited(&self) -> Set<((Seq<u8>, Seq<u8>), u8)> {
        self.visited@
    }

    /// The distances, one per class of the first coordinate and value of the second.
    pub closed spec fn distances(&self) -> Seq<u8> {
        self.dist@
    }

    /// The sizes the table was built with: the number of classes and of values of the
    /// second coordinate.
    pub closed spec fn sizes(&self) -> (int, int) {
        (self.n_classes as int, self.nc as int)
    }

    /// The entry for symmetry number `i` and value `z` of the table of conjugated values of
    /// the second coordinate.
    pub closed spec fn conj_at(&self, i: int, z: int) -> int {
        self.cconj@[i * self.nc + z] as int
    }

    /// The number of conjugated values.
    pub closed spec fn n_conj(&self) -> int {
        self.cconj@.len() as int
    }

    /// The invariant of the table: one entry per class and value, and one conjugated value
    /// per symmetry and value of the second coordinate.
    pub open spec fn wf(&self) -> bool {
        &&& self.syms().wf()
        &&& self.sizes() == (self.syms().spec_n_classes(), C::spec_n_values())
        &&& self.distances().len() == self.syms().spec_n_classes() * C::spec_n_values()
        &&& self.n_conj() == 48 * C::spec_n_values()
        &&& forall|i: int, z: int| 0 <= i < 48 && 0 <= z < C::spec_n_values() ==>
            #[trigger] self.conj_at(i, z) == spec_conj_value::<C>(z, spec_sym_from(i))
    }

    /// Whether both coordinates of `c` are in range.
    pub open spec fn evaluable(&self, c: Cube) -> bool {
        &&& R::spec_index(c.edges.0@, c.corners.0@) < R::spec_n_values()
        &&& C::spec_index(c.edges.0@, c.corners.0@) < C::spec_n_values()
    }

    /// The entry of the table that `eval` reads for `c`: that of the class of its first
    /// coordinate and of its second coordinate brought over by the symmetry that
    /// canonicalizes the first.
    pub open spec fn spec_entry(&self, c: Cube) -> int {
        let x = R::spec_index(c.edges.0@, c.corners.0@);
        table_index(self.syms().class_of(x), C::spec_n_values(),
            spec_conj_value::<C>(C::spec_index(c.edges.0@, c.corners.0@), self.syms().canonicalizer_of(x)))
    }

    /// Build the table by a breadth-first search from the solved cube over the classes of
    /// the first coordinate and the values of the second. A step of the search takes a
    /// move, brings the cube to the representative of its class, and goes on to each
    /// conjugate of it by a self-symmetry of the representative; its entry, when not set
    /// yet, gets one more than the depth of the state stepped from. The table says so:
    /// the solved cube is visited at depth 0; every step from a visited state leads to an
    /// entry within one more than its depth, which is 0 only at the solved entry; every
    /// state visited past depth 0, and every positive entry, is reached by a step from a
    /// state visited one shallower. An entry that the search does not reach is 0. The
    /// distances come in layers: every positive entry has an entry one less.
    pub fn new() -> (r: Self)
        ensures
            r.wf(),
            r.distances()[0] == 0,
            forall|j: int| 0 <= j < r.distances().len() && #[trigger] r.distances()[j] >= 1 ==>
                exists|k: int| 0 <= k < r.distances().len() && r.distances()[k] == r.distances()[j] - 1,
            r.visited().contains((solved_lanes(), 0u8)),
            forall|x: ((Seq<u8>, Seq<u8>), u8)| #[trigger] r.visited().contains(x) ==>
                closed_at::<R, C>(r.syms(), r.distances(), x.0, x.1),
            forall|x: ((Seq<u8>, Seq<u8>), u8)| #[trigger] r.visited().contains(x) && x.1 == 0 ==> x.0 == solved_lanes(),
            forall|x: ((Seq<u8>, Seq<u8>), u8)| #[trigger] r.visited().contains(x) && x.1 >= 1 ==>
                stepped_to::<R, C>(r.syms(), r.distances(), r.visited(), x),
            forall|e: int| 0 <= e < r.distances().len() && #[trigger] r.distances()[e] >= 1 ==>
                entry_stepped::<R, C>(r.syms(), r.distances(), r.visited(), e),
    {
        let rsym: CoordSyms<R> = CoordSyms::new();
        let nr = R::n_values();
        let nc = C::n_values();
        proof {
            rsym.lemma_n_classes_bound();
            rsym.lemma_wf_sizes();
        }
        let n_classes = rsym.n_classes();
        assert(n_classes >= 1);
        assert(n_classes * nc <= 4096 * 4096) by (nonlinear_arith)
            requires
                n_classes <= 4096,
                nc <= 4096,
        ;
        let n = n_classes * nc;
        assert(n >= 1) by (nonlinear_arith)
            requires
                n == n_classes * nc,
                n_classes >= 1,
                nc >= 1,
        ;
        let mut dist: Vec<Option<u8>> = Vec::new();
        while dist.len() < n
            invariant
                dist@.len() <= n,
                n_unset(dist@) == dist@.len(),
                forall|k: int| 0 <= k < dist@.len() ==> #[trigger] dist@[k] is None,
            decreases n - dist@.len(),
        {
            let ghost prev = dist@;
            dist.push(None);
            assert(dist@.drop_last() =~= prev);
        }
        proof {
            lemma_n_unset_update(dist@, 0, 0);
        }
        dist.set(0, Some(0));
        let mut q: VecDeque<(Cube, u8)> = VecDeque::new();
        let start = Cube::new();
        q.push_back((start, 0));
        let ghost mut visited: Set<((Seq<u8>, Seq<u8>), u8)> = Set::empty().insert((solved_lanes(), 0u8));
        let ghost mut done: Set<((Seq<u8>, Seq<u8>), u8)> = Set::empty();
        let ghost mut level: u8 = 0;
        proof {
            assert(cube_lanes(start) == solved_lanes());
            assert(dist@[0] == Some(0u8));
            assert(has_value(dist@, 0));
            assert(layered(dist@)) by {
                assert forall|e: int| 0 <= e < dist@.len() && #[trigger] dist@[e] is Some && dist@[e]->0 >= 1 implies
                    has_value(dist@, (dist@[e]->0 - 1) as u8) by {
                    assert(e == 0);
                }
            }
            assert(queued_values_set(dist@, q@)) by {
                assert forall|k: int| 0 <= k < q@.len() implies has_value(dist@, #[trigger] q@[k].1) by {
                    assert(q@[k].1 == 0);
                }
            }
            let t = table_of(dist@);
            assert forall|e: int| 0 <= e < t.len() && #[trigger] t[e] >= 1 implies entry_stepped::<R, C>(rsym, t, visited, e) by {
                assert(dist@[e] is None || e == 0);
            }
            assert(search_inv::<R, C>(rsym, t, visited, done));
            assert(queue_ok(q@, level));
            assert(values_within(dist@, level));
            assert(queue_visited(q@, visited));
            assert(visited_covered(visited, done, q@)) by {
                assert forall|y: ((Seq<u8>, Seq<u8>), u8)| #[trigger] visited.contains(y) implies
                    done.contains(y) || queued(q@, y) by {
                    assert(queue_state(q@[0]) == y);
                }
            }
        }
        let all = Move::all();
        while q.len() > 0
            invariant
                rsym.wf(),
                nr as int == R::spec_n_values(),
                nr as int == rsym.n_values(),
                nc as int == C::spec_n_values(),
                n == rsym.spec_n_classes() * nc,
                dist@.len() == n,
                dist@[0] == Some(0u8),
                layered(dist@),
                queued_values_set(dist@, q@),
                forall|i: int| 0 <= i < 18 ==> #[trigger] all[i] as u8 == i,
                queue_ok(q@, level),
                values_within(dist@, level),
                zero_at_start(dist@),
                visited.contains((solved_lanes(), 0u8)),
                queue_visited(q@, visited),
                visited_covered(visited, done, q@),
                search_inv::<R, C>(rsym, table_of(dist@), visited, done),
            decreases 2 * n_unset(dist@) + q@.len(),
        {
            let ghost q0 = q@;
            let (a, d) = q.pop_front().unwrap();
            let ghost cur = (cube_lanes(a), d);
            proof {
                assert(q0[0] == (a, d));
                assert(has_value(dist@, q0[0].1));
                assert forall|k: int| 0 <= k < q@.len() implies has_value(dist@, #[trigger] q@[k].1) by {
                    assert(q@[k] == q0[k + 1]);
                }
                lemma_pop_queue(q0, q@, level, visited, done, dist@);
                level = d;
            }
            let ghost measure = 2 * n_unset(dist@) + q@.len();
            let next_d: u8 = if d < 255 { d + 1 } else { 255 };
            proof {
                if d == 255 {
                    let e = choose|e: int| 0 <= e < dist@.len() && dist@[e] == Some(d);
                    assert(dist@[e] is Some && dist@[e]->0 >= 1);
                }
                assert(next_d == next_depth(d));
                assert(visited.contains(cur));
            }
            let mut i: usize = 0;
            while i < 18
                invariant
                    rsym.wf(),
                    nr as int == R::spec_n_values(),
                    nr as int == rsym.n_values(),
                    nc as int == C::spec_n_values(),
                    n == rsym.spec_n_classes() * nc,
                    dist@.len() == n,
                    dist@[0] == Some(0u8),
                    i <= 18,
                    2 * n_unset(dist@) + q@.len() <= measure,
                    layered(dist@),
                    queued_values_set(dist@, q@),
                    next_d >= 1,
                    next_d == next_depth(d),
                    has_value(dist@, (next_d - 1) as u8),
                    forall|i: int| 0 <= i < 18 ==> #[trigger] all[i] as u8 == i,
                    cur == (cube_lanes(a), d),
                    level == d,
                    queue_ok(q@, level),
                    values_within(dist@, level),
                    zero_at_start(dist@),
                    visited.contains((solved_lanes(), 0u8)),
                    visited.contains(cur),
                    queue_visited(q@, visited),
                    visited_covered_but(visited, done, q@, cur),
                    search_inv::<R, C>(rsym, table_of(dist@), visited, done),
                    closed_upto::<R, C>(rsym, table_of(dist@), cur.0, d, i as int, 0),
                decreases 18 - i,
            {
                let m = all[i];
                let ghost mi = i as int;
                i += 1;
                let b0 = a.apply_move(m);
                proof {
                    lemma_move_number(m);
                    assert(cube_lanes(b0) == lanes_after(cur.0, m));
                }
                if R::index(b0) >= nr {
                    proof {
                        lemma_no_step_for_move::<R, C>(rsym, table_of(dist@), cur.0, d, m, mi);
                    }
                    continue;
                }
                let b = rsym.canonicalize(b0);
                let b_coord = R::index(b);
                proof {
                    assert(cube_lanes(b) == step_canonical(rsym, cur.0, m));
                }
                if b_coord >= nr {
                    proof {
                        lemma_no_step_for_move::<R, C>(rsym, table_of(dist@), cur.0, d, m, mi);
                    }
                    continue;
                }
                let b_class = rsym.conjugacy_class(b_coord);
                let ssyms = rsym.self_syms(b_coord);
                let mut x: u8 = 0;
                while x < 48 && (ssyms.bits >> x) != 0
                    invariant
                        rsym.wf(),
                        nc as int == C::spec_n_values(),
                        n == rsym.spec_n_classes() * nc,
                        b_class < rsym.spec_n_classes(),
                        b_class == rsym.class_of(b_coord as int),
                        b_coord < nr,
                        nr as int == R::spec_n_values(),
                        nr as int == rsym.n_values(),
                        (b_coord as int) == R::spec_index(cube_lanes(b).0, cube_lanes(b).1),
                        cube_lanes(b) == step_canonical(rsym, cur.0, m),
                        R::spec_index(lanes_after(cur.0, m).0, lanes_after(cur.0, m).1) < R::spec_n_values(),
                        ssyms.view() == rsym.self_syms_of(b_class as int),
                        (m as u8) == mi,
                        dist@.len() == n,
                        dist@[0] == Some(0u8),
                        x <= 48,
                        2 * n_unset(dist@) + q@.len() <= measure,
                        layered(dist@),
                        queued_values_set(dist@, q@),
                        next_d >= 1,
                        next_d == next_depth(d),
                        has_value(dist@, (next_d - 1) as u8),
                        cur == (cube_lanes(a), d),
                        level == d,
                        queue_ok(q@, level),
                        values_within(dist@, level),
                        zero_at_start(dist@),
                        visited.contains((solved_lanes(), 0u8)),
                        visited.contains(cur),
                        queue_visited(q@, visited),
                        visited_covered_but(visited, done, q@, cur),
                        search_inv::<R, C>(rsym, table_of(dist@), visited, done),
                        closed_upto::<R, C>(rsym, table_of(dist@), cur.0, d, mi, x as int),
                    decreases 48 - x,
                {
                    let s = Sym::from_u8(x);
                    let ghost xi = x as int;
                    x += 1;
                    if !ssyms.contains(&s) {
                        proof {
                            lemma_step_within::<R, C>(rsym, table_of(dist@), cur.0, d, m, s, mi, xi);
                        }
                        continue;
                    }
                    let b2 = if s == Sym::UF { b } else { rsym.conjugate(b, s) };
                    let c_coord = C::index(b2);
                    proof {
                        assert(cube_lanes(b2) == step_state(rsym, cur.0, m, s));
                    }
                    if c_coord >= nc {
                        proof {
                            lemma_step_within::<R, C>(rsym, table_of(dist@), cur.0, d, m, s, mi, xi);
                        }
                        continue;
                    }
                    assert(b_class * nc + c_coord < n) by (nonlinear_arith)
                        requires
                            b_class < rsym.spec_n_classes(),
                            c_coord < nc,
                            n == rsym.spec_n_classes() * nc,
                    ;
                    let coord = b_class * nc + c_coord;
                    proof {
                        assert(step_ok::<R, C>(rsym, cur.0, m, s));
                        assert(coord as int == step_entry::<R, C>(rsym, cur.0, m, s));
                    }
                    if dist[coord].is_none() {
                        proof {
                            lemma_n_unset_update(dist@, coord as int, next_d);
                            lemma_set_entry(dist@, coord as int, next_d, q@);
                            lemma_record::<R, C>(rsym, table_of(dist@), visited, done, cur.0, d, m, s, mi, xi);
                        }
                        let ghost before = dist@;
                        dist.set(coord, Some(next_d));
                        let ghost q1 = q@;
                        q.push_back((b2, next_d));
                        proof {
                            assert(table_of(dist@) =~= table_of(before).update(coord as int, next_d));
                            let y = (step_state(rsym, cur.0, m, s), next_d);
                            lemma_push_queue(q1, q@, level, visited, done, cur, b2, next_d);
                            visited = visited.insert(y);
                            assert(has_value(before, (next_d - 1) as u8));
                            assert(has_value(dist@, (next_d - 1) as u8));
                            assert forall|k: int| 0 <= k < q@.len() implies has_value(dist@, #[trigger] q@[k].1) by {
                                if k < q1.len() {
                                    assert(q@[k] == q1[k]);
                                }
                            }
                            lemma_values_set(before, coord as int, next_d, level);
                            assert(entry_within(table_of(dist@), coord as int, d));
                            lemma_step_within::<R, C>(rsym, table_of(dist@), cur.0, d, m, s, mi, xi);
                        }
                    } else {
                        proof {
                            assert(dist@[coord as int] is Some);
                            assert(entry_within(table_of(dist@), coord as int, d));
                            lemma_step_within::<R, C>(rsym, table_of(dist@), cur.0, d, m, s, mi, xi);
                        }
                    }
                }
                proof {
                    assert(x < 48 ==> ssyms.bits >> (x as u64) == 0);
                    lemma_move_done::<R, C>(rsym, table_of(dist@), cur.0, d, m, mi, x as int, ssyms.bits);
                }
            }
            proof {
                lemma_finish_state::<R, C>(rsym, table_of(dist@), visited, done, q@, cur);
                done = done.insert(cur);
            }
        }
        let mut table: Vec<u8> = Vec::new();
        let mut j: usize = 0;
        while j < n
            invariant
                j <= n,
                dist@.len() == n,
                dist@[0] == Some(0u8),
                table@.len() == j,
                j > 0 ==> table@[0] == 0,
                layered(dist@),
                forall|k: int| 0 <= k < j ==> #[trigger] table@[k] == table_of(dist@)[k],
            decreases n - j,
        {
            let v = match dist[j] {
                Some(v) => v,
                None => 0,
            };
            table.push(v);
            j += 1;
        }
        proof {
            assert(table@ =~= table_of(dist@));
            assert forall|j: int| 0 <= j < table@.len() && #[trigger] table@[j] >= 1 implies
                exists|k: int| 0 <= k < table@.len() && table@[k] == table@[j] - 1 by {
                assert(dist@[j] is Some);
                let e = choose|e: int| 0 <= e < dist@.len() && dist@[e] == Some((dist@[j]->0 - 1) as u8);
                assert(table@[e] == table@[j] - 1);
            }
            lemma_search_done::<R, C>(rsym, table@, visited, done, q@);
        }
        let cconj = Self::conj_values(&rsym, nc);
        PruneTable { rsym, dist: table, n_classes, nc, cconj, visited: Ghost(visited), _c: core::marker::PhantomData }
    }

    /// For each symmetry number `i` and value `z` of the second coordinate, at `i * nc + z`,
    /// the value brought over by the symmetry.
    fn conj_values(rsym: &CoordSyms<R>, nc: usize) -> (r: Vec<usize>)
        requires
            rsym.wf(),
            nc as int == C::spec_n_values(),
        ensures
            r@.len() == 48 * nc,
            forall|i: int, z: int| 0 <= i < 48 && 0 <= z < nc ==>
                #[trigger] r@[i * nc + z] == spec_conj_value::<C>(z, spec_sym_from(i)),
    {
        let mut out: Vec<usize> = Vec::new();
        let mut i: usize = 0;
        while i < 48
            invariant
                rsym.wf(),
                nc as int == C::spec_n_values(),
                i <= 48,
                out@.len() == i * nc,
                forall|i2: int, z: int| 0 <= i2 < i && 0 <= z < nc ==>
                    #[trigger] out@[i2 * nc + z] == spec_conj_value::<C>(z, spec_sym_from(i2)),
            decreases 48 - i,
        {
            let s = Sym::from_u8(i as u8);
            let mut z: usize = 0;
            while z < nc
                invariant
                    rsym.wf(),
                    nc as int == C::spec_n_values(),
                    i < 48,
                    s == spec_sym_from(i as int),
                    z <= nc,
                    out@.len() == i * nc + z,
                    forall|i2: int, z2: int| 0 <= i2 < i && 0 <= z2 < nc ==>
                        #[trigger] out@[i2 * nc + z2] == spec_conj_value::<C>(z2, spec_sym_from(i2)),
                    forall|z2: int| 0 <= z2 < z ==>
                        #[trigger] out@[i * nc + z2] == spec_conj_value::<C>(z2, spec_sym_from(i as int)),
                decreases nc - z,
            {
                let cube = C::unindex(z);
                let moved = if s == Sym::UF { cube } else { rsym.conjugate(cube, s) };
                let v = C::index(moved);
                let v = if v < nc { v } else { 0 };
                let ghost before = out@;
                out.push(v);
                proof {
                    assert forall|i2: int, z2: int| 0 <= i2 < i && 0 <= z2 < nc implies
                        #[trigger] out@[i2 * nc + z2] == spec_conj_value::<C>(z2, spec_sym_from(i2)) by {
                        assert(i2 * nc + z2 < i * nc) by (nonlinear_arith)
                            requires
                                0 <= i2 < i,
                                0 <= z2 < nc,
                        ;
                        assert(before[i2 * nc + z2] == spec_conj_value::<C>(z2, spec_sym_from(i2)));
                    }
                    assert forall|z2: int| 0 <= z2 < z + 1 implies
                        #[trigger] out@[i * nc + z2] == spec_conj_value::<C>(z2, spec_sym_from(i as int)) by {
                        if z2 < z {
                            assert(before[i * nc + z2] == spec_conj_value::<C>(z2, spec_sym_from(i as int)));
                        }
                    }
                }
                z += 1;
            }
            proof {
                assert(out@.len() == (i + 1) * nc) by (nonlinear_arith)
                    requires
                        out@.len() == i * nc + nc,
                ;
                assert forall|i2: int, z2: int| 0 <= i2 < i + 1 && 0 <= z2 < nc implies
                    #[trigger] out@[i2 * nc + z2] == spec_conj_value::<C>(z2, spec_sym_from(i2)) by {
                    if i2 == i {
                        assert(out@[i * nc + z2] == spec_conj_value::<C>(z2, spec_sym_from(i as int)));
                    }
                }
            }
            i += 1;
        }
        out
    }

    /// Given a cube, the distance the table holds for it, meant as a lower bound on the
    /// number of moves to reduce the coordinate to 0: the entry of the class of its first
    /// coordinate and of its second coordinate brought over by the symmetry that
    /// canonicalizes the first. The second is read from the table of conjugated values,
    /// which gives what conjugating the whole cube gives for coordinates that respect the
    /// symmetries (see `Coord::syms`).
    pub fn eval(&self, c: Cube) -> (r: usize)
        requires
            self.wf(),
            self.evaluable(c),
        ensures
            r == self.distances()[self.spec_entry(c)],
    {
        proof {
            self.rsym.lemma_wf_sizes();
            self.rsym.lemma_tables();
        }
        let x = R::index(c);
        let z = C::index(c);
        let s = self.rsym.coord_canonicalizer[x];
        proof {
            lemma_sym_number(s);
            assert(self.conj_at((s as u8) as int, z as int) == spec_conj_value::<C>(z as int, s));
        }
        let i = s as usize;
        let nc = self.nc;
        let len = self.cconj.len();
        assert(i * nc + z < len && i * nc <= len) by (nonlinear_arith)
            requires
                i < 48,
                z < nc,
                len == 48 * nc,
        ;
        let z2 = self.cconj[i * nc + z];
        proof {
            assert(self.rsym.class_of(x as int) < self.rsym.spec_n_classes());
        }
        class_entry(&self.rsym.coord_cls, &self.dist, self.n_classes, nc, x, z2)
    }
}

} // verus!
