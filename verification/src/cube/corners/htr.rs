use vstd::prelude::*;
use crate::cube::corners::corners::spec_apply_moves;
use crate::cube::corners::corners::Corners;
use crate::cube::edges::edges::Edges;
use crate::cube::corners::ops::{unprank, lemma_lane_bits, spec_lane_cp, spec_lehmer_lane, spec_lehmer_seq, spec_prank, spec_rank_sum, spec_unused, spec_unused_below};
use crate::cube::corners::corners::spec_ident;
use crate::cube::cube::is_ident;
use crate::cube::cube::Cube;
use crate::cube::solver::searcher::{Searcher, canonical_in, cube_after_moves, lemma_move_number, move_of};
use crate::cube::set::SetElement;
use crate::cube::transform::mov::Move;

verus! {

/// The number of corner permutations.
pub const N_CORNER_PERMS: usize = 40320;

/// The entry of a permutation that no coset reached.
pub const NO_COSET: usize = usize::MAX;

/// The rank of the corner permutation of the corner lanes `a`.
pub open spec fn spec_perm_rank(a: Seq<u8>) -> int {
    spec_prank(Seq::new(8, |i: int| spec_lane_cp(a[i])))
}

/// Whether `m` is a half turn of a face.
pub open spec fn is_half_turn(m: Move) -> bool {
    m == Move::U2 || m == Move::D2 || m == Move::F2 || m == Move::B2 || m == Move::R2 || m == Move::L2
}

/// Whether every move of `p` is a half turn.
pub open spec fn half_turns(p: Seq<Move>) -> bool {
    forall|k: int| 0 <= k < p.len() ==> is_half_turn(#[trigger] p[k])
}

/// Whether the corner permutation ranked `i` is reached from `rep` by half turns.
pub open spec fn in_coset(rep: Cube, i: int) -> bool {
    exists|p: Seq<Move>| half_turns(p) && #[trigger] spec_perm_rank(spec_apply_moves(rep.corners.0@, p)) == i
}

/// Whether the table `t` numbers the cosets of the half-turn group by the representatives
/// `reps`: every numbered permutation is reached from its representative by half turns,
/// and each representative's permutation carries its own number.
pub open spec fn cosets_by(reps: Seq<Cube>, t: Seq<usize>) -> bool {
    &&& forall|i: int| 0 <= i < t.len() && #[trigger] t[i] != NO_COSET ==> t[i] < reps.len() && in_coset(reps[t[i] as int], i)
    &&& forall|k: int| 0 <= k < reps.len() ==> {
        let i = spec_perm_rank((#[trigger] reps[k]).corners.0@);
        0 <= i < t.len() && t[i] == k
    }
}

/// In the solved order, a value is unused by the first `i` lanes exactly when it is not
/// below `i`.
proof fn lemma_ident_unused(a: Seq<u8>, i: int, v: int)
    requires
        a.len() == 8,
        forall|k: int| 0 <= k < 8 ==> #[trigger] a[k] == k,
        0 <= i <= 8,
    ensures
        spec_unused(a, i, v) == !(0 <= v < i),
    decreases i,
{
    if i > 0 {
        lemma_ident_unused(a, i - 1, v);
        assert(a[i - 1] as int % 16 == i - 1);
    }
}

/// In the solved order, no value below lane `i`'s is unused by the lanes before it.
proof fn lemma_ident_unused_below(a: Seq<u8>, i: int, t: int)
    requires
        a.len() == 8,
        forall|k: int| 0 <= k < 8 ==> #[trigger] a[k] == k,
        0 <= t <= i <= 8,
    ensures
        spec_unused_below(a, i, t) == 0,
    decreases t,
{
    if t > 0 {
        lemma_ident_unused_below(a, i, t - 1);
        lemma_ident_unused(a, i, t - 1);
    }
}

/// Sums of zero entries are zero.
proof fn lemma_rank_sum_zero(l: Seq<int>, n: int)
    requires
        0 <= n <= l.len(),
        forall|k: int| 0 <= k < l.len() ==> #[trigger] l[k] == 0,
    ensures
        spec_rank_sum(l, n) == 0,
    decreases n,
{
    if n > 0 {
        lemma_rank_sum_zero(l, n - 1);
    }
}

/// The solved corners have permutation rank 0.
pub proof fn lemma_ident_rank()
    ensures
        spec_perm_rank(spec_ident()) == 0,
{
    let c = spec_ident();
    let a = Seq::new(8, |i: int| spec_lane_cp(c[i]));
    assert forall|k: int| 0 <= k < 8 implies #[trigger] a[k] == k by {
        lemma_lane_bits(c[k]);
    }
    let l = spec_lehmer_seq(a);
    assert forall|k: int| 0 <= k < l.len() implies #[trigger] l[k] == 0 by {
        assert(a[k] as int % 16 == k);
        lemma_ident_unused_below(a, k, k);
        assert(l[k] == spec_lehmer_lane(a, k));
    }
    lemma_rank_sum_zero(l, 8);
}

/// The moves of the half-turn group are half turns.
proof fn lemma_htr_path(p: Seq<Move>, numbers: Set<int>, moveset: Seq<Move>)
    requires
        moveset == seq![Move::U2, Move::D2, Move::F2, Move::B2, Move::R2, Move::L2],
        numbers == Set::new(|i: int| exists|k: int| 0 <= k < moveset.len() && #[trigger] moveset[k].element_number() == i),
        canonical_in(p, numbers),
    ensures
        half_turns(p),
{
    assert forall|k: int| 0 <= k < p.len() implies is_half_turn(#[trigger] p[k]) by {
        assert(numbers.contains((p[k] as u8) as int));
        let j = choose|j: int| 0 <= j < moveset.len() && #[trigger] moveset[j].element_number() == (p[k] as u8) as int;
        lemma_move_number(p[k]);
        lemma_move_number(moveset[j]);
        assert(p[k] == moveset[j]);
    }
}

/// Number the coset of the half-turn group that `c` stands for as coset `count`: a search
/// by half turns from `c` numbers every permutation it reaches that is not numbered yet,
/// and leaves the numbered ones as they were.
fn fill_coset(cosets: &mut Vec<usize>, c: Cube, cp: usize, count: usize, Ghost(reps): Ghost<Seq<Cube>>)
    requires
        old(cosets)@.len() == N_CORNER_PERMS,
        count == reps.len(),
        count < usize::MAX,
        cp < N_CORNER_PERMS,
        cp == spec_perm_rank(c.corners.0@),
        old(cosets)@[cp as int] == NO_COSET,
        cosets_by(reps, old(cosets)@),
    ensures
        final(cosets)@.len() == N_CORNER_PERMS,
        cosets_by(reps.push(c), final(cosets)@),
        final(cosets)@[cp as int] == count,
        forall|i: int| 0 <= i < N_CORNER_PERMS && #[trigger] old(cosets)@[i] != NO_COSET ==> final(cosets)@[i] == old(cosets)@[i],
{
    let ghost before = cosets@;
    let htr = Move::htr_moveset();
    let mut s2 = Searcher::new(c, &htr);
    let mut steps: usize = usize::MAX;
    while steps > 0
        invariant
            s2.wf(),
            s2.start_cube() == c,
            s2.move_numbers() == Set::new(|i: int| exists|k: int| 0 <= k < htr@.len() && #[trigger] htr@[k].element_number() == i),
            htr@ == seq![Move::U2, Move::D2, Move::F2, Move::B2, Move::R2, Move::L2],
            cosets@.len() == N_CORNER_PERMS,
            count == reps.len(),
            count < usize::MAX,
            cp < N_CORNER_PERMS,
            cp == spec_perm_rank(c.corners.0@),
            before.len() == N_CORNER_PERMS,
            before[cp as int] == NO_COSET,
            cosets_by(reps, before),
            forall|i: int| 0 <= i < N_CORNER_PERMS && #[trigger] before[i] != NO_COSET ==> cosets@[i] == before[i],
            forall|i: int| 0 <= i < N_CORNER_PERMS && before[i] == NO_COSET && #[trigger] cosets@[i] != NO_COSET ==>
                cosets@[i] == count && in_coset(c, i),
            steps == usize::MAX ==> !s2.started() && !s2.is_pruned() && cosets@[cp as int] == NO_COSET,
            steps < usize::MAX ==> cosets@[cp as int] == count,
        ensures
            steps < usize::MAX,
        decreases steps,
    {
        let first = steps == usize::MAX;
        steps -= 1;
        let c2 = match s2.next() {
            Some(c2) => c2,
            None => {
                assert(!first);
                break;
            },
        };
        let cp2 = c2.corners.perm_coord();
        proof {
            lemma_htr_path(s2.path(), s2.move_numbers(), htr@);
            assert(in_coset(c, cp2 as int)) by {
                assert(half_turns(s2.path()));
                assert(spec_perm_rank(spec_apply_moves(c.corners.0@, s2.path())) == cp2);
            }
            if first {
                assert(c2 == c);
            }
        }
        if cp2 >= N_CORNER_PERMS || cosets[cp2] != NO_COSET {
            s2.prune();
            continue;
        }
        cosets.set(cp2, count);
    }
    proof {
        let reps2 = reps.push(c);
        assert forall|i: int| 0 <= i < cosets@.len() && #[trigger] cosets@[i] != NO_COSET implies
            cosets@[i] < reps2.len() && in_coset(reps2[cosets@[i] as int], i) by {
            if before[i] != NO_COSET {
                assert(before[i] < reps.len() && in_coset(reps[before[i] as int], i));
                assert(reps2[before[i] as int] == reps[before[i] as int]);
            } else {
                assert(reps2[count as int] == c);
            }
        }
        assert forall|k: int| 0 <= k < reps2.len() implies {
            let i = spec_perm_rank((#[trigger] reps2[k]).corners.0@);
            0 <= i < cosets@.len() && cosets@[i] == k
        } by {
            if k < reps.len() {
                assert(reps2[k] == reps[k]);
                let i = spec_perm_rank(reps[k].corners.0@);
                assert(before[i] == k);
            }
        }
    }
}

/// Number the cosets of the half-turn group in the corner permutations: a search over all
/// move sequences from the solved cube takes each permutation not numbered yet as the
/// representative of a new coset, and numbers everything that half turns reach from it.
/// A permutation that the search leaves without a number then opens a coset of its own, so
/// that every permutation rank gets a number. The solved permutation, of rank 0, opens
/// coset 0.
pub fn compute_corner_cosets() -> (r: Vec<usize>)
    ensures
        r@.len() == N_CORNER_PERMS,
        exists|reps: Seq<Cube>| #[trigger] cosets_by(reps, r@) && reps.len() >= 1 && is_ident(reps[0]),
        r@[0] == 0,
        forall|i: int| 0 <= i < N_CORNER_PERMS ==> #[trigger] r@[i] != NO_COSET,
{
    let all = Move::all();
    let mut s = Searcher::new(Cube::new(), &all);
    let mut cosets: Vec<usize> = Vec::new();
    while cosets.len() < N_CORNER_PERMS
        invariant
            cosets@.len() <= N_CORNER_PERMS,
            forall|i: int| 0 <= i < cosets@.len() ==> #[trigger] cosets@[i] == NO_COSET,
        decreases N_CORNER_PERMS - cosets@.len(),
    {
        cosets.push(NO_COSET);
    }
    let ghost mut reps: Seq<Cube> = Seq::empty();
    let mut count: usize = 0;
    let mut budget: usize = usize::MAX - N_CORNER_PERMS;
    proof {
        assert(cosets_by(reps, cosets@));
    }
    while budget > 0
        invariant
            s.wf(),
            cosets@.len() == N_CORNER_PERMS,
            count == reps.len(),
            count + budget <= usize::MAX - N_CORNER_PERMS,
            reps.len() >= 1 ==> is_ident(reps[0]),
            reps.len() == 0 ==> budget == usize::MAX - N_CORNER_PERMS && !s.started() && !s.is_pruned() && is_ident(s.start_cube()),
            cosets_by(reps, cosets@),
        decreases budget,
    {
        budget -= 1;
        let ghost first = reps.len() == 0;
        let c = match s.next() {
            Some(c) => c,
            None => {
                budget = 0;
                continue;
            },
        };
        proof {
            if first {
                assert(is_ident(c));
            }
        }
        let cp = c.corners.perm_coord();
        proof {
            if reps.len() == 0 {
                lemma_ident_rank();
                assert(c.corners.0@ == spec_ident());
                assert(Seq::new(8, |i: int| spec_lane_cp(c.corners.0[i])) =~= Seq::new(8, |i: int| spec_lane_cp(spec_ident()[i])));
                assert(cp == 0);
                if cosets@[0] != NO_COSET {
                    assert(cosets@[0] < reps.len());
                }
            }
        }
        if cp >= N_CORNER_PERMS || cosets[cp] != NO_COSET {
            s.prune();
            continue;
        }
        fill_coset(&mut cosets, c, cp, count, Ghost(reps));
        proof {
            reps = reps.push(c);
        }
        count += 1;
    }
    proof {
        assert(reps.len() >= 1);
        lemma_ident_rank();
        assert(reps[0].corners.0@ == spec_ident());
        assert(cosets@[spec_perm_rank(reps[0].corners.0@)] == 0);
    }
    let mut i: usize = 0;
    while i < N_CORNER_PERMS
        invariant
            cosets@.len() == N_CORNER_PERMS,
            count == reps.len(),
            i <= N_CORNER_PERMS,
            count <= usize::MAX - N_CORNER_PERMS + i,
            reps.len() >= 1,
            is_ident(reps[0]),
            cosets@[0] == 0,
            cosets_by(reps, cosets@),
            forall|j: int| 0 <= j < i ==> #[trigger] cosets@[j] != NO_COSET,
        decreases N_CORNER_PERMS - i,
    {
        if cosets[i] == NO_COSET {
            let p = unprank(i);
            let c = Cube { edges: Edges::new(), corners: Corners(p) };
            proof {
                assert forall|k: int| 0 <= k < 8 implies #[trigger] spec_lane_cp(p@[k]) == p@[k] by {
                    lemma_lane_bits(p@[k]);
                }
                assert(Seq::new(8, |k: int| spec_lane_cp(c.corners.0@[k])) =~= p@);
            }
            let ghost prev = cosets@;
            fill_coset(&mut cosets, c, i, count, Ghost(reps));
            proof {
                assert forall|j: int| 0 <= j < i implies #[trigger] cosets@[j] != NO_COSET by {
                    assert(prev[j] != NO_COSET);
                }
                assert(prev[0] != NO_COSET);
                reps = reps.push(c);
            }
            count += 1;
        }
        i += 1;
    }
    cosets
}

} // verus!
