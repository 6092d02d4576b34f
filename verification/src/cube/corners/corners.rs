use vstd::prelude::*;
use vstd::string::*;
use crate::cube::alg::Alg;
use crate::cube::axis::{Axis, spec_axis_primary, spec_axis_secondary};
use crate::cube::face::{Face, spec_face_move};
use crate::cube::corners::co::CO;
use crate::cube::corners::corner::{Corner, lemma_corner_number, spec_corner_from, spec_corner_name};
use crate::cube::corners::ops::{
    COFB_TO_COUD, COLR_TO_COUD, CORNERS_IDENT, CO_LANE_MASK, CO_SHIFT, CP_LANE_MASK, co_of, coud, cp, cp_of,
    index_coud, lane_ok, lane_set_cofb, lane_set_colr, lane_set_coud, lane_cons, lemma_build_bits, lemma_lane_bits, prank, set_cofb, set_colr,
    spec_index_coud, spec_unindex_coud_lane, unindex_coud,
    spec_lane_cofb, spec_lane_colr, spec_lane_cons, spec_lane_coud, spec_lane_cp, spec_lane_htrbad, spec_lane_set_cofb,
    spec_lane_set_colr, spec_lane_set_coud, spec_prank,
};
use crate::cube::corners::refr::CornerRef;
use crate::cube::text::{digit, lemma_concat_step, spec_concat, spec_digit};
use crate::cube::sym::{Sym, spec_sym_cube, spec_sym_inverse};
use crate::cube::transform::mov::Move;

verus! {

/// Corners of the cube.
///
/// ### Representation
/// Corner ordering:
///   UBL UBR UFR UFL DFL DFR DBR DBL
///
/// The underlying representation is an array of 8 lanes, each lane representing a corner slot.
/// Each lane has a packed 8-bit representation, where:
/// - Bits 0..=2 represent the corner piece at that position (0..=7).
/// - Bits 3..=4 represent the orientation of the corner piece with respect to the UD-axis.
///   - 0 means the corner is solved;
///   - 1 means the corner is twisted counterclockwise;
///   - 2 means the corner is twisted clockwise.
#[derive(Clone, Copy, PartialEq, Eq, Debug, Hash)]
pub struct Corners(pub [u8; 8]);

// ---- spec model ------------------------------------------------------------------

/// Lane `i` of the composition of `a` followed by `b`, as the packed code computes it.
pub open spec fn spec_compose_lane(a: Seq<u8>, b: Seq<u8>, i: int) -> u8 {
    let t = a[(b[i] & 7) as int].wrapping_add(b[i] & 24);
    let d = t.wrapping_sub(24);
    if d < t { d } else { t }
}

/// The composition of `a` followed by `b`: slot `i` receives the piece that `b` brings
/// there from slot `b[i]` of `a`, twisted by both.
pub open spec fn spec_compose(a: Seq<u8>, b: Seq<u8>) -> Seq<u8> {
    Seq::new(8, |i: int| spec_compose_lane(a, b, i))
}

/// Valid lanes whose pieces form a permutation.
pub open spec fn wf(a: Seq<u8>) -> bool {
    &&& a.len() == 8
    &&& forall|i: int| 0 <= i < 8 ==> lane_ok(#[trigger] a[i])
    &&& forall|i: int, j: int| 0 <= i < 8 && 0 <= j < 8 && i != j ==> cp_of(#[trigger] a[i]) != cp_of(#[trigger] a[j])
}

/// A lane whose twist turns the other way.
pub open spec fn spec_mirror_lane(x: u8) -> u8 {
    spec_lane_cons(((3 - spec_lane_coud(x)) % 3) as u8, spec_lane_cp(x))
}

/// Corners whose twists all turn the other way.
pub open spec fn spec_mirror_twist(a: Seq<u8>) -> Seq<u8> {
    Seq::new(a.len(), |i: int| spec_mirror_lane(a[i]))
}

/// The corners `a` conjugated by symmetry `s`, twists turned the other way for a mirror.
pub open spec fn spec_conjugate(a: Seq<u8>, s: Sym) -> Seq<u8> {
    let c = spec_compose(spec_compose(spec_sym_cube(s).1, a),
        spec_sym_cube(spec_sym_inverse(s)).1);
    if (s as u8) < 24 { c } else { spec_mirror_twist(c) }
}

/// The cell of slot `i` in the slot row of the table: its name, padded to four.
pub open spec fn spec_slot_cell(i: int) -> Seq<char> {
    spec_corner_name(spec_corner_from(i)) + " "@
}

/// The cell of lane `x` in the piece row of the table: the piece's name, padded to four.
pub open spec fn spec_piece_cell(x: u8) -> Seq<char> {
    spec_corner_name(spec_corner_from(spec_lane_cp(x) as int)) + " "@
}

/// The cell of lane `x` in the twist row of the table: the twist, padded to four.
pub open spec fn spec_coud_cell(x: u8) -> Seq<char> {
    spec_digit(spec_lane_coud(x)) + "   "@
}

/// The table of slots, pieces and twists of the corners `a`.
pub open spec fn spec_corners_table(a: Seq<u8>) -> Seq<char> {
    "slot:   "@ + spec_concat(Seq::new(8, |i: int| spec_slot_cell(i))) + "\n"@
        + "corner: "@ + spec_concat(Seq::new(8, |i: int| spec_piece_cell(a[i]))) + "\n"@
        + "coud:   "@ + spec_concat(Seq::new(8, |i: int| spec_coud_cell(a[i]))) + "\n"@
}

/// The solved corners.
pub open spec fn spec_ident() -> Seq<u8> {
    seq![0u8, 1, 2, 3, 4, 5, 6, 7]
}

/// The power of 256 that weighs byte `i` of a magic number.
pub open spec fn spec_pow256(i: int) -> int {
    if i == 0 { 1 } else if i == 1 { 0x100 } else if i == 2 { 0x10000 } else if i == 3 { 0x1000000 }
    else if i == 4 { 0x100000000 } else if i == 5 { 0x10000000000 } else if i == 6 { 0x1000000000000 }
    else { 0x100000000000000 }
}

/// The lanes of a magic number: its little-endian bytes.
pub open spec fn spec_from_magic(m: u64) -> Seq<u8> {
    Seq::new(8, |i: int| ((m as int / spec_pow256(i)) % 256) as u8)
}

/// The magic number of some lanes: the little-endian number they form.
pub open spec fn spec_magic(a: Seq<u8>) -> int {
    a[0] + 0x100 * a[1] + 0x10000 * a[2] + 0x1000000 * a[3] + 0x100000000 * a[4]
        + 0x10000000000 * a[5] + 0x1000000000000 * a[6] + 0x100000000000000 * a[7]
}

/// The magic number of the corners after move `m` from solved.
pub open spec fn spec_move_magic(m: Move) -> u64 {
    match m {
        Move::U => 0x0706050402010003,
        Move::U2 => 0x0706050401000302,
        Move::U3 => 0x0706050400030201,
        Move::D => 0x0605040703020100,
        Move::D2 => 0x0504070603020100,
        Move::D3 => 0x0407060503020100,
        Move::F => 0x07060a150c130100,
        Move::F2 => 0x0706030205040100,
        Move::F3 => 0x07060c130a150100,
        Move::B => 0x0817050403020e11,
        Move::B2 => 0x0100050403020706,
        Move::B3 => 0x0e11050403020817,
        Move::R => 0x07091604030d1200,
        Move::R2 => 0x0702010403060500,
        Move::R3 => 0x070d120403091600,
        Move::L => 0x1406050b1002010f,
        Move::L2 => 0x0306050007020104,
        Move::L3 => 0x1006050f1402010b,
    }
}

/// The corners after move `m` from solved.
pub open spec fn spec_move(m: Move) -> Seq<u8> {
    spec_from_magic(spec_move_magic(m))
}

/// The corners `c` after the moves `ms`, in order.
pub open spec fn spec_apply_moves(c: Seq<u8>, ms: Seq<Move>) -> Seq<u8>
    decreases ms.len(),
{
    if ms.len() == 0 {
        c
    } else {
        spec_compose(spec_apply_moves(c, ms.drop_last()), spec_move(ms.last()))
    }
}

/// The slot that holds piece `p` in `a`.
pub open spec fn spec_slot_of(a: Seq<u8>, p: int) -> int {
    choose|j: int| 0 <= j < 8 && cp_of(a[j]) == p
}

/// The inverse of valid corners: slot `i` holds the slot where `a` keeps piece `i`,
/// with the opposite twist.
pub open spec fn spec_inverse(a: Seq<u8>) -> Seq<u8> {
    Seq::new(8, |i: int| {
        let j = spec_slot_of(a, i);
        (8 * ((3 - co_of(a[j])) % 3) + j) as u8
    })
}


/// The piece that slot `s` holds after the first `k` steps of a cycle: step `i` moves
/// the piece of slot `c[i]` to slot `c[(i + 1) % n]`, starting from the solved cube.
pub open spec fn spec_cycle_slot(c: Seq<Corner>, k: int, s: int) -> int
    decreases k,
{
    if k <= 0 {
        s
    } else if (c[k % c.len() as int] as u8) as int == s {
        (c[k - 1] as u8) as int
    } else {
        spec_cycle_slot(c, k - 1, s)
    }
}

/// The lanes of the cycle `c` applied to solved corners.
pub open spec fn spec_cycle_lanes(c: Seq<Corner>) -> Seq<u8> {
    Seq::new(8, |s: int| spec_cycle_slot(c, c.len() as int, s) as u8)
}

/// The slot that follows position `j` of the cycle `c`, wrapping around.
pub open spec fn spec_cycle_next(c: Seq<Corner>, j: int) -> int {
    (c[(j + 1) % (c.len() as int)] as u8) as int
}

/// No corner occurs twice in `c`.
pub open spec fn distinct_corners(c: Seq<Corner>) -> bool {
    forall|i: int, j: int| 0 <= i < c.len() && 0 <= j < c.len() && i != j ==> #[trigger] c[i] != #[trigger] c[j]
}

/// The lanes after writing, for each slot `i` below `n` in turn, piece `i` into slot
/// `dest[i]`, keeping the twist already there.
pub open spec fn spec_set_cp_active(a: Seq<u8>, dest: Seq<Corner>, n: int) -> Seq<u8>
    decreases n,
{
    if n <= 0 {
        a
    } else {
        let prev = spec_set_cp_active(a, dest, n - 1);
        let d = (dest[n - 1] as u8) as int;
        prev.update(d, (prev[d] & 24) | ((n - 1) as u8))
    }
}

/// The lanes with CO on UD at `slot` set to `co`.
pub open spec fn spec_set_coud(a: Seq<u8>, slot: Corner, co: CO) -> Seq<u8> {
    let i = (slot as u8) as int;
    a.update(i, spec_lane_set_coud(a[i], co as u8))
}

/// The lanes with CO on FB at `slot` set to `co`.
pub open spec fn spec_set_cofb(a: Seq<u8>, slot: Corner, co: CO) -> Seq<u8> {
    let i = (slot as u8) as int;
    let coud = if spec_lane_htrbad(a[i], i) { ((co as u8 + COFB_TO_COUD[i]) % 3) as u8 } else { co as u8 };
    a.update(i, spec_lane_set_coud(a[i], coud))
}

/// The lanes with CO on LR at `slot` set to `co`.
pub open spec fn spec_set_colr(a: Seq<u8>, slot: Corner, co: CO) -> Seq<u8> {
    let i = (slot as u8) as int;
    let coud = if spec_lane_htrbad(a[i], i) { ((co as u8 + COLR_TO_COUD[i]) % 3) as u8 } else { co as u8 };
    a.update(i, spec_lane_set_coud(a[i], coud))
}

/// Whether a piece occurs twice in the lanes before slot `j`.
pub open spec fn cp_repeats_before(a: Seq<u8>, j: int) -> bool {
    exists|x: int, y: int| 0 <= x < y < j && #[trigger] spec_lane_cp(a[x]) == #[trigger] spec_lane_cp(a[y])
}

/// The message that reports piece `c` found at slot `first` and again at slot `second`.
pub open spec fn spec_twice_message(c: Corner, first: Corner, second: Corner) -> Seq<char> {
    "Corner "@ + spec_corner_name(c) + " appears twice: first at "@ + spec_corner_name(first)
        + ", and at "@ + spec_corner_name(second)
}

// ---- laws -------------------------------------------------------------------------

/// Writing a twist below 3 into a lane keeps its piece, and its slot's tetrad parity.
proof fn lemma_lane_set_coud_bits(x: u8, c: u8, j: u8)
    by (bit_vector)
    requires
        c < 3,
    ensures
        ((((c << 3u8) ^ (x & 7)) & 24) >> 3u8) == c,
        ((c << 3u8) ^ (x & 7)) & 7 == x & 7,
        (((c << 3u8) ^ (x & 7)) ^ j) & 1 == (x ^ j) & 1,
{
}

/// The lanes after `set_co` on `axis`.
pub open spec fn spec_set_co(a: Seq<u8>, slot: Corner, co: CO, axis: Axis) -> Seq<u8> {
    match axis {
        Axis::UD => spec_set_coud(a, slot, co),
        Axis::FB => spec_set_cofb(a, slot, co),
        Axis::LR => spec_set_colr(a, slot, co),
    }
}

/// Setting the twist of a slot relative to an axis gives that slot that twist relative to
/// that axis, leaves every piece in its slot, and leaves every other slot as it was.
pub proof fn lemma_set_co(a: Seq<u8>, slot: Corner, co: CO, axis: Axis)
    requires
        a.len() == 8,
    ensures
        ({
            let i = (slot as u8) as int;
            let r = spec_set_co(a, slot, co, axis);
            &&& r.len() == 8
            &&& spec_lane_coud(r[i]) < 3
            &&& axis == Axis::UD ==> spec_lane_coud(r[i]) == co as u8
            &&& axis == Axis::FB ==> spec_lane_cofb(r[i], i) == co as u8
            &&& axis == Axis::LR ==> spec_lane_colr(r[i], i) == co as u8
            &&& forall|t: int| 0 <= t < 8 ==> spec_lane_cp(#[trigger] r[t]) == spec_lane_cp(a[t])
            &&& forall|t: int| 0 <= t < 8 && t != i ==> #[trigger] r[t] == a[t]
        }),
{
    lemma_corner_number(slot);
    let i = (slot as u8) as int;
    let x = a[i];
    let c = co as u8;
    assert(c < 3);
    let f = COFB_TO_COUD[i];
    let l = COLR_TO_COUD[i];
    assert(i % 2 == 0 ==> f == 2 && l == 1);
    assert(i % 2 == 1 ==> f == 1 && l == 2);
    let coud: u8 = match axis {
        Axis::UD => c,
        Axis::FB => if spec_lane_htrbad(x, i) { ((c + f) % 3) as u8 } else { c },
        Axis::LR => if spec_lane_htrbad(x, i) { ((c + l) % 3) as u8 } else { c },
    };
    let r = spec_set_co(a, slot, co, axis);
    assert(r == a.update(i, spec_lane_set_coud(x, coud)));
    lemma_lane_set_coud_bits(x, coud, i as u8);
    let y = spec_lane_set_coud(x, coud);
    assert(spec_lane_coud(y) == coud);
    assert(spec_lane_cp(y) == spec_lane_cp(x));
    assert(spec_lane_htrbad(y, i) == spec_lane_htrbad(x, i));
    assert forall|t: int| 0 <= t < 8 implies spec_lane_cp(#[trigger] r[t]) == spec_lane_cp(a[t]) by {
        if t != i {
            assert(r[t] == a[t]);
        }
    }
}

/// Composing valid corners moves the pieces and adds the twists modulo 3.
#[verifier::spinoff_prover]
pub proof fn lemma_compose_wf(a: Seq<u8>, b: Seq<u8>)
    requires
        wf(a),
        wf(b),
    ensures
        wf(spec_compose(a, b)),
        forall|i: int| 0 <= i < 8 ==> cp_of(#[trigger] spec_compose(a, b)[i]) == cp_of(a[cp_of(b[i])]),
        forall|i: int| 0 <= i < 8 ==> co_of(#[trigger] spec_compose(a, b)[i]) == (co_of(a[cp_of(b[i])]) + co_of(b[i])) % 3,
{
    let c = spec_compose(a, b);
    assert forall|i: int| 0 <= i < 8 implies #[trigger] c[i] == 8 * ((co_of(a[cp_of(b[i])]) + co_of(b[i])) % 3) + cp_of(a[cp_of(b[i])]) by {
        lemma_lane_bits(b[i]);
        let j = cp_of(b[i]);
        assert(a[j] < 24);
        assert(a[j] == 8 * co_of(a[j]) + cp_of(a[j]));
    }
    assert forall|i: int, j: int| 0 <= i < 8 && 0 <= j < 8 && i != j implies cp_of(#[trigger] c[i]) != cp_of(#[trigger] c[j]) by {
        assert(cp_of(b[i]) != cp_of(b[j]));
    }
}

/// Valid corners are equal when each lane has the same piece and twist.
proof fn lemma_wf_eq(a: Seq<u8>, b: Seq<u8>)
    requires
        a.len() == 8,
        b.len() == 8,
        forall|i: int| 0 <= i < 8 ==> #[trigger] a[i] < 24 && b[i] < 24,
        forall|i: int| 0 <= i < 8 ==> cp_of(#[trigger] a[i]) == cp_of(b[i]) && co_of(a[i]) == co_of(b[i]),
    ensures
        a == b,
{
    assert forall|i: int| 0 <= i < 8 implies #[trigger] a[i] == b[i] by {
        assert(a[i] == 8 * co_of(a[i]) + cp_of(a[i]));
        assert(b[i] == 8 * co_of(b[i]) + cp_of(b[i]));
    }
    assert(a =~= b);
}

/// The solved corners are valid.
pub proof fn lemma_ident_wf()
    ensures
        wf(spec_ident()),
{
}

/// Valid corners hold every piece: eight distinct pieces below 8 are all of them.
pub proof fn lemma_every_piece(a: Seq<u8>, p: int)
    requires
        wf(a),
        0 <= p < 8,
    ensures
        exists|j: int| 0 <= j < 8 && spec_lane_cp(#[trigger] a[j]) == p,
{
    let cps = Seq::new(8, |j: int| cp_of(a[j]));
    assert forall|j: int| 0 <= j < 8 implies #[trigger] spec_lane_cp(a[j]) as int == cp_of(a[j]) by {
        lemma_lane_bits(a[j]);
    }
    if !(exists|j: int| 0 <= j < 8 && spec_lane_cp(#[trigger] a[j]) == p) {
        assert(cps.no_duplicates()) by {
            assert forall|i: int, j: int| 0 <= i < cps.len() && 0 <= j < cps.len() && i != j implies cps[i] != cps[j] by {
                assert(cp_of(a[i]) != cp_of(a[j]));
            }
        }
        cps.unique_seq_to_set();
        let range = vstd::set_lib::set_int_range(0, 8).remove(p);
        vstd::set_lib::lemma_int_range(0, 8);
        assert(cps.to_set().subset_of(range)) by {
            assert forall|v: int| #[trigger] cps.to_set().contains(v) implies range.contains(v) by {
                let j = choose|j: int| 0 <= j < cps.len() && cps[j] == v;
                assert(spec_lane_cp(a[j]) as int == cps[j]);
            }
        }
        vstd::set_lib::lemma_len_subset(cps.to_set(), range);
        assert(false);
    }
}

/// The solved corners are an identity for composition.
pub proof fn lemma_compose_ident(a: Seq<u8>)
    requires
        wf(a),
    ensures
        spec_compose(spec_ident(), a) == a,
        spec_compose(a, spec_ident()) == a,
{
    lemma_compose_wf(spec_ident(), a);
    lemma_compose_wf(a, spec_ident());
    lemma_wf_eq(spec_compose(spec_ident(), a), a);
    lemma_wf_eq(spec_compose(a, spec_ident()), a);
}

/// Composition of valid corners is associative.
pub proof fn lemma_compose_assoc(a: Seq<u8>, b: Seq<u8>, c: Seq<u8>)
    requires
        wf(a),
        wf(b),
        wf(c),
    ensures
        spec_compose(spec_compose(a, b), c) == spec_compose(a, spec_compose(b, c)),
{
    let ab = spec_compose(a, b);
    let bc = spec_compose(b, c);
    lemma_compose_wf(a, b);
    lemma_compose_wf(b, c);
    lemma_compose_wf(ab, c);
    lemma_compose_wf(a, bc);
    let x = spec_compose(ab, c);
    let y = spec_compose(a, bc);
    assert forall|i: int| 0 <= i < 8 implies cp_of(#[trigger] x[i]) == cp_of(y[i]) && co_of(x[i]) == co_of(y[i]) by {
        let k = cp_of(c[i]);
        assert(cp_of(bc[i]) == cp_of(b[k]));
    }
    lemma_wf_eq(x, y);
}

/// Valid corners hold each piece in exactly one slot.
proof fn lemma_slot_of(a: Seq<u8>, p: int)
    requires
        wf(a),
        0 <= p < 8,
    ensures
        0 <= spec_slot_of(a, p) < 8,
        cp_of(a[spec_slot_of(a, p)]) == p,
        forall|j: int| 0 <= j < 8 && cp_of(a[j]) == p ==> j == spec_slot_of(a, p),
{
    lemma_pigeonhole(a);
    assert(has_piece(a, p));
}

/// Some slot of `a` holds piece `p`.
pub open spec fn has_piece(a: Seq<u8>, p: int) -> bool {
    exists|j: int| 0 <= j < 8 && cp_of(a[j]) == p
}

/// Eight distinct pieces below 8 cover every piece.
proof fn lemma_pigeonhole(a: Seq<u8>)
    requires
        wf(a),
    ensures
        forall|p: int| 0 <= p < 8 ==> #[trigger] has_piece(a, p),
{
    assert forall|p: int| 0 <= p < 8 implies #[trigger] has_piece(a, p) by {
        lemma_pigeonhole_one(a, p);
    }
}

proof fn lemma_pigeonhole_one(a: Seq<u8>, p: int)
    requires
        wf(a),
        0 <= p < 8,
    ensures
        has_piece(a, p),
{
    if has_piece(a, p) {
        return;
    }
    let f = |j: int| cp_of(a[j]);
    let dom = vstd::set_lib::set_int_range(0, 8);
    let img = dom.map(f);
    let rng = vstd::set_lib::set_int_range(0, 8).remove(p);
    vstd::set_lib::lemma_int_range(0, 8);
    assert(vstd::relations::injective_on(f, dom)) by {
        assert forall|x: int, y: int| dom.contains(x) && dom.contains(y) && #[trigger] f(x) == #[trigger] f(y) implies x == y by {}
    }
    vstd::set_lib::lemma_map_size(dom, img, f);
    assert(img.subset_of(rng)) by {
        assert forall|v: int| img.contains(v) implies rng.contains(v) by {
            let j = choose|j: int| dom.contains(j) && f(j) == v;
            assert(0 <= j < 8 && cp_of(a[j]) == v);
        }
    }
    vstd::set_lib::lemma_len_subset(img, rng);
}

/// The lanes of the inverse: slot `i` holds the slot of piece `i`, with the opposite twist.
proof fn lemma_inverse_lanes(a: Seq<u8>)
    requires
        wf(a),
    ensures
        spec_inverse(a).len() == 8,
        forall|i: int| 0 <= i < 8 ==> #[trigger] spec_inverse(a)[i] < 24
            && cp_of(spec_inverse(a)[i]) == spec_slot_of(a, i)
            && co_of(spec_inverse(a)[i]) == (3 - co_of(a[spec_slot_of(a, i)])) % 3,
{
    let v = spec_inverse(a);
    assert forall|i: int| 0 <= i < 8 implies #[trigger] v[i] < 24 && cp_of(v[i]) == spec_slot_of(a, i)
        && co_of(v[i]) == (3 - co_of(a[spec_slot_of(a, i)])) % 3 by {
        lemma_slot_of(a, i);
    }
}

/// The inverse of valid corners is valid.
proof fn lemma_inverse_wf(a: Seq<u8>)
    requires
        wf(a),
    ensures
        wf(spec_inverse(a)),
{
    let v = spec_inverse(a);
    lemma_inverse_lanes(a);
    assert forall|i: int, j: int| 0 <= i < 8 && 0 <= j < 8 && i != j implies cp_of(#[trigger] v[i]) != cp_of(#[trigger] v[j]) by {
        lemma_slot_of(a, i);
        lemma_slot_of(a, j);
    }
}

/// Composing valid corners with their inverse, in either order, gives the solved corners.
pub proof fn lemma_compose_inverse(a: Seq<u8>)
    requires
        wf(a),
    ensures
        wf(spec_inverse(a)),
        spec_compose(a, spec_inverse(a)) == spec_ident(),
        spec_compose(spec_inverse(a), a) == spec_ident(),
{
    lemma_inverse_wf(a);
    lemma_compose_inverse_right(a);
    lemma_compose_inverse_left(a);
}

proof fn lemma_compose_inverse_right(a: Seq<u8>)
    requires
        wf(a),
    ensures
        spec_compose(a, spec_inverse(a)) == spec_ident(),
{
    let v = spec_inverse(a);
    lemma_inverse_wf(a);
    lemma_inverse_lanes(a);
    lemma_compose_wf(a, v);
    let c = spec_compose(a, v);
    assert forall|i: int| 0 <= i < 8 implies cp_of(#[trigger] c[i]) == cp_of(spec_ident()[i])
        && co_of(c[i]) == co_of(spec_ident()[i]) by {
        lemma_slot_of(a, i);
    }
    lemma_wf_eq(c, spec_ident());
}

proof fn lemma_compose_inverse_left(a: Seq<u8>)
    requires
        wf(a),
    ensures
        spec_compose(spec_inverse(a), a) == spec_ident(),
{
    let v = spec_inverse(a);
    lemma_inverse_wf(a);
    lemma_inverse_lanes(a);
    lemma_compose_wf(v, a);
    let c = spec_compose(v, a);
    assert forall|i: int| 0 <= i < 8 implies cp_of(#[trigger] c[i]) == cp_of(spec_ident()[i])
        && co_of(c[i]) == co_of(spec_ident()[i]) by {
        let k = cp_of(a[i]);
        lemma_slot_of(a, k);
    }
    lemma_wf_eq(c, spec_ident());
}

/// Valid corners stay valid under any moves.
pub proof fn lemma_apply_moves_wf(c: Seq<u8>, ms: Seq<Move>)
    requires
        wf(c),
    ensures
        wf(spec_apply_moves(c, ms)),
    decreases ms.len(),
{
    if ms.len() > 0 {
        lemma_apply_moves_wf(c, ms.drop_last());
        lemma_move_wf(ms.last());
        lemma_compose_wf(spec_apply_moves(c, ms.drop_last()), spec_move(ms.last()));
    }
}


/// Slot `i` of `c` has the piece and twist that composing `a` and then `b` brings there.
spec fn composes_to(a: Seq<u8>, b: Seq<u8>, c: Seq<u8>, i: int) -> bool {
    cp_of(c[i]) == cp_of(a[cp_of(b[i])]) && co_of(c[i]) == (co_of(a[cp_of(b[i])]) + co_of(b[i])) % 3
}

/// Valid corners `a` then `b` compose to valid corners `c` that agree with them slot by slot.
proof fn lemma_composes_to(a: Seq<u8>, b: Seq<u8>, c: Seq<u8>)
    requires
        wf(a),
        wf(b),
        wf(c),
        composes_to(a, b, c, 0),
        composes_to(a, b, c, 1),
        composes_to(a, b, c, 2),
        composes_to(a, b, c, 3),
        composes_to(a, b, c, 4),
        composes_to(a, b, c, 5),
        composes_to(a, b, c, 6),
        composes_to(a, b, c, 7),
    ensures
        spec_compose(a, b) == c,
{
    lemma_compose_wf(a, b);
    let ab = spec_compose(a, b);
    assert forall|i: int| 0 <= i < 8 implies cp_of(#[trigger] ab[i]) == cp_of(c[i]) && co_of(ab[i]) == co_of(c[i]) by {
        assert(cp_of(ab[i]) == cp_of(a[cp_of(b[i])]));
        assert(co_of(ab[i]) == (co_of(a[cp_of(b[i])]) + co_of(b[i])) % 3);
        if i == 0 {
        } else if i == 1 {
        } else if i == 2 {
        } else if i == 3 {
        } else if i == 4 {
        } else if i == 5 {
        } else if i == 6 {
        } else {
            assert(i == 7);
        }
    }
    assert forall|i: int| 0 <= i < 8 implies #[trigger] ab[i] < 24 && c[i] < 24 by {
        assert(lane_ok(ab[i]));
        assert(lane_ok(c[i]));
    }
    lemma_wf_eq(ab, c);
}

/// Turning U a quarter and back does nothing, and two quarters make a half turn.
#[verifier::spinoff_prover]
proof fn lemma_turns_u()
    ensures
        spec_compose(spec_move(Move::U), spec_move(Move::U3)) == spec_ident(),
        spec_compose(spec_move(Move::U), spec_move(Move::U)) == spec_move(Move::U2),
{
    lemma_move_lanes_u();
    lemma_move_lanes_u2();
    lemma_move_lanes_u3();
    lemma_ident_wf();
    assert(spec_ident() =~= seq![0u8, 1u8, 2u8, 3u8, 4u8, 5u8, 6u8, 7u8]);
    lemma_composes_to(spec_move(Move::U), spec_move(Move::U3), spec_ident());
    lemma_composes_to(spec_move(Move::U), spec_move(Move::U), spec_move(Move::U2));
}

/// Turning D a quarter and back does nothing, and two quarters make a half turn.
#[verifier::spinoff_prover]
proof fn lemma_turns_d()
    ensures
        spec_compose(spec_move(Move::D), spec_move(Move::D3)) == spec_ident(),
        spec_compose(spec_move(Move::D), spec_move(Move::D)) == spec_move(Move::D2),
{
    lemma_move_lanes_d();
    lemma_move_lanes_d2();
    lemma_move_lanes_d3();
    lemma_ident_wf();
    assert(spec_ident() =~= seq![0u8, 1u8, 2u8, 3u8, 4u8, 5u8, 6u8, 7u8]);
    lemma_composes_to(spec_move(Move::D), spec_move(Move::D3), spec_ident());
    lemma_composes_to(spec_move(Move::D), spec_move(Move::D), spec_move(Move::D2));
}

/// Turning F a quarter and back does nothing, and two quarters make a half turn.
#[verifier::spinoff_prover]
proof fn lemma_turns_f()
    ensures
        spec_compose(spec_move(Move::F), spec_move(Move::F3)) == spec_ident(),
        spec_compose(spec_move(Move::F), spec_move(Move::F)) == spec_move(Move::F2),
{
    lemma_move_lanes_f();
    lemma_move_lanes_f2();
    lemma_move_lanes_f3();
    lemma_ident_wf();
    assert(spec_ident() =~= seq![0u8, 1u8, 2u8, 3u8, 4u8, 5u8, 6u8, 7u8]);
    lemma_composes_to(spec_move(Move::F), spec_move(Move::F3), spec_ident());
    lemma_composes_to(spec_move(Move::F), spec_move(Move::F), spec_move(Move::F2));
}

/// Turning B a quarter and back does nothing, and two quarters make a half turn.
#[verifier::spinoff_prover]
proof fn lemma_turns_b()
    ensures
        spec_compose(spec_move(Move::B), spec_move(Move::B3)) == spec_ident(),
        spec_compose(spec_move(Move::B), spec_move(Move::B)) == spec_move(Move::B2),
{
    lemma_move_lanes_b();
    lemma_move_lanes_b2();
    lemma_move_lanes_b3();
    lemma_ident_wf();
    assert(spec_ident() =~= seq![0u8, 1u8, 2u8, 3u8, 4u8, 5u8, 6u8, 7u8]);
    lemma_composes_to(spec_move(Move::B), spec_move(Move::B3), spec_ident());
    lemma_composes_to(spec_move(Move::B), spec_move(Move::B), spec_move(Move::B2));
}

/// Turning R a quarter and back does nothing, and two quarters make a half turn.
#[verifier::spinoff_prover]
proof fn lemma_turns_r()
    ensures
        spec_compose(spec_move(Move::R), spec_move(Move::R3)) == spec_ident(),
        spec_compose(spec_move(Move::R), spec_move(Move::R)) == spec_move(Move::R2),
{
    lemma_move_lanes_r();
    lemma_move_lanes_r2();
    lemma_move_lanes_r3();
    lemma_ident_wf();
    assert(spec_ident() =~= seq![0u8, 1u8, 2u8, 3u8, 4u8, 5u8, 6u8, 7u8]);
    lemma_composes_to(spec_move(Move::R), spec_move(Move::R3), spec_ident());
    lemma_composes_to(spec_move(Move::R), spec_move(Move::R), spec_move(Move::R2));
}

/// Turning L a quarter and back does nothing, and two quarters make a half turn.
#[verifier::spinoff_prover]
proof fn lemma_turns_l()
    ensures
        spec_compose(spec_move(Move::L), spec_move(Move::L3)) == spec_ident(),
        spec_compose(spec_move(Move::L), spec_move(Move::L)) == spec_move(Move::L2),
{
    lemma_move_lanes_l();
    lemma_move_lanes_l2();
    lemma_move_lanes_l3();
    lemma_ident_wf();
    assert(spec_ident() =~= seq![0u8, 1u8, 2u8, 3u8, 4u8, 5u8, 6u8, 7u8]);
    lemma_composes_to(spec_move(Move::L), spec_move(Move::L3), spec_ident());
    lemma_composes_to(spec_move(Move::L), spec_move(Move::L), spec_move(Move::L2));
}

/// On valid corners, a quarter turn of a face followed by the turn the other way leaves
/// them as they were, and a half turn of the face is two quarter turns.
pub proof fn lemma_quarter_turns(c: Seq<u8>, m: Move)
    requires
        wf(c),
        (m as u8) % 3 == 0,
    ensures
        spec_compose(spec_compose(c, spec_move(m)), spec_move(Move::spec_from_index(((m as u8) + 2) as u8))) == c,
        spec_compose(c, spec_move(Move::spec_from_index(((m as u8) + 1) as u8)))
            == spec_compose(spec_compose(c, spec_move(m)), spec_move(m)),
{
    let q2 = Move::spec_from_index(((m as u8) + 1) as u8);
    let q3 = Move::spec_from_index(((m as u8) + 2) as u8);
    match m {
        Move::U => lemma_turns_u(),
        Move::D => lemma_turns_d(),
        Move::F => lemma_turns_f(),
        Move::B => lemma_turns_b(),
        Move::R => lemma_turns_r(),
        Move::L => lemma_turns_l(),
        _ => {},
    }
    lemma_move_wf(m);
    lemma_move_wf(q2);
    lemma_move_wf(q3);
    lemma_compose_assoc(c, spec_move(m), spec_move(q3));
    lemma_compose_assoc(c, spec_move(m), spec_move(m));
    lemma_compose_ident(c);
}

/// Corners `a` then `b` and corners `c` then `d` agree at slot `i`.
spec fn composes_same(a: Seq<u8>, b: Seq<u8>, c: Seq<u8>, d: Seq<u8>, i: int) -> bool {
    cp_of(a[cp_of(b[i])]) == cp_of(c[cp_of(d[i])])
        && (co_of(a[cp_of(b[i])]) + co_of(b[i])) % 3 == (co_of(c[cp_of(d[i])]) + co_of(d[i])) % 3
}

/// Valid corners that agree slot by slot compose alike.
proof fn lemma_composes_same(a: Seq<u8>, b: Seq<u8>, c: Seq<u8>, d: Seq<u8>)
    requires
        wf(a),
        wf(b),
        wf(c),
        wf(d),
        composes_same(a, b, c, d, 0),
        composes_same(a, b, c, d, 1),
        composes_same(a, b, c, d, 2),
        composes_same(a, b, c, d, 3),
        composes_same(a, b, c, d, 4),
        composes_same(a, b, c, d, 5),
        composes_same(a, b, c, d, 6),
        composes_same(a, b, c, d, 7),
    ensures
        spec_compose(a, b) == spec_compose(c, d),
{
    lemma_compose_wf(a, b);
    lemma_compose_wf(c, d);
    let x = spec_compose(a, b);
    let y = spec_compose(c, d);
    assert forall|i: int| 0 <= i < 8 implies cp_of(#[trigger] x[i]) == cp_of(y[i]) && co_of(x[i]) == co_of(y[i]) by {
        if i == 0 { assert(composes_same(a, b, c, d, 0)); }
        else if i == 1 { assert(composes_same(a, b, c, d, 1)); }
        else if i == 2 { assert(composes_same(a, b, c, d, 2)); }
        else if i == 3 { assert(composes_same(a, b, c, d, 3)); }
        else if i == 4 { assert(composes_same(a, b, c, d, 4)); }
        else if i == 5 { assert(composes_same(a, b, c, d, 5)); }
        else if i == 6 { assert(composes_same(a, b, c, d, 6)); }
        else if i == 7 { assert(composes_same(a, b, c, d, 7)); }
    }
    assert forall|i: int| 0 <= i < 8 implies #[trigger] x[i] < 24 && y[i] < 24 by {
        assert(lane_ok(x[i]));
        assert(lane_ok(y[i]));
    }
    lemma_wf_eq(x, y);
}

/// Two turns of U add up to one, or to none.
#[verifier::spinoff_prover]
proof fn lemma_face_add_u(a: int, b: int)
    requires
        1 <= a <= 3,
        1 <= b <= 3,
    ensures
        spec_compose(spec_move(spec_face_move(Face::U, a)), spec_move(spec_face_move(Face::U, b)))
            == if (a + b) % 4 == 0 { spec_ident() } else { spec_move(spec_face_move(Face::U, (a + b) % 4)) },
{
    lemma_move_lanes_u();
    lemma_move_lanes_u2();
    lemma_move_lanes_u3();
    lemma_ident_wf();
    assert(spec_ident() =~= seq![0u8, 1u8, 2u8, 3u8, 4u8, 5u8, 6u8, 7u8]);
    assert(spec_face_move(Face::U, 1) == Move::U);
    assert(spec_face_move(Face::U, 2) == Move::U2);
    assert(spec_face_move(Face::U, 3) == Move::U3);
    if a == 1 && b == 1 {
        lemma_composes_to(spec_move(Move::U), spec_move(Move::U), spec_move(Move::U2));
    } else if a == 1 && b == 2 {
        lemma_composes_to(spec_move(Move::U), spec_move(Move::U2), spec_move(Move::U3));
    } else if a == 1 && b == 3 {
        lemma_composes_to(spec_move(Move::U), spec_move(Move::U3), spec_ident());
    } else if a == 2 && b == 1 {
        lemma_composes_to(spec_move(Move::U2), spec_move(Move::U), spec_move(Move::U3));
    } else if a == 2 && b == 2 {
        lemma_composes_to(spec_move(Move::U2), spec_move(Move::U2), spec_ident());
    } else if a == 2 && b == 3 {
        lemma_composes_to(spec_move(Move::U2), spec_move(Move::U3), spec_move(Move::U));
    } else if a == 3 && b == 1 {
        lemma_composes_to(spec_move(Move::U3), spec_move(Move::U), spec_ident());
    } else if a == 3 && b == 2 {
        lemma_composes_to(spec_move(Move::U3), spec_move(Move::U2), spec_move(Move::U));
    } else {
        lemma_composes_to(spec_move(Move::U3), spec_move(Move::U3), spec_move(Move::U2));
    }
}


/// Two turns of D add up to one, or to none.
#[verifier::spinoff_prover]
proof fn lemma_face_add_d(a: int, b: int)
    requires
        1 <= a <= 3,
        1 <= b <= 3,
    ensures
        spec_compose(spec_move(spec_face_move(Face::D, a)), spec_move(spec_face_move(Face::D, b)))
            == if (a + b) % 4 == 0 { spec_ident() } else { spec_move(spec_face_move(Face::D, (a + b) % 4)) },
{
    lemma_move_lanes_d();
    lemma_move_lanes_d2();
    lemma_move_lanes_d3();
    lemma_ident_wf();
    assert(spec_ident() =~= seq![0u8, 1u8, 2u8, 3u8, 4u8, 5u8, 6u8, 7u8]);
    assert(spec_face_move(Face::D, 1) == Move::D);
    assert(spec_face_move(Face::D, 2) == Move::D2);
    assert(spec_face_move(Face::D, 3) == Move::D3);
    if a == 1 && b == 1 {
        lemma_composes_to(spec_move(Move::D), spec_move(Move::D), spec_move(Move::D2));
    } else if a == 1 && b == 2 {
        lemma_composes_to(spec_move(Move::D), spec_move(Move::D2), spec_move(Move::D3));
    } else if a == 1 && b == 3 {
        lemma_composes_to(spec_move(Move::D), spec_move(Move::D3), spec_ident());
    } else if a == 2 && b == 1 {
        lemma_composes_to(spec_move(Move::D2), spec_move(Move::D), spec_move(Move::D3));
    } else if a == 2 && b == 2 {
        lemma_composes_to(spec_move(Move::D2), spec_move(Move::D2), spec_ident());
    } else if a == 2 && b == 3 {
        lemma_composes_to(spec_move(Move::D2), spec_move(Move::D3), spec_move(Move::D));
    } else if a == 3 && b == 1 {
        lemma_composes_to(spec_move(Move::D3), spec_move(Move::D), spec_ident());
    } else if a == 3 && b == 2 {
        lemma_composes_to(spec_move(Move::D3), spec_move(Move::D2), spec_move(Move::D));
    } else {
        lemma_composes_to(spec_move(Move::D3), spec_move(Move::D3), spec_move(Move::D2));
    }
}


/// Two turns of F add up to one, or to none.
#[verifier::spinoff_prover]
proof fn lemma_face_add_f(a: int, b: int)
    requires
        1 <= a <= 3,
        1 <= b <= 3,
    ensures
        spec_compose(spec_move(spec_face_move(Face::F, a)), spec_move(spec_face_move(Face::F, b)))
            == if (a + b) % 4 == 0 { spec_ident() } else { spec_move(spec_face_move(Face::F, (a + b) % 4)) },
{
    lemma_move_lanes_f();
    lemma_move_lanes_f2();
    lemma_move_lanes_f3();
    lemma_ident_wf();
    assert(spec_ident() =~= seq![0u8, 1u8, 2u8, 3u8, 4u8, 5u8, 6u8, 7u8]);
    assert(spec_face_move(Face::F, 1) == Move::F);
    assert(spec_face_move(Face::F, 2) == Move::F2);
    assert(spec_face_move(Face::F, 3) == Move::F3);
    if a == 1 && b == 1 {
        lemma_composes_to(spec_move(Move::F), spec_move(Move::F), spec_move(Move::F2));
    } else if a == 1 && b == 2 {
        lemma_composes_to(spec_move(Move::F), spec_move(Move::F2), spec_move(Move::F3));
    } else if a == 1 && b == 3 {
        lemma_composes_to(spec_move(Move::F), spec_move(Move::F3), spec_ident());
    } else if a == 2 && b == 1 {
        lemma_composes_to(spec_move(Move::F2), spec_move(Move::F), spec_move(Move::F3));
    } else if a == 2 && b == 2 {
        lemma_composes_to(spec_move(Move::F2), spec_move(Move::F2), spec_ident());
    } else if a == 2 && b == 3 {
        lemma_composes_to(spec_move(Move::F2), spec_move(Move::F3), spec_move(Move::F));
    } else if a == 3 && b == 1 {
        lemma_composes_to(spec_move(Move::F3), spec_move(Move::F), spec_ident());
    } else if a == 3 && b == 2 {
        lemma_composes_to(spec_move(Move::F3), spec_move(Move::F2), spec_move(Move::F));
    } else {
        lemma_composes_to(spec_move(Move::F3), spec_move(Move::F3), spec_move(Move::F2));
    }
}


/// Two turns of B add up to one, or to none.
#[verifier::spinoff_prover]
proof fn lemma_face_add_b(a: int, b: int)
    requires
        1 <= a <= 3,
        1 <= b <= 3,
    ensures
        spec_compose(spec_move(spec_face_move(Face::B, a)), spec_move(spec_face_move(Face::B, b)))
            == if (a + b) % 4 == 0 { spec_ident() } else { spec_move(spec_face_move(Face::B, (a + b) % 4)) },
{
    lemma_move_lanes_b();
    lemma_move_lanes_b2();
    lemma_move_lanes_b3();
    lemma_ident_wf();
    assert(spec_ident() =~= seq![0u8, 1u8, 2u8, 3u8, 4u8, 5u8, 6u8, 7u8]);
    assert(spec_face_move(Face::B, 1) == Move::B);
    assert(spec_face_move(Face::B, 2) == Move::B2);
    assert(spec_face_move(Face::B, 3) == Move::B3);
    if a == 1 && b == 1 {
        lemma_composes_to(spec_move(Move::B), spec_move(Move::B), spec_move(Move::B2));
    } else if a == 1 && b == 2 {
        lemma_composes_to(spec_move(Move::B), spec_move(Move::B2), spec_move(Move::B3));
    } else if a == 1 && b == 3 {
        lemma_composes_to(spec_move(Move::B), spec_move(Move::B3), spec_ident());
    } else if a == 2 && b == 1 {
        lemma_composes_to(spec_move(Move::B2), spec_move(Move::B), spec_move(Move::B3));
    } else if a == 2 && b == 2 {
        lemma_composes_to(spec_move(Move::B2), spec_move(Move::B2), spec_ident());
    } else if a == 2 && b == 3 {
        lemma_composes_to(spec_move(Move::B2), spec_move(Move::B3), spec_move(Move::B));
    } else if a == 3 && b == 1 {
        lemma_composes_to(spec_move(Move::B3), spec_move(Move::B), spec_ident());
    } else if a == 3 && b == 2 {
        lemma_composes_to(spec_move(Move::B3), spec_move(Move::B2), spec_move(Move::B));
    } else {
        lemma_composes_to(spec_move(Move::B3), spec_move(Move::B3), spec_move(Move::B2));
    }
}


/// Two turns of R add up to one, or to none.
#[verifier::spinoff_prover]
proof fn lemma_face_add_r(a: int, b: int)
    requires
        1 <= a <= 3,
        1 <= b <= 3,
    ensures
        spec_compose(spec_move(spec_face_move(Face::R, a)), spec_move(spec_face_move(Face::R, b)))
            == if (a + b) % 4 == 0 { spec_ident() } else { spec_move(spec_face_move(Face::R, (a + b) % 4)) },
{
    lemma_move_lanes_r();
    lemma_move_lanes_r2();
    lemma_move_lanes_r3();
    lemma_ident_wf();
    assert(spec_ident() =~= seq![0u8, 1u8, 2u8, 3u8, 4u8, 5u8, 6u8, 7u8]);
    assert(spec_face_move(Face::R, 1) == Move::R);
    assert(spec_face_move(Face::R, 2) == Move::R2);
    assert(spec_face_move(Face::R, 3) == Move::R3);
    if a == 1 && b == 1 {
        lemma_composes_to(spec_move(Move::R), spec_move(Move::R), spec_move(Move::R2));
    } else if a == 1 && b == 2 {
        lemma_composes_to(spec_move(Move::R), spec_move(Move::R2), spec_move(Move::R3));
    } else if a == 1 && b == 3 {
        lemma_composes_to(spec_move(Move::R), spec_move(Move::R3), spec_ident());
    } else if a == 2 && b == 1 {
        lemma_composes_to(spec_move(Move::R2), spec_move(Move::R), spec_move(Move::R3));
    } else if a == 2 && b == 2 {
        lemma_composes_to(spec_move(Move::R2), spec_move(Move::R2), spec_ident());
    } else if a == 2 && b == 3 {
        lemma_composes_to(spec_move(Move::R2), spec_move(Move::R3), spec_move(Move::R));
    } else if a == 3 && b == 1 {
        lemma_composes_to(spec_move(Move::R3), spec_move(Move::R), spec_ident());
    } else if a == 3 && b == 2 {
        lemma_composes_to(spec_move(Move::R3), spec_move(Move::R2), spec_move(Move::R));
    } else {
        lemma_composes_to(spec_move(Move::R3), spec_move(Move::R3), spec_move(Move::R2));
    }
}


/// Two turns of L add up to one, or to none.
#[verifier::spinoff_prover]
proof fn lemma_face_add_l(a: int, b: int)
    requires
        1 <= a <= 3,
        1 <= b <= 3,
    ensures
        spec_compose(spec_move(spec_face_move(Face::L, a)), spec_move(spec_face_move(Face::L, b)))
            == if (a + b) % 4 == 0 { spec_ident() } else { spec_move(spec_face_move(Face::L, (a + b) % 4)) },
{
    lemma_move_lanes_l();
    lemma_move_lanes_l2();
    lemma_move_lanes_l3();
    lemma_ident_wf();
    assert(spec_ident() =~= seq![0u8, 1u8, 2u8, 3u8, 4u8, 5u8, 6u8, 7u8]);
    assert(spec_face_move(Face::L, 1) == Move::L);
    assert(spec_face_move(Face::L, 2) == Move::L2);
    assert(spec_face_move(Face::L, 3) == Move::L3);
    if a == 1 && b == 1 {
        lemma_composes_to(spec_move(Move::L), spec_move(Move::L), spec_move(Move::L2));
    } else if a == 1 && b == 2 {
        lemma_composes_to(spec_move(Move::L), spec_move(Move::L2), spec_move(Move::L3));
    } else if a == 1 && b == 3 {
        lemma_composes_to(spec_move(Move::L), spec_move(Move::L3), spec_ident());
    } else if a == 2 && b == 1 {
        lemma_composes_to(spec_move(Move::L2), spec_move(Move::L), spec_move(Move::L3));
    } else if a == 2 && b == 2 {
        lemma_composes_to(spec_move(Move::L2), spec_move(Move::L2), spec_ident());
    } else if a == 2 && b == 3 {
        lemma_composes_to(spec_move(Move::L2), spec_move(Move::L3), spec_move(Move::L));
    } else if a == 3 && b == 1 {
        lemma_composes_to(spec_move(Move::L3), spec_move(Move::L), spec_ident());
    } else if a == 3 && b == 2 {
        lemma_composes_to(spec_move(Move::L3), spec_move(Move::L2), spec_move(Move::L));
    } else {
        lemma_composes_to(spec_move(Move::L3), spec_move(Move::L3), spec_move(Move::L2));
    }
}


/// Turns of U and of D commute.
#[verifier::spinoff_prover]
proof fn lemma_axis_commute_ud()
    ensures
        spec_compose(spec_move(Move::U), spec_move(Move::D)) == spec_compose(spec_move(Move::D), spec_move(Move::U)),
        spec_compose(spec_move(Move::U), spec_move(Move::D2)) == spec_compose(spec_move(Move::D2), spec_move(Move::U)),
        spec_compose(spec_move(Move::U), spec_move(Move::D3)) == spec_compose(spec_move(Move::D3), spec_move(Move::U)),
        spec_compose(spec_move(Move::U2), spec_move(Move::D)) == spec_compose(spec_move(Move::D), spec_move(Move::U2)),
        spec_compose(spec_move(Move::U2), spec_move(Move::D2)) == spec_compose(spec_move(Move::D2), spec_move(Move::U2)),
        spec_compose(spec_move(Move::U2), spec_move(Move::D3)) == spec_compose(spec_move(Move::D3), spec_move(Move::U2)),
        spec_compose(spec_move(Move::U3), spec_move(Move::D)) == spec_compose(spec_move(Move::D), spec_move(Move::U3)),
        spec_compose(spec_move(Move::U3), spec_move(Move::D2)) == spec_compose(spec_move(Move::D2), spec_move(Move::U3)),
        spec_compose(spec_move(Move::U3), spec_move(Move::D3)) == spec_compose(spec_move(Move::D3), spec_move(Move::U3)),
{
    lemma_move_lanes_u();
    lemma_move_lanes_u2();
    lemma_move_lanes_u3();
    lemma_move_lanes_d();
    lemma_move_lanes_d2();
    lemma_move_lanes_d3();
    lemma_composes_same(spec_move(Move::U), spec_move(Move::D), spec_move(Move::D), spec_move(Move::U));
    lemma_composes_same(spec_move(Move::U), spec_move(Move::D2), spec_move(Move::D2), spec_move(Move::U));
    lemma_composes_same(spec_move(Move::U), spec_move(Move::D3), spec_move(Move::D3), spec_move(Move::U));
    lemma_composes_same(spec_move(Move::U2), spec_move(Move::D), spec_move(Move::D), spec_move(Move::U2));
    lemma_composes_same(spec_move(Move::U2), spec_move(Move::D2), spec_move(Move::D2), spec_move(Move::U2));
    lemma_composes_same(spec_move(Move::U2), spec_move(Move::D3), spec_move(Move::D3), spec_move(Move::U2));
    lemma_composes_same(spec_move(Move::U3), spec_move(Move::D), spec_move(Move::D), spec_move(Move::U3));
    lemma_composes_same(spec_move(Move::U3), spec_move(Move::D2), spec_move(Move::D2), spec_move(Move::U3));
    lemma_composes_same(spec_move(Move::U3), spec_move(Move::D3), spec_move(Move::D3), spec_move(Move::U3));
}

/// Turns of F and of B commute.
#[verifier::spinoff_prover]
proof fn lemma_axis_commute_fb()
    ensures
        spec_compose(spec_move(Move::F), spec_move(Move::B)) == spec_compose(spec_move(Move::B), spec_move(Move::F)),
        spec_compose(spec_move(Move::F), spec_move(Move::B2)) == spec_compose(spec_move(Move::B2), spec_move(Move::F)),
        spec_compose(spec_move(Move::F), spec_move(Move::B3)) == spec_compose(spec_move(Move::B3), spec_move(Move::F)),
        spec_compose(spec_move(Move::F2), spec_move(Move::B)) == spec_compose(spec_move(Move::B), spec_move(Move::F2)),
        spec_compose(spec_move(Move::F2), spec_move(Move::B2)) == spec_compose(spec_move(Move::B2), spec_move(Move::F2)),
        spec_compose(spec_move(Move::F2), spec_move(Move::B3)) == spec_compose(spec_move(Move::B3), spec_move(Move::F2)),
        spec_compose(spec_move(Move::F3), spec_move(Move::B)) == spec_compose(spec_move(Move::B), spec_move(Move::F3)),
        spec_compose(spec_move(Move::F3), spec_move(Move::B2)) == spec_compose(spec_move(Move::B2), spec_move(Move::F3)),
        spec_compose(spec_move(Move::F3), spec_move(Move::B3)) == spec_compose(spec_move(Move::B3), spec_move(Move::F3)),
{
    lemma_move_lanes_f();
    lemma_move_lanes_f2();
    lemma_move_lanes_f3();
    lemma_move_lanes_b();
    lemma_move_lanes_b2();
    lemma_move_lanes_b3();
    lemma_composes_same(spec_move(Move::F), spec_move(Move::B), spec_move(Move::B), spec_move(Move::F));
    lemma_composes_same(spec_move(Move::F), spec_move(Move::B2), spec_move(Move::B2), spec_move(Move::F));
    lemma_composes_same(spec_move(Move::F), spec_move(Move::B3), spec_move(Move::B3), spec_move(Move::F));
    lemma_composes_same(spec_move(Move::F2), spec_move(Move::B), spec_move(Move::B), spec_move(Move::F2));
    lemma_composes_same(spec_move(Move::F2), spec_move(Move::B2), spec_move(Move::B2), spec_move(Move::F2));
    lemma_composes_same(spec_move(Move::F2), spec_move(Move::B3), spec_move(Move::B3), spec_move(Move::F2));
    lemma_composes_same(spec_move(Move::F3), spec_move(Move::B), spec_move(Move::B), spec_move(Move::F3));
    lemma_composes_same(spec_move(Move::F3), spec_move(Move::B2), spec_move(Move::B2), spec_move(Move::F3));
    lemma_composes_same(spec_move(Move::F3), spec_move(Move::B3), spec_move(Move::B3), spec_move(Move::F3));
}

/// Turns of R and of L commute.
#[verifier::spinoff_prover]
proof fn lemma_axis_commute_lr()
    ensures
        spec_compose(spec_move(Move::R), spec_move(Move::L)) == spec_compose(spec_move(Move::L), spec_move(Move::R)),
        spec_compose(spec_move(Move::R), spec_move(Move::L2)) == spec_compose(spec_move(Move::L2), spec_move(Move::R)),
        spec_compose(spec_move(Move::R), spec_move(Move::L3)) == spec_compose(spec_move(Move::L3), spec_move(Move::R)),
        spec_compose(spec_move(Move::R2), spec_move(Move::L)) == spec_compose(spec_move(Move::L), spec_move(Move::R2)),
        spec_compose(spec_move(Move::R2), spec_move(Move::L2)) == spec_compose(spec_move(Move::L2), spec_move(Move::R2)),
        spec_compose(spec_move(Move::R2), spec_move(Move::L3)) == spec_compose(spec_move(Move::L3), spec_move(Move::R2)),
        spec_compose(spec_move(Move::R3), spec_move(Move::L)) == spec_compose(spec_move(Move::L), spec_move(Move::R3)),
        spec_compose(spec_move(Move::R3), spec_move(Move::L2)) == spec_compose(spec_move(Move::L2), spec_move(Move::R3)),
        spec_compose(spec_move(Move::R3), spec_move(Move::L3)) == spec_compose(spec_move(Move::L3), spec_move(Move::R3)),
{
    lemma_move_lanes_r();
    lemma_move_lanes_r2();
    lemma_move_lanes_r3();
    lemma_move_lanes_l();
    lemma_move_lanes_l2();
    lemma_move_lanes_l3();
    lemma_composes_same(spec_move(Move::R), spec_move(Move::L), spec_move(Move::L), spec_move(Move::R));
    lemma_composes_same(spec_move(Move::R), spec_move(Move::L2), spec_move(Move::L2), spec_move(Move::R));
    lemma_composes_same(spec_move(Move::R), spec_move(Move::L3), spec_move(Move::L3), spec_move(Move::R));
    lemma_composes_same(spec_move(Move::R2), spec_move(Move::L), spec_move(Move::L), spec_move(Move::R2));
    lemma_composes_same(spec_move(Move::R2), spec_move(Move::L2), spec_move(Move::L2), spec_move(Move::R2));
    lemma_composes_same(spec_move(Move::R2), spec_move(Move::L3), spec_move(Move::L3), spec_move(Move::R2));
    lemma_composes_same(spec_move(Move::R3), spec_move(Move::L), spec_move(Move::L), spec_move(Move::R3));
    lemma_composes_same(spec_move(Move::R3), spec_move(Move::L2), spec_move(Move::L2), spec_move(Move::R3));
    lemma_composes_same(spec_move(Move::R3), spec_move(Move::L3), spec_move(Move::L3), spec_move(Move::R3));
}

/// Two turns of one face add up: to the turn by the sum of their quarter turns, or to
/// nothing when that is a whole number of turns.
pub proof fn lemma_face_turns_add(f: Face, a: int, b: int)
    requires
        1 <= a <= 3,
        1 <= b <= 3,
    ensures
        spec_compose(spec_move(spec_face_move(f, a)), spec_move(spec_face_move(f, b)))
            == if (a + b) % 4 == 0 { spec_ident() } else { spec_move(spec_face_move(f, (a + b) % 4)) },
{
    match f {
        Face::U => lemma_face_add_u(a, b),
        Face::D => lemma_face_add_d(a, b),
        Face::F => lemma_face_add_f(a, b),
        Face::B => lemma_face_add_b(a, b),
        Face::R => lemma_face_add_r(a, b),
        Face::L => lemma_face_add_l(a, b),
    }
}

/// Turns of the two faces of one axis commute.
pub proof fn lemma_axis_turns_commute(ax: Axis, a: int, b: int)
    requires
        1 <= a <= 3,
        1 <= b <= 3,
    ensures
        spec_compose(spec_move(spec_face_move(spec_axis_primary(ax), a)), spec_move(spec_face_move(spec_axis_secondary(ax), b)))
            == spec_compose(spec_move(spec_face_move(spec_axis_secondary(ax), b)), spec_move(spec_face_move(spec_axis_primary(ax), a))),
{
    match ax {
        Axis::UD => lemma_axis_commute_ud(),
        Axis::FB => lemma_axis_commute_fb(),
        Axis::LR => lemma_axis_commute_lr(),
    }
}

/// The lanes of every move are valid corners.
pub proof fn lemma_move_wf(m: Move)
    ensures
        wf(spec_move(m)),
{
    match m {
        Move::U => lemma_move_lanes_u(),
        Move::U2 => lemma_move_lanes_u2(),
        Move::U3 => lemma_move_lanes_u3(),
        Move::D => lemma_move_lanes_d(),
        Move::D2 => lemma_move_lanes_d2(),
        Move::D3 => lemma_move_lanes_d3(),
        Move::F => lemma_move_lanes_f(),
        Move::F2 => lemma_move_lanes_f2(),
        Move::F3 => lemma_move_lanes_f3(),
        Move::B => lemma_move_lanes_b(),
        Move::B2 => lemma_move_lanes_b2(),
        Move::B3 => lemma_move_lanes_b3(),
        Move::R => lemma_move_lanes_r(),
        Move::R2 => lemma_move_lanes_r2(),
        Move::R3 => lemma_move_lanes_r3(),
        Move::L => lemma_move_lanes_l(),
        Move::L2 => lemma_move_lanes_l2(),
        Move::L3 => lemma_move_lanes_l3(),
    }
}

#[verifier::rlimit(80)]
#[verifier::spinoff_prover]
proof fn lemma_move_lanes_u()
    ensures
        wf(spec_move(Move::U)),
        spec_move(Move::U) == seq![3u8, 0u8, 1u8, 2u8, 4u8, 5u8, 6u8, 7u8],
{
    let a = spec_move(Move::U);
    let m = spec_move_magic(Move::U) as int;
    assert(m == 0x0706050402010003);
    assert(m / 0x100 == 0x7060504020100);
    assert(m / 0x10000 == 0x70605040201);
    assert(m / 0x1000000 == 0x706050402);
    assert(m / 0x100000000 == 0x7060504);
    assert(m / 0x10000000000 == 0x70605);
    assert(m / 0x1000000000000 == 0x706);
    assert(m / 0x100000000000000 == 0x7);
    assert(a[0] == 3);
    assert(a[1] == 0);
    assert(a[2] == 1);
    assert(a[3] == 2);
    assert(a[4] == 4);
    assert(a[5] == 5);
    assert(a[6] == 6);
    assert(a[7] == 7);
    assert(a =~= seq![3u8, 0u8, 1u8, 2u8, 4u8, 5u8, 6u8, 7u8]);
}

#[verifier::rlimit(80)]
#[verifier::spinoff_prover]
proof fn lemma_move_lanes_u2()
    ensures
        wf(spec_move(Move::U2)),
        spec_move(Move::U2) == seq![2u8, 3u8, 0u8, 1u8, 4u8, 5u8, 6u8, 7u8],
{
    let a = spec_move(Move::U2);
    let m = spec_move_magic(Move::U2) as int;
    assert(m == 0x0706050401000302);
    assert(m / 0x100 == 0x7060504010003);
    assert(m / 0x10000 == 0x70605040100);
    assert(m / 0x1000000 == 0x706050401);
    assert(m / 0x100000000 == 0x7060504);
    assert(m / 0x10000000000 == 0x70605);
    assert(m / 0x1000000000000 == 0x706);
    assert(m / 0x100000000000000 == 0x7);
    assert(a[0] == 2);
    assert(a[1] == 3);
    assert(a[2] == 0);
    assert(a[3] == 1);
    assert(a[4] == 4);
    assert(a[5] == 5);
    assert(a[6] == 6);
    assert(a[7] == 7);
    assert(a =~= seq![2u8, 3u8, 0u8, 1u8, 4u8, 5u8, 6u8, 7u8]);
}

#[verifier::rlimit(80)]
#[verifier::spinoff_prover]
proof fn lemma_move_lanes_u3()
    ensures
        wf(spec_move(Move::U3)),
        spec_move(Move::U3) == seq![1u8, 2u8, 3u8, 0u8, 4u8, 5u8, 6u8, 7u8],
{
    let a = spec_move(Move::U3);
    let m = spec_move_magic(Move::U3) as int;
    assert(m == 0x0706050400030201);
    assert(m / 0x100 == 0x7060504000302);
    assert(m / 0x10000 == 0x70605040003);
    assert(m / 0x1000000 == 0x706050400);
    assert(m / 0x100000000 == 0x7060504);
    assert(m / 0x10000000000 == 0x70605);
    assert(m / 0x1000000000000 == 0x706);
    assert(m / 0x100000000000000 == 0x7);
    assert(a[0] == 1);
    assert(a[1] == 2);
    assert(a[2] == 3);
    assert(a[3] == 0);
    assert(a[4] == 4);
    assert(a[5] == 5);
    assert(a[6] == 6);
    assert(a[7] == 7);
    assert(a =~= seq![1u8, 2u8, 3u8, 0u8, 4u8, 5u8, 6u8, 7u8]);
}

#[verifier::rlimit(80)]
#[verifier::spinoff_prover]
proof fn lemma_move_lanes_d()
    ensures
        wf(spec_move(Move::D)),
        spec_move(Move::D) == seq![0u8, 1u8, 2u8, 3u8, 7u8, 4u8, 5u8, 6u8],
{
    let a = spec_move(Move::D);
    let m = spec_move_magic(Move::D) as int;
    assert(m == 0x0605040703020100);
    assert(m / 0x100 == 0x6050407030201);
    assert(m / 0x10000 == 0x60504070302);
    assert(m / 0x1000000 == 0x605040703);
    assert(m / 0x100000000 == 0x6050407);
    assert(m / 0x10000000000 == 0x60504);
    assert(m / 0x1000000000000 == 0x605);
    assert(m / 0x100000000000000 == 0x6);
    assert(a[0] == 0);
    assert(a[1] == 1);
    assert(a[2] == 2);
    assert(a[3] == 3);
    assert(a[4] == 7);
    assert(a[5] == 4);
    assert(a[6] == 5);
    assert(a[7] == 6);
    assert(a =~= seq![0u8, 1u8, 2u8, 3u8, 7u8, 4u8, 5u8, 6u8]);
}

#[verifier::rlimit(80)]
#[verifier::spinoff_prover]
proof fn lemma_move_lanes_d2()
    ensures
        wf(spec_move(Move::D2)),
        spec_move(Move::D2) == seq![0u8, 1u8, 2u8, 3u8, 6u8, 7u8, 4u8, 5u8],
{
    let a = spec_move(Move::D2);
    let m = spec_move_magic(Move::D2) as int;
    assert(m == 0x0504070603020100);
    assert(m / 0x100 == 0x5040706030201);
    assert(m / 0x10000 == 0x50407060302);
    assert(m / 0x1000000 == 0x504070603);
    assert(m / 0x100000000 == 0x5040706);
    assert(m / 0x10000000000 == 0x50407);
    assert(m / 0x1000000000000 == 0x504);
    assert(m / 0x100000000000000 == 0x5);
    assert(a[0] == 0);
    assert(a[1] == 1);
    assert(a[2] == 2);
    assert(a[3] == 3);
    assert(a[4] == 6);
    assert(a[5] == 7);
    assert(a[6] == 4);
    assert(a[7] == 5);
    assert(a =~= seq![0u8, 1u8, 2u8, 3u8, 6u8, 7u8, 4u8, 5u8]);
}

#[verifier::rlimit(80)]
#[verifier::spinoff_prover]
proof fn lemma_move_lanes_d3()
    ensures
        wf(spec_move(Move::D3)),
        spec_move(Move::D3) == seq![0u8, 1u8, 2u8, 3u8, 5u8, 6u8, 7u8, 4u8],
{
    let a = spec_move(Move::D3);
    let m = spec_move_magic(Move::D3) as int;
    assert(m == 0x0407060503020100);
    assert(m / 0x100 == 0x4070605030201);
    assert(m / 0x10000 == 0x40706050302);
    assert(m / 0x1000000 == 0x407060503);
    assert(m / 0x100000000 == 0x4070605);
    assert(m / 0x10000000000 == 0x40706);
    assert(m / 0x1000000000000 == 0x407);
    assert(m / 0x100000000000000 == 0x4);
    assert(a[0] == 0);
    assert(a[1] == 1);
    assert(a[2] == 2);
    assert(a[3] == 3);
    assert(a[4] == 5);
    assert(a[5] == 6);
    assert(a[6] == 7);
    assert(a[7] == 4);
    assert(a =~= seq![0u8, 1u8, 2u8, 3u8, 5u8, 6u8, 7u8, 4u8]);
}

#[verifier::rlimit(80)]
#[verifier::spinoff_prover]
proof fn lemma_move_lanes_f()
    ensures
        wf(spec_move(Move::F)),
        spec_move(Move::F) == seq![0u8, 1u8, 19u8, 12u8, 21u8, 10u8, 6u8, 7u8],
{
    let a = spec_move(Move::F);
    let m = spec_move_magic(Move::F) as int;
    assert(m == 0x07060a150c130100);
    assert(m / 0x100 == 0x7060a150c1301);
    assert(m / 0x10000 == 0x7060a150c13);
    assert(m / 0x1000000 == 0x7060a150c);
    assert(m / 0x100000000 == 0x7060a15);
    assert(m / 0x10000000000 == 0x7060a);
    assert(m / 0x1000000000000 == 0x706);
    assert(m / 0x100000000000000 == 0x7);
    assert(a[0] == 0);
    assert(a[1] == 1);
    assert(a[2] == 19);
    assert(a[3] == 12);
    assert(a[4] == 21);
    assert(a[5] == 10);
    assert(a[6] == 6);
    assert(a[7] == 7);
    assert(a =~= seq![0u8, 1u8, 19u8, 12u8, 21u8, 10u8, 6u8, 7u8]);
}

#[verifier::rlimit(80)]
#[verifier::spinoff_prover]
proof fn lemma_move_lanes_f2()
    ensures
        wf(spec_move(Move::F2)),
        spec_move(Move::F2) == seq![0u8, 1u8, 4u8, 5u8, 2u8, 3u8, 6u8, 7u8],
{
    let a = spec_move(Move::F2);
    let m = spec_move_magic(Move::F2) as int;
    assert(m == 0x0706030205040100);
    assert(m / 0x100 == 0x7060302050401);
    assert(m / 0x10000 == 0x70603020504);
    assert(m / 0x1000000 == 0x706030205);
    assert(m / 0x100000000 == 0x7060302);
    assert(m / 0x10000000000 == 0x70603);
    assert(m / 0x1000000000000 == 0x706);
    assert(m / 0x100000000000000 == 0x7);
    assert(a[0] == 0);
    assert(a[1] == 1);
    assert(a[2] == 4);
    assert(a[3] == 5);
    assert(a[4] == 2);
    assert(a[5] == 3);
    assert(a[6] == 6);
    assert(a[7] == 7);
    assert(a =~= seq![0u8, 1u8, 4u8, 5u8, 2u8, 3u8, 6u8, 7u8]);
}

#[verifier::rlimit(80)]
#[verifier::spinoff_prover]
proof fn lemma_move_lanes_f3()
    ensures
        wf(spec_move(Move::F3)),
        spec_move(Move::F3) == seq![0u8, 1u8, 21u8, 10u8, 19u8, 12u8, 6u8, 7u8],
{
    let a = spec_move(Move::F3);
    let m = spec_move_magic(Move::F3) as int;
    assert(m == 0x07060c130a150100);
    assert(m / 0x100 == 0x7060c130a1501);
    assert(m / 0x10000 == 0x7060c130a15);
    assert(m / 0x1000000 == 0x7060c130a);
    assert(m / 0x100000000 == 0x7060c13);
    assert(m / 0x10000000000 == 0x7060c);
    assert(m / 0x1000000000000 == 0x706);
    assert(m / 0x100000000000000 == 0x7);
    assert(a[0] == 0);
    assert(a[1] == 1);
    assert(a[2] == 21);
    assert(a[3] == 10);
    assert(a[4] == 19);
    assert(a[5] == 12);
    assert(a[6] == 6);
    assert(a[7] == 7);
    assert(a =~= seq![0u8, 1u8, 21u8, 10u8, 19u8, 12u8, 6u8, 7u8]);
}

#[verifier::rlimit(80)]
#[verifier::spinoff_prover]
proof fn lemma_move_lanes_b()
    ensures
        wf(spec_move(Move::B)),
        spec_move(Move::B) == seq![17u8, 14u8, 2u8, 3u8, 4u8, 5u8, 23u8, 8u8],
{
    let a = spec_move(Move::B);
    let m = spec_move_magic(Move::B) as int;
    assert(m == 0x0817050403020e11);
    assert(m / 0x100 == 0x817050403020e);
    assert(m / 0x10000 == 0x81705040302);
    assert(m / 0x1000000 == 0x817050403);
    assert(m / 0x100000000 == 0x8170504);
    assert(m / 0x10000000000 == 0x81705);
    assert(m / 0x1000000000000 == 0x817);
    assert(m / 0x100000000000000 == 0x8);
    assert(a[0] == 17);
    assert(a[1] == 14);
    assert(a[2] == 2);
    assert(a[3] == 3);
    assert(a[4] == 4);
    assert(a[5] == 5);
    assert(a[6] == 23);
    assert(a[7] == 8);
    assert(a =~= seq![17u8, 14u8, 2u8, 3u8, 4u8, 5u8, 23u8, 8u8]);
}

#[verifier::rlimit(80)]
#[verifier::spinoff_prover]
proof fn lemma_move_lanes_b2()
    ensures
        wf(spec_move(Move::B2)),
        spec_move(Move::B2) == seq![6u8, 7u8, 2u8, 3u8, 4u8, 5u8, 0u8, 1u8],
{
    let a = spec_move(Move::B2);
    let m = spec_move_magic(Move::B2) as int;
    assert(m == 0x0100050403020706);
    assert(m / 0x100 == 0x1000504030207);
    assert(m / 0x10000 == 0x10005040302);
    assert(m / 0x1000000 == 0x100050403);
    assert(m / 0x100000000 == 0x1000504);
    assert(m / 0x10000000000 == 0x10005);
    assert(m / 0x1000000000000 == 0x100);
    assert(m / 0x100000000000000 == 0x1);
    assert(a[0] == 6);
    assert(a[1] == 7);
    assert(a[2] == 2);
    assert(a[3] == 3);
    assert(a[4] == 4);
    assert(a[5] == 5);
    assert(a[6] == 0);
    assert(a[7] == 1);
    assert(a =~= seq![6u8, 7u8, 2u8, 3u8, 4u8, 5u8, 0u8, 1u8]);
}

#[verifier::rlimit(80)]
#[verifier::spinoff_prover]
proof fn lemma_move_lanes_b3()
    ensures
        wf(spec_move(Move::B3)),
        spec_move(Move::B3) == seq![23u8, 8u8, 2u8, 3u8, 4u8, 5u8, 17u8, 14u8],
{
    let a = spec_move(Move::B3);
    let m = spec_move_magic(Move::B3) as int;
    assert(m == 0x0e11050403020817);
    assert(m / 0x100 == 0xe110504030208);
    assert(m / 0x10000 == 0xe1105040302);
    assert(m / 0x1000000 == 0xe11050403);
    assert(m / 0x100000000 == 0xe110504);
    assert(m / 0x10000000000 == 0xe1105);
    assert(m / 0x1000000000000 == 0xe11);
    assert(m / 0x100000000000000 == 0xe);
    assert(a[0] == 23);
    assert(a[1] == 8);
    assert(a[2] == 2);
    assert(a[3] == 3);
    assert(a[4] == 4);
    assert(a[5] == 5);
    assert(a[6] == 17);
    assert(a[7] == 14);
    assert(a =~= seq![23u8, 8u8, 2u8, 3u8, 4u8, 5u8, 17u8, 14u8]);
}

#[verifier::rlimit(80)]
#[verifier::spinoff_prover]
proof fn lemma_move_lanes_r()
    ensures
        wf(spec_move(Move::R)),
        spec_move(Move::R) == seq![0u8, 18u8, 13u8, 3u8, 4u8, 22u8, 9u8, 7u8],
{
    let a = spec_move(Move::R);
    let m = spec_move_magic(Move::R) as int;
    assert(m == 0x07091604030d1200);
    assert(m / 0x100 == 0x7091604030d12);
    assert(m / 0x10000 == 0x7091604030d);
    assert(m / 0x1000000 == 0x709160403);
    assert(m / 0x100000000 == 0x7091604);
    assert(m / 0x10000000000 == 0x70916);
    assert(m / 0x1000000000000 == 0x709);
    assert(m / 0x100000000000000 == 0x7);
    assert(a[0] == 0);
    assert(a[1] == 18);
    assert(a[2] == 13);
    assert(a[3] == 3);
    assert(a[4] == 4);
    assert(a[5] == 22);
    assert(a[6] == 9);
    assert(a[7] == 7);
    assert(a =~= seq![0u8, 18u8, 13u8, 3u8, 4u8, 22u8, 9u8, 7u8]);
}

#[verifier::rlimit(80)]
#[verifier::spinoff_prover]
proof fn lemma_move_lanes_r2()
    ensures
        wf(spec_move(Move::R2)),
        spec_move(Move::R2) == seq![0u8, 5u8, 6u8, 3u8, 4u8, 1u8, 2u8, 7u8],
{
    let a = spec_move(Move::R2);
    let m = spec_move_magic(Move::R2) as int;
    assert(m == 0x0702010403060500);
    assert(m / 0x100 == 0x7020104030605);
    assert(m / 0x10000 == 0x70201040306);
    assert(m / 0x1000000 == 0x702010403);
    assert(m / 0x100000000 == 0x7020104);
    assert(m / 0x10000000000 == 0x70201);
    assert(m / 0x1000000000000 == 0x702);
    assert(m / 0x100000000000000 == 0x7);
    assert(a[0] == 0);
    assert(a[1] == 5);
    assert(a[2] == 6);
    assert(a[3] == 3);
    assert(a[4] == 4);
    assert(a[5] == 1);
    assert(a[6] == 2);
    assert(a[7] == 7);
    assert(a =~= seq![0u8, 5u8, 6u8, 3u8, 4u8, 1u8, 2u8, 7u8]);
}

#[verifier::rlimit(80)]
#[verifier::spinoff_prover]
proof fn lemma_move_lanes_r3()
    ensures
        wf(spec_move(Move::R3)),
        spec_move(Move::R3) == seq![0u8, 22u8, 9u8, 3u8, 4u8, 18u8, 13u8, 7u8],
{
    let a = spec_move(Move::R3);
    let m = spec_move_magic(Move::R3) as int;
    assert(m == 0x070d120403091600);
    assert(m / 0x100 == 0x70d1204030916);
    assert(m / 0x10000 == 0x70d12040309);
    assert(m / 0x1000000 == 0x70d120403);
    assert(m / 0x100000000 == 0x70d1204);
    assert(m / 0x10000000000 == 0x70d12);
    assert(m / 0x1000000000000 == 0x70d);
    assert(m / 0x100000000000000 == 0x7);
    assert(a[0] == 0);
    assert(a[1] == 22);
    assert(a[2] == 9);
    assert(a[3] == 3);
    assert(a[4] == 4);
    assert(a[5] == 18);
    assert(a[6] == 13);
    assert(a[7] == 7);
    assert(a =~= seq![0u8, 22u8, 9u8, 3u8, 4u8, 18u8, 13u8, 7u8]);
}

#[verifier::rlimit(80)]
#[verifier::spinoff_prover]
proof fn lemma_move_lanes_l()
    ensures
        wf(spec_move(Move::L)),
        spec_move(Move::L) == seq![15u8, 1u8, 2u8, 16u8, 11u8, 5u8, 6u8, 20u8],
{
    let a = spec_move(Move::L);
    let m = spec_move_magic(Move::L) as int;
    assert(m == 0x1406050b1002010f);
    assert(m / 0x100 == 0x1406050b100201);
    assert(m / 0x10000 == 0x1406050b1002);
    assert(m / 0x1000000 == 0x1406050b10);
    assert(m / 0x100000000 == 0x1406050b);
    assert(m / 0x10000000000 == 0x140605);
    assert(m / 0x1000000000000 == 0x1406);
    assert(m / 0x100000000000000 == 0x14);
    assert(a[0] == 15);
    assert(a[1] == 1);
    assert(a[2] == 2);
    assert(a[3] == 16);
    assert(a[4] == 11);
    assert(a[5] == 5);
    assert(a[6] == 6);
    assert(a[7] == 20);
    assert(a =~= seq![15u8, 1u8, 2u8, 16u8, 11u8, 5u8, 6u8, 20u8]);
}

#[verifier::rlimit(80)]
#[verifier::spinoff_prover]
proof fn lemma_move_lanes_l2()
    ensures
        wf(spec_move(Move::L2)),
        spec_move(Move::L2) == seq![4u8, 1u8, 2u8, 7u8, 0u8, 5u8, 6u8, 3u8],
{
    let a = spec_move(Move::L2);
    let m = spec_move_magic(Move::L2) as int;
    assert(m == 0x0306050007020104);
    assert(m / 0x100 == 0x3060500070201);
    assert(m / 0x10000 == 0x30605000702);
    assert(m / 0x1000000 == 0x306050007);
    assert(m / 0x100000000 == 0x3060500);
    assert(m / 0x10000000000 == 0x30605);
    assert(m / 0x1000000000000 == 0x306);
    assert(m / 0x100000000000000 == 0x3);
    assert(a[0] == 4);
    assert(a[1] == 1);
    assert(a[2] == 2);
    assert(a[3] == 7);
    assert(a[4] == 0);
    assert(a[5] == 5);
    assert(a[6] == 6);
    assert(a[7] == 3);
    assert(a =~= seq![4u8, 1u8, 2u8, 7u8, 0u8, 5u8, 6u8, 3u8]);
}

#[verifier::rlimit(80)]
#[verifier::spinoff_prover]
proof fn lemma_move_lanes_l3()
    ensures
        wf(spec_move(Move::L3)),
        spec_move(Move::L3) == seq![11u8, 1u8, 2u8, 20u8, 15u8, 5u8, 6u8, 16u8],
{
    let a = spec_move(Move::L3);
    let m = spec_move_magic(Move::L3) as int;
    assert(m == 0x1006050f1402010b);
    assert(m / 0x100 == 0x1006050f140201);
    assert(m / 0x10000 == 0x1006050f1402);
    assert(m / 0x1000000 == 0x1006050f14);
    assert(m / 0x100000000 == 0x1006050f);
    assert(m / 0x10000000000 == 0x100605);
    assert(m / 0x1000000000000 == 0x1006);
    assert(m / 0x100000000000000 == 0x10);
    assert(a[0] == 11);
    assert(a[1] == 1);
    assert(a[2] == 2);
    assert(a[3] == 20);
    assert(a[4] == 15);
    assert(a[5] == 5);
    assert(a[6] == 6);
    assert(a[7] == 16);
    assert(a =~= seq![11u8, 1u8, 2u8, 20u8, 15u8, 5u8, 6u8, 16u8]);
}

// ---- operations -------------------------------------------------------------------

impl Corners {
    /// Construct a new `Corners` instance with the identity CP and CO.
    pub fn new() -> (r: Corners)
        ensures
            r.0@ == spec_ident(),
    {
        let r = Corners(CORNERS_IDENT);
        assert(r.0@ =~= spec_ident());
        r
    }

    /// A view of the piece at the given slot.
    pub fn at(&self, slot: Corner) -> (r: CornerRef<'_>)
        ensures
            r.corners == self,
            r.slot == slot,
    {
        CornerRef { slot, corners: self }
    }

    /// The slot where the given `Corner` currently resides: the first slot whose piece
    /// is `corner`.
    pub fn find(self, corner: Corner) -> (r: Corner)
        requires
            exists|j: int| 0 <= j < 8 && spec_lane_cp(#[trigger] self.0[j]) == corner as u8,
        ensures
            spec_lane_cp(self.0[(r as u8) as int]) == corner as u8,
            forall|j: int| 0 <= j < (r as u8) as int ==> spec_lane_cp(#[trigger] self.0[j]) != corner as u8,
    {
        let target = corner as u8;
        let mut i: usize = 0;
        while i < 8
            invariant
                i <= 8,
                target == corner as u8,
                forall|j: int| 0 <= j < i ==> spec_lane_cp(#[trigger] self.0[j]) != target,
                exists|j: int| 0 <= j < 8 && spec_lane_cp(#[trigger] self.0[j]) == target,
            decreases 8 - i,
        {
            if self.0[i] & CP_LANE_MASK == target {
                let c = Corner::from_u8(i as u8);
                assert((c as u8) as int == i);
                return c;
            }
            i += 1;
        }
        proof {
            let j = choose|j: int| 0 <= j < 8 && spec_lane_cp(#[trigger] self.0[j]) == target;
            assert(spec_lane_cp(self.0[j]) != target);
        }
        Corner::UBL
    }

    /// The corners whose lanes are the little-endian bytes of `m`.
    pub fn from_magic(m: u64) -> (r: Corners)
        ensures
            r.0@ == spec_from_magic(m),
    {
        let r = Corners([
            (m % 0x100) as u8,
            ((m / 0x100) % 0x100) as u8,
            ((m / 0x10000) % 0x100) as u8,
            ((m / 0x1000000) % 0x100) as u8,
            ((m / 0x100000000) % 0x100) as u8,
            ((m / 0x10000000000) % 0x100) as u8,
            ((m / 0x1000000000000) % 0x100) as u8,
            ((m / 0x100000000000000) % 0x100) as u8,
        ]);
        assert(r.0@ =~= spec_from_magic(m));
        r
    }

    /// The little-endian number formed by the lanes.
    pub fn magic(self) -> (r: u64)
        ensures
            r == spec_magic(self.0@),
    {
        let a = self.0;
        (a[0] as u64) + (a[1] as u64) * 0x100 + (a[2] as u64) * 0x10000 + (a[3] as u64) * 0x1000000
            + (a[4] as u64) * 0x100000000 + (a[5] as u64) * 0x10000000000
            + (a[6] as u64) * 0x1000000000000 + (a[7] as u64) * 0x100000000000000
    }

    /// Compose: the corners of `self` followed by those of `rhs`.
    pub fn compose(self, rhs: Self) -> (r: Corners)
        ensures
            r.0@ == spec_compose(self.0@, rhs.0@),
    {
        let a = self.0;
        let b = rhs.0;
        let mut r = [0u8; 8];
        let mut i: usize = 0;
        while i < 8
            invariant
                i <= 8,
                forall|k: int| 0 <= k < i ==> #[trigger] r[k] == spec_compose_lane(a@, b@, k),
            decreases 8 - i,
        {
            proof {
                lemma_lane_bits(b[i as int]);
            }
            let t = a[(b[i] & CP_LANE_MASK) as usize].wrapping_add(b[i] & CO_LANE_MASK);
            let d = t.wrapping_sub(CO_LANE_MASK);
            r[i] = if d < t { d } else { t };
            i += 1;
        }
        let r = Corners(r);
        assert(r.0@ =~= spec_compose(a@, b@));
        r
    }

    /// The inverse of valid corners: composing with it, in either order, gives the
    /// identity. For lanes that are not valid corners, the result has no meaning.
    pub fn inverse(self) -> (r: Corners)
        ensures
            wf(self.0@) ==> r.0@ == spec_inverse(self.0@),
            wf(self.0@) ==> wf(r.0@),
            wf(self.0@) ==> spec_compose(self.0@, r.0@) == spec_ident(),
            wf(self.0@) ==> spec_compose(r.0@, self.0@) == spec_ident(),
    {
        let a = self.0;
        // the piece in slot `i` goes back to slot `i`, untwisted
        let mut inv = [0u8; 8];
        let mut i: usize = 0;
        while i < 8
            invariant
                i <= 8,
                a == self.0,
                wf(a@) ==> forall|k: int| 0 <= k < i ==> #[trigger] inv[cp_of(a[k])] == 8 * ((3 - co_of(a[k])) % 3) + k,
            decreases 8 - i,
        {
            proof {
                lemma_lane_bits(a[i as int]);
            }
            let p = (a[i] & CP_LANE_MASK) as usize;
            let co = (a[i] & CO_LANE_MASK) >> 3;
            let back = if co == 0 { 0 } else { 3 - co };
            inv[p] = back * 8 + (i as u8);
            proof {
                if wf(a@) {
                    assert forall|k: int| 0 <= k < i implies cp_of(#[trigger] a[k]) != p by {}
                }
            }
            i += 1;
        }
        let r = Corners(inv);
        proof {
            if wf(a@) {
                lemma_compose_inverse(a@);
                let v = spec_inverse(a@);
                assert forall|p: int| 0 <= p < 8 implies #[trigger] r.0@[p] == v[p] by {
                    lemma_slot_of(a@, p);
                    let j = spec_slot_of(a@, p);
                    assert(inv[cp_of(a[j])] == 8 * ((3 - co_of(a[j])) % 3) + j);
                }
                assert(r.0@ =~= v);
            }
        }
        r
    }

    /// The corners of `self` after move `m`.
    pub fn apply_move(self, m: Move) -> (r: Corners)
        ensures
            r.0@ == spec_compose(self.0@, spec_move(m)),
    {
        let c = match m {
            Move::U => Corners::from_magic(0x0706050402010003),
            Move::U2 => Corners::from_magic(0x0706050401000302),
            Move::U3 => Corners::from_magic(0x0706050400030201),
            Move::D => Corners::from_magic(0x0605040703020100),
            Move::D2 => Corners::from_magic(0x0504070603020100),
            Move::D3 => Corners::from_magic(0x0407060503020100),
            Move::F => Corners::from_magic(0x07060a150c130100),
            Move::F2 => Corners::from_magic(0x0706030205040100),
            Move::F3 => Corners::from_magic(0x07060c130a150100),
            Move::B => Corners::from_magic(0x0817050403020e11),
            Move::B2 => Corners::from_magic(0x0100050403020706),
            Move::B3 => Corners::from_magic(0x0e11050403020817),
            Move::R => Corners::from_magic(0x07091604030d1200),
            Move::R2 => Corners::from_magic(0x0702010403060500),
            Move::R3 => Corners::from_magic(0x070d120403091600),
            Move::L => Corners::from_magic(0x1406050b1002010f),
            Move::L2 => Corners::from_magic(0x0306050007020104),
            Move::L3 => Corners::from_magic(0x1006050f1402010b),
        };
        self.compose(c)
    }

    /// The corners followed by those of symmetry `s`.
    pub fn apply_sym(self, s: Sym) -> (r: Corners)
        ensures
            r.0@ == spec_compose(self.0@, spec_sym_cube(s).1),
    {
        self + s.cube().corners
    }

    /// The table of slots, pieces and twists: a row of slot names, a row of the names of
    /// the pieces in them, and a row of their twists, each cell padded to four.
    pub fn table(&self) -> (r: String)
        ensures
            r@ == spec_corners_table(self.0@),
    {
        let ghost slots = Seq::new(8, |i: int| spec_slot_cell(i));
        let ghost pieces = Seq::new(8, |i: int| spec_piece_cell(self.0@[i]));
        let ghost twists = Seq::new(8, |i: int| spec_coud_cell(self.0@[i]));
        let mut row1 = String::new();
        let mut row2 = String::new();
        let mut row3 = String::new();
        let mut i: usize = 0;
        while i < 8
            invariant
                i <= 8,
                slots == Seq::new(8, |i: int| spec_slot_cell(i)),
                pieces == Seq::new(8, |i: int| spec_piece_cell(self.0@[i])),
                twists == Seq::new(8, |i: int| spec_coud_cell(self.0@[i])),
                row1@ == spec_concat(slots.take(i as int)),
                row2@ == spec_concat(pieces.take(i as int)),
                row3@ == spec_concat(twists.take(i as int)),
            decreases 8 - i,
        {
            proof {
                lemma_concat_step(slots, i as int);
                lemma_concat_step(pieces, i as int);
                lemma_concat_step(twists, i as int);
                lemma_corner_number(spec_corner_from(i as int));
                lemma_lane_bits(self.0[i as int]);
            }
            let x = self.0[i];
            row1.append(Corner::from_u8(i as u8).name());
            row1.append(" ");
            row2.append(Corner::from_u8(x & CP_LANE_MASK).name());
            row2.append(" ");
            row3.append(digit((x & CO_LANE_MASK) >> CO_SHIFT));
            row3.append("   ");
            proof {
                assert(row1@ =~= spec_concat(slots.take(i as int)) + slots[i as int]);
                assert(row2@ =~= spec_concat(pieces.take(i as int)) + pieces[i as int]);
                assert(row3@ =~= spec_concat(twists.take(i as int)) + twists[i as int]);
            }
            i += 1;
        }
        proof {
            assert(slots.take(8) =~= slots);
            assert(pieces.take(8) =~= pieces);
            assert(twists.take(8) =~= twists);
        }
        let mut out = String::new();
        out.append("slot:   ");
        out.append(row1.as_str());
        out.append("\n");
        out.append("corner: ");
        out.append(row2.as_str());
        out.append("\n");
        out.append("coud:   ");
        out.append(row3.as_str());
        out.append("\n");
        out
    }

    /// The corners seen in a mirror: each piece keeps its slot and its twist turns the
    /// other way.
    pub fn mirror_twist(self) -> (r: Corners)
        ensures
            r.0@ == spec_mirror_twist(self.0@),
    {
        let mut out = self;
        let mut i: usize = 0;
        while i < 8
            invariant
                i <= 8,
                forall|k: int| 0 <= k < i ==> #[trigger] out.0[k] == spec_mirror_lane(self.0[k]),
                forall|k: int| i <= k < 8 ==> #[trigger] out.0[k] == self.0[k],
            decreases 8 - i,
        {
            let x = self.0[i];
            let t = (x & CO_LANE_MASK) >> CO_SHIFT;
            proof {
                lemma_lane_bits(x);
            }
            let m: u8 = if t == 1 { 2 } else if t == 2 { 1 } else { 0 };
            proof {
                lemma_build_bits(m, x & 7);
            }
            out.0[i] = lane_cons(m, x & 7);
            i += 1;
        }
        proof {
            assert(out.0@ =~= spec_mirror_twist(self.0@));
        }
        out
    }

    /// The corners conjugated by symmetry `s`: the symmetry, then these corners, then the
    /// inverse symmetry; a mirror symmetry also turns each twist the other way.
    pub fn conjugate_sym(self, s: Sym) -> (r: Corners)
        ensures
            r.0@ == spec_conjugate(self.0@, s),
    {
        let c = s.cube().corners.compose(self).apply_sym(s.inverse());
        if s.is_rotation() {
            c
        } else {
            c.mirror_twist()
        }
    }

    /// The corners of `self` after the moves of `a`, in order.
    pub fn apply_alg(&self, a: &Alg) -> (r: Corners)
        ensures
            r.0@ == spec_apply_moves(self.0@, a.0@),
    {
        let mut acc = *self;
        let n = a.0.len();
        let mut i: usize = 0;
        while i < n
            invariant
                n == a.0@.len(),
                i <= n,
                acc.0@ == spec_apply_moves(self.0@, a.0@.take(i as int)),
            decreases n - i,
        {
            proof {
                assert(a.0@.take(i as int + 1).drop_last() =~= a.0@.take(i as int));
            }
            acc = acc.apply_move(a.0[i]);
            i += 1;
        }
        proof {
            assert(a.0@.take(n as int) =~= a.0@);
        }
        acc
    }
}

impl Corners {
    /// Modify CP by specifying for each slot which corner populates it. Preserves CO on UD.
    pub fn set_cp_passive<F: Fn(Corner) -> Corner>(&self, f: F) -> (r: Corners)
        requires
            forall|c: Corner| #[trigger] f.requires((c,)),
        ensures
            forall|i: int| 0 <= i < 8 ==> #[trigger] r.0[i] == (self.0[i] & 24) + (r.0[i] & 7),
            forall|i: int| 0 <= i < 8 ==> f.ensures((spec_corner_from(i),), spec_corner_from((#[trigger] r.0[i] & 7) as int)),
    {
        let mut a = self.0;
        let mut i: usize = 0;
        while i < 8
            invariant
                i <= 8,
                forall|c: Corner| #[trigger] f.requires((c,)),
                forall|k: int| i <= k < 8 ==> #[trigger] a[k] == self.0[k],
                forall|k: int| 0 <= k < i ==> #[trigger] a[k] == (self.0[k] & 24) + (a[k] & 7),
                forall|k: int| 0 <= k < i ==> f.ensures((spec_corner_from(k),), spec_corner_from((#[trigger] a[k] & 7) as int)),
            decreases 8 - i,
        {
            let slot = Corner::from_u8(i as u8);
            let piece = f(slot);
            proof {
                lemma_corner_number(piece);
            }
            let pv = piece as u8;
            let prev = a[i];
            a[i] = (prev & CO_LANE_MASK) | pv;
            proof {
                assert(pv < 8 ==> ((prev & 24) | pv) & 7 == pv && ((prev & 24) | pv) == (prev & 24) + pv)
                    by (bit_vector);
            }
            i += 1;
        }
        Corners(a)
    }

    /// Modify CP by specifying for each corner the slot it goes to. Preserves CO on UD.
    /// Corners are placed in their order, so a later one overwrites an earlier one sent to
    /// the same slot.
    pub fn set_cp_active<F: Fn(Corner) -> Corner>(&self, f: F) -> (r: Corners)
        requires
            forall|c: Corner| #[trigger] f.requires((c,)),
        ensures
            exists|dest: Seq<Corner>| {
                &&& dest.len() == 8
                &&& forall|i: int| 0 <= i < 8 ==> f.ensures((spec_corner_from(i),), #[trigger] dest[i])
                &&& r.0@ == spec_set_cp_active(self.0@, dest, 8)
            },
    {
        let mut a = self.0;
        let ghost mut dest: Seq<Corner> = Seq::empty();
        let mut i: usize = 0;
        while i < 8
            invariant
                i <= 8,
                dest.len() == i,
                forall|c: Corner| #[trigger] f.requires((c,)),
                forall|k: int| 0 <= k < i ==> f.ensures((spec_corner_from(k),), #[trigger] dest[k]),
                a@ == spec_set_cp_active(self.0@, dest, i as int),
            decreases 8 - i,
        {
            let src = Corner::from_u8(i as u8);
            let d = f(src);
            proof {
                lemma_corner_number(d);
                let ghost old_dest = dest;
                dest = dest.push(d);
                assert(dest.drop_last() =~= old_dest);
                lemma_set_cp_active_prefix(self.0@, dest, i as int);
            }
            let di = d as usize;
            let lane = a[di];
            a[di] = (lane & CO_LANE_MASK) | (i as u8);
            assert(a@ =~= spec_set_cp_active(self.0@, dest, i as int + 1));
            i += 1;
        }
        let r = Corners(a);
        assert(r.0@ == spec_set_cp_active(self.0@, dest, 8));
        r
    }

    /// A cycle of slots with the twists of the solved cube: the piece of the first slot goes
    /// to the second, and so on, the piece of the last going to the first.
    pub fn cycle_dr(cycle: &[Corner], axis: Axis) -> (r: Corners)
        ensures
            axis == Axis::UD ==> r.0@ == spec_cycle_lanes(cycle@),
            axis == Axis::FB ==> forall|i: int| 0 <= i < 8 ==>
                #[trigger] r.0[i] == spec_lane_set_cofb(spec_cycle_lanes(cycle@)[i], i, 0),
            axis == Axis::LR ==> forall|i: int| 0 <= i < 8 ==>
                #[trigger] r.0[i] == spec_lane_set_colr(spec_cycle_lanes(cycle@)[i], i, 0),
    {
        match axis {
            Axis::UD => Self::cycle_drud(cycle),
            Axis::FB => Self::cycle_drfb(cycle),
            Axis::LR => Self::cycle_drlr(cycle),
        }
    }

    /// A cycle which preserves CO on UD. The first slot in the cycle is sent to the second
    /// slot in the cycle, and so on with the last slot in the cycle being sent to the first slot
    /// in the cycle.
    pub fn cycle_drud(cycle: &[Corner]) -> (r: Corners)
        ensures
            r.0@ == spec_cycle_lanes(cycle@),
            distinct_corners(cycle@) ==> forall|j: int| 0 <= j < cycle@.len() ==>
                r.0[#[trigger] spec_cycle_next(cycle@, j)] == cycle@[j] as u8,
            distinct_corners(cycle@) ==> forall|s: int| 0 <= s < 8 && (forall|j: int| 0 <= j < cycle@.len() ==> (#[trigger] cycle@[j] as u8) as int != s)
                ==> r.0[s] == s,
    {
        let mut cp = CORNERS_IDENT;
        let n = cycle.len();
        let mut i: usize = 0;
        while i < n
            invariant
                n == cycle@.len(),
                i <= n,
                forall|s: int| 0 <= s < 8 ==> #[trigger] cp[s] as int == spec_cycle_slot(cycle@, i as int, s),
            decreases n - i,
        {
            let src = cycle[i] as u8;
            let dst = cycle[(i + 1) % n] as usize;
            proof {
                lemma_corner_number(cycle@[i as int]);
                lemma_corner_number(cycle@[(i as int + 1) % (n as int)]);
            }
            cp[dst] = src;
            proof {
                assert forall|s: int| 0 <= s < 8 implies #[trigger] cp[s] as int == spec_cycle_slot(cycle@, i as int + 1, s) by {
                    lemma_cycle_slot_bound(cycle@, i as int, s);
                }
            }
            i += 1;
        }
        let r = Corners(cp);
        assert(r.0@ =~= spec_cycle_lanes(cycle@)) by {
            assert forall|s: int| 0 <= s < 8 implies #[trigger] r.0@[s] == spec_cycle_lanes(cycle@)[s] by {
                lemma_cycle_slot_bound(cycle@, n as int, s);
            }
        }
        proof {
            lemma_cycle_lanes_distinct(cycle@);
        }
        r
    }

    /// A cycle which preserves CO on FB. The first slot in the cycle is sent to the second
    /// slot in the cycle, and so on with the last slot in the cycle being sent to the first slot
    /// in the cycle.
    pub fn cycle_drfb(cycle: &[Corner]) -> (r: Corners)
        ensures
            forall|i: int| 0 <= i < 8 ==>
                #[trigger] r.0[i] == spec_lane_set_cofb(spec_cycle_lanes(cycle@)[i], i, 0),
    {
        let c = Self::cycle_drud(cycle);
        Corners(set_cofb(c.0, [0u8; 8]))
    }

    /// A cycle which preserves CO on LR. The first slot in the cycle is sent to the second
    /// slot in the cycle, and so on with the last slot in the cycle being sent to the first slot
    /// in the cycle.
    pub fn cycle_drlr(cycle: &[Corner]) -> (r: Corners)
        ensures
            forall|i: int| 0 <= i < 8 ==>
                #[trigger] r.0[i] == spec_lane_set_colr(spec_cycle_lanes(cycle@)[i], i, 0),
    {
        let c = Self::cycle_drud(cycle);
        Corners(set_colr(c.0, [0u8; 8]))
    }
}

/// Steps beyond the `k` first of a cycle leave the result of the `k` first alone.
proof fn lemma_set_cp_active_prefix(a: Seq<u8>, dest: Seq<Corner>, k: int)
    requires
        0 <= k < dest.len(),
    ensures
        spec_set_cp_active(a, dest, k) == spec_set_cp_active(a, dest.drop_last(), k),
    decreases k,
{
    if k > 0 {
        lemma_set_cp_active_prefix(a, dest, k - 1);
    }
}

/// The piece a cycle leaves in a slot is a slot number.
proof fn lemma_cycle_slot_bound(c: Seq<Corner>, k: int, s: int)
    requires
        0 <= s < 8,
    ensures
        0 <= spec_cycle_slot(c, k, s) < 8,
    decreases k,
{
    if k > 0 {
        lemma_corner_number(c[k - 1]);
        lemma_cycle_slot_bound(c, k - 1, s);
    }
}

/// The cycle lanes of a cycle without repeats move each piece of the cycle to the next slot
/// and leave the other slots alone.
proof fn lemma_cycle_lanes_distinct(c: Seq<Corner>)
    ensures
        distinct_corners(c) ==> forall|j: int| 0 <= j < c.len() ==>
            spec_cycle_lanes(c)[#[trigger] spec_cycle_next(c, j)] == c[j] as u8,
        distinct_corners(c) ==> forall|s: int| 0 <= s < 8 && (forall|j: int| 0 <= j < c.len() ==> (#[trigger] c[j] as u8) as int != s)
            ==> spec_cycle_lanes(c)[s] == s,
{
    let n = c.len() as int;
    if distinct_corners(c) {
        assert forall|j: int| 0 <= j < n implies
            spec_cycle_lanes(c)[#[trigger] spec_cycle_next(c, j)] == c[j] as u8 by {
            lemma_corner_number(c[(j + 1) % n]);
            lemma_corner_number(c[j]);
            lemma_cycle_slot_written(c, j);
        }
        assert forall|s: int| 0 <= s < 8 && (forall|j: int| 0 <= j < n ==> (#[trigger] c[j] as u8) as int != s)
            implies spec_cycle_lanes(c)[s] == s by {
            lemma_cycle_slot_untouched(c, n, s);
        }
    }
}

/// In a cycle without repeats, the slot after `c[j]` ends with the piece of `c[j]`.
proof fn lemma_cycle_slot_written(c: Seq<Corner>, j: int)
    requires
        distinct_corners(c),
        0 <= j < c.len(),
    ensures
        spec_cycle_slot(c, c.len() as int, (c[(j + 1) % (c.len() as int)] as u8) as int) == (c[j] as u8) as int,
{
    let n = c.len() as int;
    let s = (c[(j + 1) % n] as u8) as int;
    assert forall|k: int| j + 1 <= k <= n implies spec_cycle_slot(c, k, s) == (c[j] as u8) as int by {
        lemma_cycle_slot_written_from(c, j, k);
    }
}

proof fn lemma_cycle_slot_written_from(c: Seq<Corner>, j: int, k: int)
    requires
        distinct_corners(c),
        0 <= j < c.len(),
        j + 1 <= k <= c.len(),
    ensures
        spec_cycle_slot(c, k, (c[(j + 1) % (c.len() as int)] as u8) as int) == (c[j] as u8) as int,
    decreases k,
{
    let n = c.len() as int;
    if k > j + 1 {
        lemma_cycle_slot_written_from(c, j, k - 1);
        if k < n {
            vstd::arithmetic::div_mod::lemma_small_mod(k as nat, n as nat);
        } else {
            vstd::arithmetic::div_mod::lemma_mod_self_0(n);
        }
        vstd::arithmetic::div_mod::lemma_small_mod((j + 1) as nat, n as nat);
        assert(k % n != (j + 1) % n);
        assert(c[k % n] != c[(j + 1) % n]);
        if (c[k % n] as u8) == (c[(j + 1) % n] as u8) {
            lemma_corner_number(c[k % n]);
            lemma_corner_number(c[(j + 1) % n]);
        }
    }
}

/// A slot outside a cycle keeps its piece.
proof fn lemma_cycle_slot_untouched(c: Seq<Corner>, k: int, s: int)
    requires
        0 <= k <= c.len(),
        forall|j: int| 0 <= j < c.len() ==> (#[trigger] c[j] as u8) as int != s,
    ensures
        spec_cycle_slot(c, k, s) == s,
    decreases k,
{
    if k > 0 {
        assert(0 <= k % (c.len() as int) < c.len());
        lemma_cycle_slot_untouched(c, k - 1, s);
    }
}

// CO methods
impl Corners {
    /// For the given slot, set CO relative to `axis`.
    pub fn set_co(self, slot: Corner, co: CO, axis: Axis) -> (r: Corners)
        ensures
            axis == Axis::UD ==> r.0@ == spec_set_coud(self.0@, slot, co),
            axis == Axis::FB ==> r.0@ == spec_set_cofb(self.0@, slot, co),
            axis == Axis::LR ==> r.0@ == spec_set_colr(self.0@, slot, co),
    {
        match axis {
            Axis::UD => self.set_coud(slot, co),
            Axis::FB => self.set_cofb(slot, co),
            Axis::LR => self.set_colr(slot, co),
        }
    }

    /// For the given slot, set CO relative to the UD axis.
    pub fn set_coud(self, slot: Corner, co: CO) -> (r: Corners)
        ensures
            r.0@ == spec_set_coud(self.0@, slot, co),
    {
        proof {
            lemma_corner_number(slot);
        }
        let r = Corners(lane_set_coud(self.0, slot as usize, co as u8));
        assert(r.0@ =~= spec_set_coud(self.0@, slot, co));
        r
    }

    /// For the given slot, set CO relative to the FB axis.
    pub fn set_cofb(self, slot: Corner, co: CO) -> (r: Corners)
        ensures
            r.0@ == spec_set_cofb(self.0@, slot, co),
    {
        proof {
            lemma_corner_number(slot);
        }
        let r = Corners(lane_set_cofb(self.0, slot as usize, co as u8));
        assert(r.0@ =~= spec_set_cofb(self.0@, slot, co));
        r
    }

    /// For the given slot, set CO relative to the LR axis.
    pub fn set_colr(self, slot: Corner, co: CO) -> (r: Corners)
        ensures
            r.0@ == spec_set_colr(self.0@, slot, co),
    {
        proof {
            lemma_corner_number(slot);
        }
        let r = Corners(lane_set_colr(self.0, slot as usize, co as u8));
        assert(r.0@ =~= spec_set_colr(self.0@, slot, co));
        r
    }

    /// Get CO relative to the `axis` at the given slot.
    pub fn co(self, slot: Corner, axis: Axis) -> (r: CO)
        requires
            spec_lane_coud(self.0[(slot as u8) as int]) < 3,
        ensures
            axis == Axis::UD ==> r as u8 == spec_lane_coud(self.0[(slot as u8) as int]),
            axis == Axis::FB ==> r as u8 == spec_lane_cofb(self.0[(slot as u8) as int], (slot as u8) as int),
            axis == Axis::LR ==> r as u8 == spec_lane_colr(self.0[(slot as u8) as int], (slot as u8) as int),
    {
        match axis {
            Axis::UD => self.coud(slot),
            Axis::FB => self.cofb(slot),
            Axis::LR => self.colr(slot),
        }
    }

    /// Get CO relative to the UD axis at the given slot.
    pub fn coud(self, slot: Corner) -> (r: CO)
        requires
            spec_lane_coud(self.0[(slot as u8) as int]) < 3,
        ensures
            r as u8 == spec_lane_coud(self.0[(slot as u8) as int]),
    {
        self.at(slot).coud()
    }

    /// Get CO relative to the FB axis at the given slot.
    pub fn cofb(self, slot: Corner) -> (r: CO)
        requires
            spec_lane_coud(self.0[(slot as u8) as int]) < 3,
        ensures
            r as u8 == spec_lane_cofb(self.0[(slot as u8) as int], (slot as u8) as int),
    {
        self.at(slot).cofb()
    }

    /// Get CO relative to the LR axis at the given slot.
    pub fn colr(self, slot: Corner) -> (r: CO)
        requires
            spec_lane_coud(self.0[(slot as u8) as int]) < 3,
        ensures
            r as u8 == spec_lane_colr(self.0[(slot as u8) as int], (slot as u8) as int),
    {
        self.at(slot).colr()
    }

    /// Checks that CP is bijective: no piece occurs in two slots. Otherwise reports the
    /// first slot whose piece occurred before, with that earlier slot.
    pub fn check_cp(self) -> (r: Result<(), String>)
        ensures
            r is Ok <==> !cp_repeats_before(self.0@, 8),
            r matches Err(e) ==> exists|i: int, j: int| {
                &&& 0 <= i < j < 8
                &&& spec_lane_cp(self.0[i]) == spec_lane_cp(self.0[j])
                &&& !cp_repeats_before(self.0@, j)
                &&& e@ == spec_twice_message(spec_corner_from(spec_lane_cp(self.0[j]) as int),
                    spec_corner_from(i), spec_corner_from(j))
            },
    {
        let mut loc: [usize; 8] = [8; 8];
        let mut j: usize = 0;
        while j < 8
            invariant
                j <= 8,
                !cp_repeats_before(self.0@, j as int),
                forall|p: int| 0 <= p < 8 ==> #[trigger] loc[p] <= 8,
                forall|p: int| 0 <= p < 8 && loc[p] < 8 ==> (#[trigger] loc[p]) < j
                    && spec_lane_cp(self.0[loc[p] as int]) == p,
                forall|x: int| 0 <= x < j ==> #[trigger] loc[spec_lane_cp(self.0[x]) as int] == x,
            decreases 8 - j,
        {
            proof {
                lemma_lane_bits(self.0[j as int]);
            }
            let slot = Corner::from_u8(j as u8);
            let c = self.at(slot).piece();
            let ci = c as usize;
            if loc[ci] < 8 {
                let first = loc[ci];
                let prev = Corner::from_u8(first as u8);
                let mut e = String::from_str("Corner ");
                e.append(c.name());
                e.append(" appears twice: first at ");
                e.append(prev.name());
                e.append(", and at ");
                e.append(slot.name());
                proof {
                    reveal_strlit("Corner ");
                    reveal_strlit(" appears twice: first at ");
                    reveal_strlit(", and at ");
                    lemma_corner_number(c);
                    lemma_corner_number(prev);
                    lemma_corner_number(slot);
                    assert(e@ =~= spec_twice_message(spec_corner_from(spec_lane_cp(self.0[j as int]) as int),
                        spec_corner_from(first as int), spec_corner_from(j as int)));
                    assert(spec_lane_cp(self.0[first as int]) == spec_lane_cp(self.0[j as int]));
                    assert(cp_repeats_before(self.0@, 8)) by {
                        assert(spec_lane_cp(self.0[first as int]) == spec_lane_cp(self.0[j as int]));
                    }
                }
                return Err(e);
            }
            loc[ci] = j;
            proof {
                assert forall|x: int| 0 <= x < j + 1 implies #[trigger] loc[spec_lane_cp(self.0[x]) as int] == x by {
                    lemma_lane_bits(self.0[x]);
                }
                assert(!cp_repeats_before(self.0@, j as int + 1)) by {
                    if cp_repeats_before(self.0@, j as int + 1) {
                        let (x, y) = choose|x: int, y: int| 0 <= x < y < j + 1
                            && #[trigger] spec_lane_cp(self.0[x]) == #[trigger] spec_lane_cp(self.0[y]);
                        if y == j {
                            let _ = loc[spec_lane_cp(self.0[x]) as int];
                        } else {
                            assert(cp_repeats_before(self.0@, j as int));
                        }
                    }
                }
            }
            j += 1;
        }
        Ok(())
    }

    /// Whether every corner is oriented relative to the UD axis.
    pub fn is_drud(self) -> (r: bool)
        ensures
            r == forall|i: int| 0 <= i < 8 ==> #[trigger] spec_lane_coud(self.0[i]) == 0,
    {
        let co = coud(self.0);
        let mut i: usize = 0;
        while i < 8
            invariant
                i <= 8,
                forall|k: int| 0 <= k < 8 ==> #[trigger] co[k] == spec_lane_coud(self.0[k]),
                forall|k: int| 0 <= k < i ==> #[trigger] spec_lane_coud(self.0[k]) == 0,
            decreases 8 - i,
        {
            if co[i] != 0 {
                return false;
            }
            i += 1;
        }
        true
    }

    /// The CO on UD coordinate: the twists of the first seven corners in base 3.
    pub fn index_coud(self) -> (r: usize)
        ensures
            r == spec_index_coud(self.0),
    {
        index_coud(self.0)
    }

    /// Solved corners with the twists that `coord` names, the last corner's making the
    /// total a multiple of 3.
    pub fn unindex_coud(coord: usize) -> (r: Corners)
        requires
            coord < 2187,
        ensures
            spec_index_coud(r.0) == coord,
            wf(r.0@),
            forall|i: int| 0 <= i < 8 ==> #[trigger] r.0[i] == 8 * spec_unindex_coud_lane(coord as int, i) + i,
    {
        let r = Corners(unindex_coud(coord));
        proof {
            assert forall|i: int| 0 <= i < 8 implies #[trigger] lane_ok(r.0@[i]) by {}
        }
        r
    }

    /// Whether the corners are solved.
    pub fn is_solved(self) -> (r: bool)
        ensures
            r == (self.0@ == spec_ident()),
    {
        let mut i: usize = 0;
        while i < 8
            invariant
                i <= 8,
                forall|k: int| 0 <= k < i ==> #[trigger] self.0[k] == k as u8,
            decreases 8 - i,
        {
            if self.0[i] != i as u8 {
                assert(self.0@[i as int] != spec_ident()[i as int]);
                return false;
            }
            i += 1;
        }
        assert(self.0@ =~= spec_ident());
        true
    }

    /// The rank of the permutation of the pieces.
    pub fn perm_coord(self) -> (r: usize)
        ensures
            r == spec_prank(Seq::new(8, |i: int| spec_lane_cp(self.0[i]))),
    {
        let p = cp(self.0);
        assert(p@ =~= Seq::new(8, |i: int| spec_lane_cp(self.0[i])));
        prank(p)
    }
}

impl Default for Corners {
    fn default() -> (r: Corners)
        ensures
            r.0@ == spec_ident(),
    {
        Corners::new()
    }
}

impl core::ops::Add<Corners> for Corners {
    type Output = Corners;

    fn add(self, rhs: Corners) -> (r: Corners)
        ensures
            r.0@ == spec_compose(self.0@, rhs.0@),
    {
        self.compose(rhs)
    }
}

impl vstd::std_specs::ops::AddSpecImpl<Corners> for Corners {
    open spec fn obeys_add_spec() -> bool {
        false
    }

    open spec fn add_req(self, rhs: Corners) -> bool {
        true
    }

    open spec fn add_spec(self, rhs: Corners) -> Corners {
        arbitrary()
    }
}

impl core::ops::Add<Move> for Corners {
    type Output = Corners;

    fn add(self, rhs: Move) -> (r: Corners)
        ensures
            r.0@ == spec_compose(self.0@, spec_move(rhs)),
    {
        self.apply_move(rhs)
    }
}

impl vstd::std_specs::ops::AddSpecImpl<Move> for Corners {
    open spec fn obeys_add_spec() -> bool {
        false
    }

    open spec fn add_req(self, rhs: Move) -> bool {
        true
    }

    open spec fn add_spec(self, rhs: Move) -> Corners {
        arbitrary()
    }
}

impl core::ops::Add<Alg> for Corners {
    type Output = Corners;

    fn add(self, rhs: Alg) -> (r: Corners)
        ensures
            r.0@ == spec_apply_moves(self.0@, rhs.0@),
    {
        self.apply_alg(&rhs)
    }
}

impl vstd::std_specs::ops::AddSpecImpl<Alg> for Corners {
    open spec fn obeys_add_spec() -> bool {
        false
    }

    open spec fn add_req(self, rhs: Alg) -> bool {
        true
    }

    open spec fn add_spec(self, rhs: Alg) -> Corners {
        arbitrary()
    }
}

} // verus!
