use vstd::prelude::*;
use crate::cube::alg::Alg;
use crate::cube::axis::{Axis, spec_axis_primary, spec_axis_secondary};
use crate::cube::face::{Face, spec_face_move};
use crate::cube::edges::edge::{Edge, lemma_edge_number, spec_edge_from, spec_edge_name};
use crate::cube::text::{lemma_concat_step, spec_concat};
use vstd::string::*;
use crate::cube::edges::eo::EO;
use crate::cube::edges::ops::{
    EDGES_IDENT, EO_LANE_MASK, compose, eofb, eolr, eoud, flip, index_eofb, lane_eofb, lane_eolr,
    lane_eoud, lane_ep, lane_set_ep, lemma_lane_bits, set_eofb, set_eolr, set_eoud, spec_compose,
    spec_compose_lane, spec_ident, spec_index_eofb, spec_lane_eofb, spec_lane_eolr, spec_lane_eoud,
    spec_lane_ep, spec_lane_set_eofb, spec_lane_set_eolr, spec_lane_set_eoud, spec_lane_set_ep,
    spec_unindex_eofb_bit, unindex_eofb, wf,
};
use crate::cube::sym::{Sym, spec_sym_cube, spec_sym_inverse};
use crate::cube::transform::mov::Move;

verus! {

/// Edges of the cube.
///
/// ### Representation
/// Edge ordering:
///   UR DR DL UL UF DF DB UB FR BR BL FL
///
/// The underlying representation is an array of 16 lanes, each lane representing an edge
/// slot; the last four lanes are padding.
///
/// Each lane has a packed 8-bit representation, where:
/// - Bits 0..=3 represent the edge piece at that position (0..=15).
/// - Bits 4, 5, and 6 represent the orientation of the edge piece with respect to the FB, LR,
///   and UD axes respectively.
///   - 0 means the edge is oriented;
///   - 1 means the edge is misoriented.
#[derive(Clone, Copy, PartialEq, Eq, Debug, Hash)]
pub struct Edges(pub [u8; 16]);

// ---- spec model ------------------------------------------------------------------

/// The power of 256 that weighs byte `i` of a magic number.
pub open spec fn spec_pow256(i: int) -> int {
    if i == 0 { 0x1 }
    else if i == 1 { 0x100 }
    else if i == 2 { 0x10000 }
    else if i == 3 { 0x1000000 }
    else if i == 4 { 0x100000000 }
    else if i == 5 { 0x10000000000 }
    else if i == 6 { 0x1000000000000 }
    else if i == 7 { 0x100000000000000 }
    else if i == 8 { 0x10000000000000000 }
    else if i == 9 { 0x1000000000000000000 }
    else if i == 10 { 0x100000000000000000000 }
    else if i == 11 { 0x10000000000000000000000 }
    else if i == 12 { 0x1000000000000000000000000 }
    else if i == 13 { 0x100000000000000000000000000 }
    else if i == 14 { 0x10000000000000000000000000000 }
    else if i == 15 { 0x1000000000000000000000000000000 }
    else { 0x10000000000000000int * 0x10000000000000000int }
}

/// The lanes of a magic number: its little-endian bytes.
pub open spec fn spec_from_magic(m: u128) -> Seq<u8> {
    Seq::new(16, |i: int| ((m as int / spec_pow256(i)) % 256) as u8)
}

/// The little-endian number formed by the first `n` lanes.
pub open spec fn spec_magic_prefix(a: Seq<u8>, n: int) -> int
    decreases n,
{
    if n <= 0 { 0 } else { spec_magic_prefix(a, n - 1) + a[n - 1] * spec_pow256(n - 1) }
}

/// The magic number of some lanes: the little-endian number they form.
pub open spec fn spec_magic(a: Seq<u8>) -> int {
    spec_magic_prefix(a, 16)
}

/// The magic number of the edges after move `m` from solved.
pub open spec fn spec_move_magic(m: Move) -> u128 {
    match m {
        Move::U => 0xf0e0d0c0b0a09084306054044020147,
        Move::U2 => 0xf0e0d0c0b0a09080406050700020103,
        Move::U3 => 0xf0e0d0c0b0a09084006054347020144,
        Move::D => 0xf0e0d0c0b0a09080741420403464500,
        Move::D2 => 0xf0e0d0c0b0a09080705060403010200,
        Move::D3 => 0xf0e0d0c0b0a09080742410403454600,
        Move::F => 0xf0e0d0c150a09140706181b03020100,
        Move::F2 => 0xf0e0d0c080a090b0706040503020100,
        Move::F3 => 0xf0e0d0c140a091507061b1803020100,
        Move::B => 0xf0e0d0c0b171608191a050403020100,
        Move::B2 => 0xf0e0d0c0b090a080607050403020100,
        Move::B3 => 0xf0e0d0c0b1617081a19050403020100,
        Move::R => 0xf0e0d0c0b0a20210706050403022928,
        Move::R2 => 0xf0e0d0c0b0a08090706050403020001,
        Move::R3 => 0xf0e0d0c0b0a21200706050403022829,
        Move::L => 0xf0e0d0c23220908070605042a2b0100,
        Move::L2 => 0xf0e0d0c0a0b09080706050402030100,
        Move::L3 => 0xf0e0d0c22230908070605042b2a0100,
    }
}

/// The edges after move `m` from solved.
pub open spec fn spec_move(m: Move) -> Seq<u8> {
    spec_from_magic(spec_move_magic(m))
}

/// The edges `e` after the moves `ms`, in order.
pub open spec fn spec_apply_moves(e: Seq<u8>, ms: Seq<Move>) -> Seq<u8>
    decreases ms.len(),
{
    if ms.len() == 0 {
        e
    } else {
        spec_compose(spec_apply_moves(e, ms.drop_last()), spec_move(ms.last()))
    }
}

/// The slot that holds piece `p` in `a`.
pub open spec fn spec_slot_of(a: Seq<u8>, p: int) -> int {
    choose|j: int| 0 <= j < 16 && (a[j] & 15) as int == p
}

/// The inverse of valid edges: slot `p` holds the slot where `a` keeps piece `p`, with the
/// same orientation.
pub open spec fn spec_inverse(a: Seq<u8>) -> Seq<u8> {
    Seq::new(16, |p: int| {
        let j = spec_slot_of(a, p);
        (a[j] & 112) | (j as u8)
    })
}

/// The piece that slot `s` holds after the first `k` steps of a cycle: step `i` moves
/// the piece of slot `c[i]` to slot `c[(i + 1) % n]`, starting from the solved cube.
pub open spec fn spec_cycle_slot(c: Seq<Edge>, k: int, s: int) -> int
    decreases k,
{
    if k <= 0 {
        s
    } else if (c[k % c.len() as int] as u8) as int == s {
        (c[k - 1] as u8) as int
    } else {
        spec_cycle_slot(c, k - 1, s)
    }
}

/// The permutation lanes of the cycle `c` applied to solved edges.
pub open spec fn spec_cycle_lanes(c: Seq<Edge>) -> Seq<u8> {
    Seq::new(16, |s: int| spec_cycle_slot(c, c.len() as int, s) as u8)
}

/// The cycle `c` applied to solved edges, with EO on FB set to zero.
pub open spec fn spec_cycle_eofb(c: Seq<Edge>) -> Seq<u8> {
    Seq::new(16, |i: int| spec_lane_set_eofb(spec_cycle_lanes(c)[i], i, 0))
}

/// The cycle `c` applied to solved edges, with EO on LR set to zero.
pub open spec fn spec_cycle_eolr(c: Seq<Edge>) -> Seq<u8> {
    Seq::new(16, |i: int| spec_lane_set_eolr(spec_cycle_lanes(c)[i], i, 0))
}

/// The cycle `c` applied to solved edges, with EO on UD set to zero.
pub open spec fn spec_cycle_eoud(c: Seq<Edge>) -> Seq<u8> {
    Seq::new(16, |i: int| spec_lane_set_eoud(spec_cycle_lanes(c)[i], i, 0))
}

/// Solved edges with the edges that occur an odd number of times in `es` flipped.
pub open spec fn spec_flip(es: Seq<Edge>) -> Seq<u8> {
    Seq::new(16, |i: int| if spec_flip_parity(es, es.len() as int, i) { (i as u8) ^ 112 } else { i as u8 })
}

/// Whether `e` occurs an odd number of times among the first `n` edges of `es`.
pub open spec fn spec_flip_parity(es: Seq<Edge>, n: int, e: int) -> bool
    decreases n,
{
    if n <= 0 {
        false
    } else {
        spec_flip_parity(es, n - 1, e) != ((es[n - 1] as u8) as int == e)
    }
}

/// The lanes after writing, for each piece `i` below `n` in turn, piece `i` into slot
/// `dest[i]`, keeping the orientation already there.
pub open spec fn spec_set_ep_active(a: Seq<u8>, dest: Seq<Edge>, n: int) -> Seq<u8>
    decreases n,
{
    if n <= 0 {
        a
    } else {
        let prev = spec_set_ep_active(a, dest, n - 1);
        let d = (dest[n - 1] as u8) as int;
        prev.update(d, spec_lane_set_ep(prev[d], (n - 1) as u8))
    }
}

// ---- laws -------------------------------------------------------------------------

/// Bit facts used by the group laws.
pub proof fn lemma_xor_bits(x: u8, y: u8, z: u8)
    by (bit_vector)
    ensures
        x & 15 < 16,
        (x ^ y) ^ z == x ^ (y ^ z),
        (x ^ (y & 112)) & 15 == x & 15,
        (x ^ (y & 112)) & 112 == (x & 112) ^ (y & 112),
        ((y & 112) ^ (z & 112)) & 112 == (y & 112) ^ (z & 112),
        x < 128 ==> (x & 15) ^ (x & 112) == x,
        x < 128 ==> x ^ (x & 112) == x & 15,
        z < 16 ==> ((x & 112) | z) & 15 == z,
        z < 16 ==> ((x & 112) | z) & 112 == x & 112,
        z < 16 ==> ((x & 112) | z) ^ (x & 112) == z,
        z < 16 ==> ((x & 112) | z) < 128,
        z < 16 ==> z & 15 == z && z & 112 == 0,
        x < 128 && y < 128 ==> x ^ (y & 112) < 128,
        x ^ 0 == x,
{
}

/// Composition of valid edges is valid.
pub proof fn lemma_compose_wf(a: Seq<u8>, b: Seq<u8>)
    requires
        wf(a),
        wf(b),
    ensures
        wf(spec_compose(a, b)),
{
    let c = spec_compose(a, b);
    assert forall|i: int| 0 <= i < 16 implies #[trigger] c[i] < 128 by {
        lemma_xor_bits(b[i], 0, 0);
        lemma_xor_bits(a[(b[i] & 15) as int], b[i], 0);
    }
    assert forall|i: int, j: int| 0 <= i < 16 && 0 <= j < 16 && i != j implies (#[trigger] c[i] & 15) != (#[trigger] c[j] & 15) by {
        lemma_xor_bits(b[i], 0, 0);
        lemma_xor_bits(b[j], 0, 0);
        lemma_xor_bits(a[(b[i] & 15) as int], b[i], 0);
        lemma_xor_bits(a[(b[j] & 15) as int], b[j], 0);
    }
}

/// Whether slot or piece `k` lies in the E slice.
pub open spec fn in_e_slice(k: int) -> bool {
    8 <= k < 12
}

/// Whether slot or piece `k` lies in the M slice.
pub open spec fn in_m_slice(k: int) -> bool {
    4 <= k < 8
}

/// The lane `x` at slot `i` keeps the layout of the lanes: a padding slot holds its own
/// number and no orientation; an edge slot holds an edge, the top bit clear, and its
/// orientations relative to LR and UD follow from that relative to FB: they differ from it
/// exactly when one of the piece and the slot lies in the E slice (for LR) or in the M
/// slice (for UD) and the other does not.
pub open spec fn eo_lane_ok(x: u8, i: int) -> bool {
    if 12 <= i < 16 {
        x == i as u8
    } else {
        let p = (x & 15) as int;
        &&& p < 12
        &&& x < 128
        &&& (x >> 5u8) & 1 == ((x >> 4u8) & 1) ^ (if in_e_slice(p) != in_e_slice(i) { 1u8 } else { 0u8 })
        &&& (x >> 6u8) & 1 == ((x >> 4u8) & 1) ^ (if in_m_slice(p) != in_m_slice(i) { 1u8 } else { 0u8 })
    }
}

/// Every lane keeps the layout.
pub open spec fn eo_layout(a: Seq<u8>) -> bool {
    &&& a.len() == 16
    &&& forall|i: int| 0 <= i < 16 ==> #[trigger] eo_lane_ok(a[i], i)
}

/// The orientation bits of a lane taken into another, as composition does.
proof fn lemma_eo_compose_bits(u: u8, y: u8, pe: bool, je: bool, ie: bool, pm: bool, jm: bool, im: bool)
    by (bit_vector)
    requires
        u < 128,
        y < 128,
        (u >> 5u8) & 1 == ((u >> 4u8) & 1) ^ (if pe != je { 1u8 } else { 0u8 }),
        (u >> 6u8) & 1 == ((u >> 4u8) & 1) ^ (if pm != jm { 1u8 } else { 0u8 }),
        (y >> 5u8) & 1 == ((y >> 4u8) & 1) ^ (if je != ie { 1u8 } else { 0u8 }),
        (y >> 6u8) & 1 == ((y >> 4u8) & 1) ^ (if jm != im { 1u8 } else { 0u8 }),
    ensures
        (u ^ (y & 112)) & 15 == u & 15,
        (u ^ (y & 112)) < 128,
        ((u ^ (y & 112)) >> 5u8) & 1 == (((u ^ (y & 112)) >> 4u8) & 1) ^ (if pe != ie { 1u8 } else { 0u8 }),
        ((u ^ (y & 112)) >> 6u8) & 1 == (((u ^ (y & 112)) >> 4u8) & 1) ^ (if pm != im { 1u8 } else { 0u8 }),
{
}

/// Composition keeps the layout of the lanes: the padding in place, and the orientations
/// of each edge relative to the three axes tied to one another.
pub proof fn lemma_compose_eo_layout(a: Seq<u8>, b: Seq<u8>)
    requires
        eo_layout(a),
        eo_layout(b),
    ensures
        eo_layout(spec_compose(a, b)),
{
    let c = spec_compose(a, b);
    assert forall|i: int| 0 <= i < 16 implies #[trigger] eo_lane_ok(c[i], i) by {
        let y = b[i];
        assert(eo_lane_ok(y, i));
        if 12 <= i {
            lemma_xor_bits(y, 0, y);
            let j = (y & 15) as int;
            assert(j == i);
            assert(eo_lane_ok(a[j], j));
            lemma_xor_bits(a[j], 0, y);
            assert(c[i] == a[j] ^ (y & 112));
        } else {
            let j = (y & 15) as int;
            lemma_xor_bits(y, 0, 0);
            assert(0 <= j < 12);
            let u = a[j];
            assert(eo_lane_ok(u, j));
            let p = (u & 15) as int;
            lemma_eo_compose_bits(u, y, in_e_slice(p), in_e_slice(j), in_e_slice(i),
                in_m_slice(p), in_m_slice(j), in_m_slice(i));
            assert(c[i] == u ^ (y & 112));
        }
    }
}

/// The solved edges keep the layout of the lanes.
pub proof fn lemma_ident_eo_layout()
    ensures
        eo_layout(spec_ident()),
{
    assert forall|i: int| 0 <= i < 16 implies #[trigger] eo_lane_ok(spec_ident()[i], i) by {
        let x = i as u8;
        lemma_xor_bits(0, 0, x);
        if i < 12 {
            lemma_eo_ident_bits(x);
        }
    }
}

/// The bits of a lane below 16.
proof fn lemma_eo_ident_bits(x: u8)
    by (bit_vector)
    requires
        x < 16,
    ensures
        (x >> 4u8) & 1 == 0,
        (x >> 5u8) & 1 == 0,
        (x >> 6u8) & 1 == 0,
        (0u8 ^ 0u8) == 0u8,
{
}

/// The lanes of U.
#[verifier::rlimit(80)]
#[verifier::spinoff_prover]
pub proof fn lemma_move_lanes_u()
    ensures
        spec_move(Move::U) == seq![71u8, 1u8, 2u8, 68u8, 64u8, 5u8, 6u8, 67u8, 8u8, 9u8, 10u8, 11u8, 12u8, 13u8, 14u8, 15u8],
{
    let a = spec_move(Move::U);
    let m = spec_move_magic(Move::U) as int;
    assert(m == 0xf0e0d0c0b0a09084306054044020147);
    assert(m / 0x100 == 0xf0e0d0c0b0a090843060540440201);
    assert(m / 0x10000 == 0xf0e0d0c0b0a0908430605404402);
    assert(m / 0x1000000 == 0xf0e0d0c0b0a09084306054044);
    assert(m / 0x100000000 == 0xf0e0d0c0b0a090843060540);
    assert(m / 0x10000000000 == 0xf0e0d0c0b0a0908430605);
    assert(m / 0x1000000000000 == 0xf0e0d0c0b0a09084306);
    assert(m / 0x100000000000000 == 0xf0e0d0c0b0a090843);
    assert(m / 0x10000000000000000 == 0xf0e0d0c0b0a0908);
    assert(m / 0x1000000000000000000 == 0xf0e0d0c0b0a09);
    assert(m / 0x100000000000000000000 == 0xf0e0d0c0b0a);
    assert(m / 0x10000000000000000000000 == 0xf0e0d0c0b);
    assert(m / 0x1000000000000000000000000 == 0xf0e0d0c);
    assert(m / 0x100000000000000000000000000 == 0xf0e0d);
    assert(m / 0x10000000000000000000000000000 == 0xf0e);
    assert(m / 0x1000000000000000000000000000000 == 0xf);
    assert(a[0] == 71);
    assert(a[1] == 1);
    assert(a[2] == 2);
    assert(a[3] == 68);
    assert(a[4] == 64);
    assert(a[5] == 5);
    assert(a[6] == 6);
    assert(a[7] == 67);
    assert(a[8] == 8);
    assert(a[9] == 9);
    assert(a[10] == 10);
    assert(a[11] == 11);
    assert(a[12] == 12);
    assert(a[13] == 13);
    assert(a[14] == 14);
    assert(a[15] == 15);
    assert(a =~= seq![71u8, 1u8, 2u8, 68u8, 64u8, 5u8, 6u8, 67u8, 8u8, 9u8, 10u8, 11u8, 12u8, 13u8, 14u8, 15u8]);
}

/// The lanes of U2.
#[verifier::rlimit(80)]
#[verifier::spinoff_prover]
pub proof fn lemma_move_lanes_u2()
    ensures
        spec_move(Move::U2) == seq![3u8, 1u8, 2u8, 0u8, 7u8, 5u8, 6u8, 4u8, 8u8, 9u8, 10u8, 11u8, 12u8, 13u8, 14u8, 15u8],
{
    let a = spec_move(Move::U2);
    let m = spec_move_magic(Move::U2) as int;
    assert(m == 0xf0e0d0c0b0a09080406050700020103);
    assert(m / 0x100 == 0xf0e0d0c0b0a090804060507000201);
    assert(m / 0x10000 == 0xf0e0d0c0b0a0908040605070002);
    assert(m / 0x1000000 == 0xf0e0d0c0b0a09080406050700);
    assert(m / 0x100000000 == 0xf0e0d0c0b0a090804060507);
    assert(m / 0x10000000000 == 0xf0e0d0c0b0a0908040605);
    assert(m / 0x1000000000000 == 0xf0e0d0c0b0a09080406);
    assert(m / 0x100000000000000 == 0xf0e0d0c0b0a090804);
    assert(m / 0x10000000000000000 == 0xf0e0d0c0b0a0908);
    assert(m / 0x1000000000000000000 == 0xf0e0d0c0b0a09);
    assert(m / 0x100000000000000000000 == 0xf0e0d0c0b0a);
    assert(m / 0x10000000000000000000000 == 0xf0e0d0c0b);
    assert(m / 0x1000000000000000000000000 == 0xf0e0d0c);
    assert(m / 0x100000000000000000000000000 == 0xf0e0d);
    assert(m / 0x10000000000000000000000000000 == 0xf0e);
    assert(m / 0x1000000000000000000000000000000 == 0xf);
    assert(a[0] == 3);
    assert(a[1] == 1);
    assert(a[2] == 2);
    assert(a[3] == 0);
    assert(a[4] == 7);
    assert(a[5] == 5);
    assert(a[6] == 6);
    assert(a[7] == 4);
    assert(a[8] == 8);
    assert(a[9] == 9);
    assert(a[10] == 10);
    assert(a[11] == 11);
    assert(a[12] == 12);
    assert(a[13] == 13);
    assert(a[14] == 14);
    assert(a[15] == 15);
    assert(a =~= seq![3u8, 1u8, 2u8, 0u8, 7u8, 5u8, 6u8, 4u8, 8u8, 9u8, 10u8, 11u8, 12u8, 13u8, 14u8, 15u8]);
}

/// The lanes of U3.
#[verifier::rlimit(80)]
#[verifier::spinoff_prover]
pub proof fn lemma_move_lanes_u3()
    ensures
        spec_move(Move::U3) == seq![68u8, 1u8, 2u8, 71u8, 67u8, 5u8, 6u8, 64u8, 8u8, 9u8, 10u8, 11u8, 12u8, 13u8, 14u8, 15u8],
{
    let a = spec_move(Move::U3);
    let m = spec_move_magic(Move::U3) as int;
    assert(m == 0xf0e0d0c0b0a09084006054347020144);
    assert(m / 0x100 == 0xf0e0d0c0b0a090840060543470201);
    assert(m / 0x10000 == 0xf0e0d0c0b0a0908400605434702);
    assert(m / 0x1000000 == 0xf0e0d0c0b0a09084006054347);
    assert(m / 0x100000000 == 0xf0e0d0c0b0a090840060543);
    assert(m / 0x10000000000 == 0xf0e0d0c0b0a0908400605);
    assert(m / 0x1000000000000 == 0xf0e0d0c0b0a09084006);
    assert(m / 0x100000000000000 == 0xf0e0d0c0b0a090840);
    assert(m / 0x10000000000000000 == 0xf0e0d0c0b0a0908);
    assert(m / 0x1000000000000000000 == 0xf0e0d0c0b0a09);
    assert(m / 0x100000000000000000000 == 0xf0e0d0c0b0a);
    assert(m / 0x10000000000000000000000 == 0xf0e0d0c0b);
    assert(m / 0x1000000000000000000000000 == 0xf0e0d0c);
    assert(m / 0x100000000000000000000000000 == 0xf0e0d);
    assert(m / 0x10000000000000000000000000000 == 0xf0e);
    assert(m / 0x1000000000000000000000000000000 == 0xf);
    assert(a[0] == 68);
    assert(a[1] == 1);
    assert(a[2] == 2);
    assert(a[3] == 71);
    assert(a[4] == 67);
    assert(a[5] == 5);
    assert(a[6] == 6);
    assert(a[7] == 64);
    assert(a[8] == 8);
    assert(a[9] == 9);
    assert(a[10] == 10);
    assert(a[11] == 11);
    assert(a[12] == 12);
    assert(a[13] == 13);
    assert(a[14] == 14);
    assert(a[15] == 15);
    assert(a =~= seq![68u8, 1u8, 2u8, 71u8, 67u8, 5u8, 6u8, 64u8, 8u8, 9u8, 10u8, 11u8, 12u8, 13u8, 14u8, 15u8]);
}

/// The lanes of D.
#[verifier::rlimit(80)]
#[verifier::spinoff_prover]
pub proof fn lemma_move_lanes_d()
    ensures
        spec_move(Move::D) == seq![0u8, 69u8, 70u8, 3u8, 4u8, 66u8, 65u8, 7u8, 8u8, 9u8, 10u8, 11u8, 12u8, 13u8, 14u8, 15u8],
{
    let a = spec_move(Move::D);
    let m = spec_move_magic(Move::D) as int;
    assert(m == 0xf0e0d0c0b0a09080741420403464500);
    assert(m / 0x100 == 0xf0e0d0c0b0a090807414204034645);
    assert(m / 0x10000 == 0xf0e0d0c0b0a0908074142040346);
    assert(m / 0x1000000 == 0xf0e0d0c0b0a09080741420403);
    assert(m / 0x100000000 == 0xf0e0d0c0b0a090807414204);
    assert(m / 0x10000000000 == 0xf0e0d0c0b0a0908074142);
    assert(m / 0x1000000000000 == 0xf0e0d0c0b0a09080741);
    assert(m / 0x100000000000000 == 0xf0e0d0c0b0a090807);
    assert(m / 0x10000000000000000 == 0xf0e0d0c0b0a0908);
    assert(m / 0x1000000000000000000 == 0xf0e0d0c0b0a09);
    assert(m / 0x100000000000000000000 == 0xf0e0d0c0b0a);
    assert(m / 0x10000000000000000000000 == 0xf0e0d0c0b);
    assert(m / 0x1000000000000000000000000 == 0xf0e0d0c);
    assert(m / 0x100000000000000000000000000 == 0xf0e0d);
    assert(m / 0x10000000000000000000000000000 == 0xf0e);
    assert(m / 0x1000000000000000000000000000000 == 0xf);
    assert(a[0] == 0);
    assert(a[1] == 69);
    assert(a[2] == 70);
    assert(a[3] == 3);
    assert(a[4] == 4);
    assert(a[5] == 66);
    assert(a[6] == 65);
    assert(a[7] == 7);
    assert(a[8] == 8);
    assert(a[9] == 9);
    assert(a[10] == 10);
    assert(a[11] == 11);
    assert(a[12] == 12);
    assert(a[13] == 13);
    assert(a[14] == 14);
    assert(a[15] == 15);
    assert(a =~= seq![0u8, 69u8, 70u8, 3u8, 4u8, 66u8, 65u8, 7u8, 8u8, 9u8, 10u8, 11u8, 12u8, 13u8, 14u8, 15u8]);
}

/// The lanes of D2.
#[verifier::rlimit(80)]
#[verifier::spinoff_prover]
pub proof fn lemma_move_lanes_d2()
    ensures
        spec_move(Move::D2) == seq![0u8, 2u8, 1u8, 3u8, 4u8, 6u8, 5u8, 7u8, 8u8, 9u8, 10u8, 11u8, 12u8, 13u8, 14u8, 15u8],
{
    let a = spec_move(Move::D2);
    let m = spec_move_magic(Move::D2) as int;
    assert(m == 0xf0e0d0c0b0a09080705060403010200);
    assert(m / 0x100 == 0xf0e0d0c0b0a090807050604030102);
    assert(m / 0x10000 == 0xf0e0d0c0b0a0908070506040301);
    assert(m / 0x1000000 == 0xf0e0d0c0b0a09080705060403);
    assert(m / 0x100000000 == 0xf0e0d0c0b0a090807050604);
    assert(m / 0x10000000000 == 0xf0e0d0c0b0a0908070506);
    assert(m / 0x1000000000000 == 0xf0e0d0c0b0a09080705);
    assert(m / 0x100000000000000 == 0xf0e0d0c0b0a090807);
    assert(m / 0x10000000000000000 == 0xf0e0d0c0b0a0908);
    assert(m / 0x1000000000000000000 == 0xf0e0d0c0b0a09);
    assert(m / 0x100000000000000000000 == 0xf0e0d0c0b0a);
    assert(m / 0x10000000000000000000000 == 0xf0e0d0c0b);
    assert(m / 0x1000000000000000000000000 == 0xf0e0d0c);
    assert(m / 0x100000000000000000000000000 == 0xf0e0d);
    assert(m / 0x10000000000000000000000000000 == 0xf0e);
    assert(m / 0x1000000000000000000000000000000 == 0xf);
    assert(a[0] == 0);
    assert(a[1] == 2);
    assert(a[2] == 1);
    assert(a[3] == 3);
    assert(a[4] == 4);
    assert(a[5] == 6);
    assert(a[6] == 5);
    assert(a[7] == 7);
    assert(a[8] == 8);
    assert(a[9] == 9);
    assert(a[10] == 10);
    assert(a[11] == 11);
    assert(a[12] == 12);
    assert(a[13] == 13);
    assert(a[14] == 14);
    assert(a[15] == 15);
    assert(a =~= seq![0u8, 2u8, 1u8, 3u8, 4u8, 6u8, 5u8, 7u8, 8u8, 9u8, 10u8, 11u8, 12u8, 13u8, 14u8, 15u8]);
}

/// The lanes of D3.
#[verifier::rlimit(80)]
#[verifier::spinoff_prover]
pub proof fn lemma_move_lanes_d3()
    ensures
        spec_move(Move::D3) == seq![0u8, 70u8, 69u8, 3u8, 4u8, 65u8, 66u8, 7u8, 8u8, 9u8, 10u8, 11u8, 12u8, 13u8, 14u8, 15u8],
{
    let a = spec_move(Move::D3);
    let m = spec_move_magic(Move::D3) as int;
    assert(m == 0xf0e0d0c0b0a09080742410403454600);
    assert(m / 0x100 == 0xf0e0d0c0b0a090807424104034546);
    assert(m / 0x10000 == 0xf0e0d0c0b0a0908074241040345);
    assert(m / 0x1000000 == 0xf0e0d0c0b0a09080742410403);
    assert(m / 0x100000000 == 0xf0e0d0c0b0a090807424104);
    assert(m / 0x10000000000 == 0xf0e0d0c0b0a0908074241);
    assert(m / 0x1000000000000 == 0xf0e0d0c0b0a09080742);
    assert(m / 0x100000000000000 == 0xf0e0d0c0b0a090807);
    assert(m / 0x10000000000000000 == 0xf0e0d0c0b0a0908);
    assert(m / 0x1000000000000000000 == 0xf0e0d0c0b0a09);
    assert(m / 0x100000000000000000000 == 0xf0e0d0c0b0a);
    assert(m / 0x10000000000000000000000 == 0xf0e0d0c0b);
    assert(m / 0x1000000000000000000000000 == 0xf0e0d0c);
    assert(m / 0x100000000000000000000000000 == 0xf0e0d);
    assert(m / 0x10000000000000000000000000000 == 0xf0e);
    assert(m / 0x1000000000000000000000000000000 == 0xf);
    assert(a[0] == 0);
    assert(a[1] == 70);
    assert(a[2] == 69);
    assert(a[3] == 3);
    assert(a[4] == 4);
    assert(a[5] == 65);
    assert(a[6] == 66);
    assert(a[7] == 7);
    assert(a[8] == 8);
    assert(a[9] == 9);
    assert(a[10] == 10);
    assert(a[11] == 11);
    assert(a[12] == 12);
    assert(a[13] == 13);
    assert(a[14] == 14);
    assert(a[15] == 15);
    assert(a =~= seq![0u8, 70u8, 69u8, 3u8, 4u8, 65u8, 66u8, 7u8, 8u8, 9u8, 10u8, 11u8, 12u8, 13u8, 14u8, 15u8]);
}

/// The lanes of F.
#[verifier::rlimit(80)]
#[verifier::spinoff_prover]
pub proof fn lemma_move_lanes_f()
    ensures
        spec_move(Move::F) == seq![0u8, 1u8, 2u8, 3u8, 27u8, 24u8, 6u8, 7u8, 20u8, 9u8, 10u8, 21u8, 12u8, 13u8, 14u8, 15u8],
{
    let a = spec_move(Move::F);
    let m = spec_move_magic(Move::F) as int;
    assert(m == 0xf0e0d0c150a09140706181b03020100);
    assert(m / 0x100 == 0xf0e0d0c150a09140706181b030201);
    assert(m / 0x10000 == 0xf0e0d0c150a09140706181b0302);
    assert(m / 0x1000000 == 0xf0e0d0c150a09140706181b03);
    assert(m / 0x100000000 == 0xf0e0d0c150a09140706181b);
    assert(m / 0x10000000000 == 0xf0e0d0c150a0914070618);
    assert(m / 0x1000000000000 == 0xf0e0d0c150a09140706);
    assert(m / 0x100000000000000 == 0xf0e0d0c150a091407);
    assert(m / 0x10000000000000000 == 0xf0e0d0c150a0914);
    assert(m / 0x1000000000000000000 == 0xf0e0d0c150a09);
    assert(m / 0x100000000000000000000 == 0xf0e0d0c150a);
    assert(m / 0x10000000000000000000000 == 0xf0e0d0c15);
    assert(m / 0x1000000000000000000000000 == 0xf0e0d0c);
    assert(m / 0x100000000000000000000000000 == 0xf0e0d);
    assert(m / 0x10000000000000000000000000000 == 0xf0e);
    assert(m / 0x1000000000000000000000000000000 == 0xf);
    assert(a[0] == 0);
    assert(a[1] == 1);
    assert(a[2] == 2);
    assert(a[3] == 3);
    assert(a[4] == 27);
    assert(a[5] == 24);
    assert(a[6] == 6);
    assert(a[7] == 7);
    assert(a[8] == 20);
    assert(a[9] == 9);
    assert(a[10] == 10);
    assert(a[11] == 21);
    assert(a[12] == 12);
    assert(a[13] == 13);
    assert(a[14] == 14);
    assert(a[15] == 15);
    assert(a =~= seq![0u8, 1u8, 2u8, 3u8, 27u8, 24u8, 6u8, 7u8, 20u8, 9u8, 10u8, 21u8, 12u8, 13u8, 14u8, 15u8]);
}

/// The lanes of F2.
#[verifier::rlimit(80)]
#[verifier::spinoff_prover]
pub proof fn lemma_move_lanes_f2()
    ensures
        spec_move(Move::F2) == seq![0u8, 1u8, 2u8, 3u8, 5u8, 4u8, 6u8, 7u8, 11u8, 9u8, 10u8, 8u8, 12u8, 13u8, 14u8, 15u8],
{
    let a = spec_move(Move::F2);
    let m = spec_move_magic(Move::F2) as int;
    assert(m == 0xf0e0d0c080a090b0706040503020100);
    assert(m / 0x100 == 0xf0e0d0c080a090b07060405030201);
    assert(m / 0x10000 == 0xf0e0d0c080a090b070604050302);
    assert(m / 0x1000000 == 0xf0e0d0c080a090b0706040503);
    assert(m / 0x100000000 == 0xf0e0d0c080a090b07060405);
    assert(m / 0x10000000000 == 0xf0e0d0c080a090b070604);
    assert(m / 0x1000000000000 == 0xf0e0d0c080a090b0706);
    assert(m / 0x100000000000000 == 0xf0e0d0c080a090b07);
    assert(m / 0x10000000000000000 == 0xf0e0d0c080a090b);
    assert(m / 0x1000000000000000000 == 0xf0e0d0c080a09);
    assert(m / 0x100000000000000000000 == 0xf0e0d0c080a);
    assert(m / 0x10000000000000000000000 == 0xf0e0d0c08);
    assert(m / 0x1000000000000000000000000 == 0xf0e0d0c);
    assert(m / 0x100000000000000000000000000 == 0xf0e0d);
    assert(m / 0x10000000000000000000000000000 == 0xf0e);
    assert(m / 0x1000000000000000000000000000000 == 0xf);
    assert(a[0] == 0);
    assert(a[1] == 1);
    assert(a[2] == 2);
    assert(a[3] == 3);
    assert(a[4] == 5);
    assert(a[5] == 4);
    assert(a[6] == 6);
    assert(a[7] == 7);
    assert(a[8] == 11);
    assert(a[9] == 9);
    assert(a[10] == 10);
    assert(a[11] == 8);
    assert(a[12] == 12);
    assert(a[13] == 13);
    assert(a[14] == 14);
    assert(a[15] == 15);
    assert(a =~= seq![0u8, 1u8, 2u8, 3u8, 5u8, 4u8, 6u8, 7u8, 11u8, 9u8, 10u8, 8u8, 12u8, 13u8, 14u8, 15u8]);
}

/// The lanes of F3.
#[verifier::rlimit(80)]
#[verifier::spinoff_prover]
pub proof fn lemma_move_lanes_f3()
    ensures
        spec_move(Move::F3) == seq![0u8, 1u8, 2u8, 3u8, 24u8, 27u8, 6u8, 7u8, 21u8, 9u8, 10u8, 20u8, 12u8, 13u8, 14u8, 15u8],
{
    let a = spec_move(Move::F3);
    let m = spec_move_magic(Move::F3) as int;
    assert(m == 0xf0e0d0c140a091507061b1803020100);
    assert(m / 0x100 == 0xf0e0d0c140a091507061b18030201);
    assert(m / 0x10000 == 0xf0e0d0c140a091507061b180302);
    assert(m / 0x1000000 == 0xf0e0d0c140a091507061b1803);
    assert(m / 0x100000000 == 0xf0e0d0c140a091507061b18);
    assert(m / 0x10000000000 == 0xf0e0d0c140a091507061b);
    assert(m / 0x1000000000000 == 0xf0e0d0c140a09150706);
    assert(m / 0x100000000000000 == 0xf0e0d0c140a091507);
    assert(m / 0x10000000000000000 == 0xf0e0d0c140a0915);
    assert(m / 0x1000000000000000000 == 0xf0e0d0c140a09);
    assert(m / 0x100000000000000000000 == 0xf0e0d0c140a);
    assert(m / 0x10000000000000000000000 == 0xf0e0d0c14);
    assert(m / 0x1000000000000000000000000 == 0xf0e0d0c);
    assert(m / 0x100000000000000000000000000 == 0xf0e0d);
    assert(m / 0x10000000000000000000000000000 == 0xf0e);
    assert(m / 0x1000000000000000000000000000000 == 0xf);
    assert(a[0] == 0);
    assert(a[1] == 1);
    assert(a[2] == 2);
    assert(a[3] == 3);
    assert(a[4] == 24);
    assert(a[5] == 27);
    assert(a[6] == 6);
    assert(a[7] == 7);
    assert(a[8] == 21);
    assert(a[9] == 9);
    assert(a[10] == 10);
    assert(a[11] == 20);
    assert(a[12] == 12);
    assert(a[13] == 13);
    assert(a[14] == 14);
    assert(a[15] == 15);
    assert(a =~= seq![0u8, 1u8, 2u8, 3u8, 24u8, 27u8, 6u8, 7u8, 21u8, 9u8, 10u8, 20u8, 12u8, 13u8, 14u8, 15u8]);
}

/// The lanes of B.
#[verifier::rlimit(80)]
#[verifier::spinoff_prover]
pub proof fn lemma_move_lanes_b()
    ensures
        spec_move(Move::B) == seq![0u8, 1u8, 2u8, 3u8, 4u8, 5u8, 26u8, 25u8, 8u8, 22u8, 23u8, 11u8, 12u8, 13u8, 14u8, 15u8],
{
    let a = spec_move(Move::B);
    let m = spec_move_magic(Move::B) as int;
    assert(m == 0xf0e0d0c0b171608191a050403020100);
    assert(m / 0x100 == 0xf0e0d0c0b171608191a0504030201);
    assert(m / 0x10000 == 0xf0e0d0c0b171608191a05040302);
    assert(m / 0x1000000 == 0xf0e0d0c0b171608191a050403);
    assert(m / 0x100000000 == 0xf0e0d0c0b171608191a0504);
    assert(m / 0x10000000000 == 0xf0e0d0c0b171608191a05);
    assert(m / 0x1000000000000 == 0xf0e0d0c0b171608191a);
    assert(m / 0x100000000000000 == 0xf0e0d0c0b17160819);
    assert(m / 0x10000000000000000 == 0xf0e0d0c0b171608);
    assert(m / 0x1000000000000000000 == 0xf0e0d0c0b1716);
    assert(m / 0x100000000000000000000 == 0xf0e0d0c0b17);
    assert(m / 0x10000000000000000000000 == 0xf0e0d0c0b);
    assert(m / 0x1000000000000000000000000 == 0xf0e0d0c);
    assert(m / 0x100000000000000000000000000 == 0xf0e0d);
    assert(m / 0x10000000000000000000000000000 == 0xf0e);
    assert(m / 0x1000000000000000000000000000000 == 0xf);
    assert(a[0] == 0);
    assert(a[1] == 1);
    assert(a[2] == 2);
    assert(a[3] == 3);
    assert(a[4] == 4);
    assert(a[5] == 5);
    assert(a[6] == 26);
    assert(a[7] == 25);
    assert(a[8] == 8);
    assert(a[9] == 22);
    assert(a[10] == 23);
    assert(a[11] == 11);
    assert(a[12] == 12);
    assert(a[13] == 13);
    assert(a[14] == 14);
    assert(a[15] == 15);
    assert(a =~= seq![0u8, 1u8, 2u8, 3u8, 4u8, 5u8, 26u8, 25u8, 8u8, 22u8, 23u8, 11u8, 12u8, 13u8, 14u8, 15u8]);
}

/// The lanes of B2.
#[verifier::rlimit(80)]
#[verifier::spinoff_prover]
pub proof fn lemma_move_lanes_b2()
    ensures
        spec_move(Move::B2) == seq![0u8, 1u8, 2u8, 3u8, 4u8, 5u8, 7u8, 6u8, 8u8, 10u8, 9u8, 11u8, 12u8, 13u8, 14u8, 15u8],
{
    let a = spec_move(Move::B2);
    let m = spec_move_magic(Move::B2) as int;
    assert(m == 0xf0e0d0c0b090a080607050403020100);
    assert(m / 0x100 == 0xf0e0d0c0b090a0806070504030201);
    assert(m / 0x10000 == 0xf0e0d0c0b090a08060705040302);
    assert(m / 0x1000000 == 0xf0e0d0c0b090a080607050403);
    assert(m / 0x100000000 == 0xf0e0d0c0b090a0806070504);
    assert(m / 0x10000000000 == 0xf0e0d0c0b090a08060705);
    assert(m / 0x1000000000000 == 0xf0e0d0c0b090a080607);
    assert(m / 0x100000000000000 == 0xf0e0d0c0b090a0806);
    assert(m / 0x10000000000000000 == 0xf0e0d0c0b090a08);
    assert(m / 0x1000000000000000000 == 0xf0e0d0c0b090a);
    assert(m / 0x100000000000000000000 == 0xf0e0d0c0b09);
    assert(m / 0x10000000000000000000000 == 0xf0e0d0c0b);
    assert(m / 0x1000000000000000000000000 == 0xf0e0d0c);
    assert(m / 0x100000000000000000000000000 == 0xf0e0d);
    assert(m / 0x10000000000000000000000000000 == 0xf0e);
    assert(m / 0x1000000000000000000000000000000 == 0xf);
    assert(a[0] == 0);
    assert(a[1] == 1);
    assert(a[2] == 2);
    assert(a[3] == 3);
    assert(a[4] == 4);
    assert(a[5] == 5);
    assert(a[6] == 7);
    assert(a[7] == 6);
    assert(a[8] == 8);
    assert(a[9] == 10);
    assert(a[10] == 9);
    assert(a[11] == 11);
    assert(a[12] == 12);
    assert(a[13] == 13);
    assert(a[14] == 14);
    assert(a[15] == 15);
    assert(a =~= seq![0u8, 1u8, 2u8, 3u8, 4u8, 5u8, 7u8, 6u8, 8u8, 10u8, 9u8, 11u8, 12u8, 13u8, 14u8, 15u8]);
}

/// The lanes of B3.
#[verifier::rlimit(80)]
#[verifier::spinoff_prover]
pub proof fn lemma_move_lanes_b3()
    ensures
        spec_move(Move::B3) == seq![0u8, 1u8, 2u8, 3u8, 4u8, 5u8, 25u8, 26u8, 8u8, 23u8, 22u8, 11u8, 12u8, 13u8, 14u8, 15u8],
{
    let a = spec_move(Move::B3);
    let m = spec_move_magic(Move::B3) as int;
    assert(m == 0xf0e0d0c0b1617081a19050403020100);
    assert(m / 0x100 == 0xf0e0d0c0b1617081a190504030201);
    assert(m / 0x10000 == 0xf0e0d0c0b1617081a1905040302);
    assert(m / 0x1000000 == 0xf0e0d0c0b1617081a19050403);
    assert(m / 0x100000000 == 0xf0e0d0c0b1617081a190504);
    assert(m / 0x10000000000 == 0xf0e0d0c0b1617081a1905);
    assert(m / 0x1000000000000 == 0xf0e0d0c0b1617081a19);
    assert(m / 0x100000000000000 == 0xf0e0d0c0b1617081a);
    assert(m / 0x10000000000000000 == 0xf0e0d0c0b161708);
    assert(m / 0x1000000000000000000 == 0xf0e0d0c0b1617);
    assert(m / 0x100000000000000000000 == 0xf0e0d0c0b16);
    assert(m / 0x10000000000000000000000 == 0xf0e0d0c0b);
    assert(m / 0x1000000000000000000000000 == 0xf0e0d0c);
    assert(m / 0x100000000000000000000000000 == 0xf0e0d);
    assert(m / 0x10000000000000000000000000000 == 0xf0e);
    assert(m / 0x1000000000000000000000000000000 == 0xf);
    assert(a[0] == 0);
    assert(a[1] == 1);
    assert(a[2] == 2);
    assert(a[3] == 3);
    assert(a[4] == 4);
    assert(a[5] == 5);
    assert(a[6] == 25);
    assert(a[7] == 26);
    assert(a[8] == 8);
    assert(a[9] == 23);
    assert(a[10] == 22);
    assert(a[11] == 11);
    assert(a[12] == 12);
    assert(a[13] == 13);
    assert(a[14] == 14);
    assert(a[15] == 15);
    assert(a =~= seq![0u8, 1u8, 2u8, 3u8, 4u8, 5u8, 25u8, 26u8, 8u8, 23u8, 22u8, 11u8, 12u8, 13u8, 14u8, 15u8]);
}

/// The lanes of R.
#[verifier::rlimit(80)]
#[verifier::spinoff_prover]
pub proof fn lemma_move_lanes_r()
    ensures
        spec_move(Move::R) == seq![40u8, 41u8, 2u8, 3u8, 4u8, 5u8, 6u8, 7u8, 33u8, 32u8, 10u8, 11u8, 12u8, 13u8, 14u8, 15u8],
{
    let a = spec_move(Move::R);
    let m = spec_move_magic(Move::R) as int;
    assert(m == 0xf0e0d0c0b0a20210706050403022928);
    assert(m / 0x100 == 0xf0e0d0c0b0a202107060504030229);
    assert(m / 0x10000 == 0xf0e0d0c0b0a2021070605040302);
    assert(m / 0x1000000 == 0xf0e0d0c0b0a20210706050403);
    assert(m / 0x100000000 == 0xf0e0d0c0b0a202107060504);
    assert(m / 0x10000000000 == 0xf0e0d0c0b0a2021070605);
    assert(m / 0x1000000000000 == 0xf0e0d0c0b0a20210706);
    assert(m / 0x100000000000000 == 0xf0e0d0c0b0a202107);
    assert(m / 0x10000000000000000 == 0xf0e0d0c0b0a2021);
    assert(m / 0x1000000000000000000 == 0xf0e0d0c0b0a20);
    assert(m / 0x100000000000000000000 == 0xf0e0d0c0b0a);
    assert(m / 0x10000000000000000000000 == 0xf0e0d0c0b);
    assert(m / 0x1000000000000000000000000 == 0xf0e0d0c);
    assert(m / 0x100000000000000000000000000 == 0xf0e0d);
    assert(m / 0x10000000000000000000000000000 == 0xf0e);
    assert(m / 0x1000000000000000000000000000000 == 0xf);
    assert(a[0] == 40);
    assert(a[1] == 41);
    assert(a[2] == 2);
    assert(a[3] == 3);
    assert(a[4] == 4);
    assert(a[5] == 5);
    assert(a[6] == 6);
    assert(a[7] == 7);
    assert(a[8] == 33);
    assert(a[9] == 32);
    assert(a[10] == 10);
    assert(a[11] == 11);
    assert(a[12] == 12);
    assert(a[13] == 13);
    assert(a[14] == 14);
    assert(a[15] == 15);
    assert(a =~= seq![40u8, 41u8, 2u8, 3u8, 4u8, 5u8, 6u8, 7u8, 33u8, 32u8, 10u8, 11u8, 12u8, 13u8, 14u8, 15u8]);
}

/// The lanes of R2.
#[verifier::rlimit(80)]
#[verifier::spinoff_prover]
pub proof fn lemma_move_lanes_r2()
    ensures
        spec_move(Move::R2) == seq![1u8, 0u8, 2u8, 3u8, 4u8, 5u8, 6u8, 7u8, 9u8, 8u8, 10u8, 11u8, 12u8, 13u8, 14u8, 15u8],
{
    let a = spec_move(Move::R2);
    let m = spec_move_magic(Move::R2) as int;
    assert(m == 0xf0e0d0c0b0a08090706050403020001);
    assert(m / 0x100 == 0xf0e0d0c0b0a080907060504030200);
    assert(m / 0x10000 == 0xf0e0d0c0b0a0809070605040302);
    assert(m / 0x1000000 == 0xf0e0d0c0b0a08090706050403);
    assert(m / 0x100000000 == 0xf0e0d0c0b0a080907060504);
    assert(m / 0x10000000000 == 0xf0e0d0c0b0a0809070605);
    assert(m / 0x1000000000000 == 0xf0e0d0c0b0a08090706);
    assert(m / 0x100000000000000 == 0xf0e0d0c0b0a080907);
    assert(m / 0x10000000000000000 == 0xf0e0d0c0b0a0809);
    assert(m / 0x1000000000000000000 == 0xf0e0d0c0b0a08);
    assert(m / 0x100000000000000000000 == 0xf0e0d0c0b0a);
    assert(m / 0x10000000000000000000000 == 0xf0e0d0c0b);
    assert(m / 0x1000000000000000000000000 == 0xf0e0d0c);
    assert(m / 0x100000000000000000000000000 == 0xf0e0d);
    assert(m / 0x10000000000000000000000000000 == 0xf0e);
    assert(m / 0x1000000000000000000000000000000 == 0xf);
    assert(a[0] == 1);
    assert(a[1] == 0);
    assert(a[2] == 2);
    assert(a[3] == 3);
    assert(a[4] == 4);
    assert(a[5] == 5);
    assert(a[6] == 6);
    assert(a[7] == 7);
    assert(a[8] == 9);
    assert(a[9] == 8);
    assert(a[10] == 10);
    assert(a[11] == 11);
    assert(a[12] == 12);
    assert(a[13] == 13);
    assert(a[14] == 14);
    assert(a[15] == 15);
    assert(a =~= seq![1u8, 0u8, 2u8, 3u8, 4u8, 5u8, 6u8, 7u8, 9u8, 8u8, 10u8, 11u8, 12u8, 13u8, 14u8, 15u8]);
}

/// The lanes of R3.
#[verifier::rlimit(80)]
#[verifier::spinoff_prover]
pub proof fn lemma_move_lanes_r3()
    ensures
        spec_move(Move::R3) == seq![41u8, 40u8, 2u8, 3u8, 4u8, 5u8, 6u8, 7u8, 32u8, 33u8, 10u8, 11u8, 12u8, 13u8, 14u8, 15u8],
{
    let a = spec_move(Move::R3);
    let m = spec_move_magic(Move::R3) as int;
    assert(m == 0xf0e0d0c0b0a21200706050403022829);
    assert(m / 0x100 == 0xf0e0d0c0b0a212007060504030228);
    assert(m / 0x10000 == 0xf0e0d0c0b0a2120070605040302);
    assert(m / 0x1000000 == 0xf0e0d0c0b0a21200706050403);
    assert(m / 0x100000000 == 0xf0e0d0c0b0a212007060504);
    assert(m / 0x10000000000 == 0xf0e0d0c0b0a2120070605);
    assert(m / 0x1000000000000 == 0xf0e0d0c0b0a21200706);
    assert(m / 0x100000000000000 == 0xf0e0d0c0b0a212007);
    assert(m / 0x10000000000000000 == 0xf0e0d0c0b0a2120);
    assert(m / 0x1000000000000000000 == 0xf0e0d0c0b0a21);
    assert(m / 0x100000000000000000000 == 0xf0e0d0c0b0a);
    assert(m / 0x10000000000000000000000 == 0xf0e0d0c0b);
    assert(m / 0x1000000000000000000000000 == 0xf0e0d0c);
    assert(m / 0x100000000000000000000000000 == 0xf0e0d);
    assert(m / 0x10000000000000000000000000000 == 0xf0e);
    assert(m / 0x1000000000000000000000000000000 == 0xf);
    assert(a[0] == 41);
    assert(a[1] == 40);
    assert(a[2] == 2);
    assert(a[3] == 3);
    assert(a[4] == 4);
    assert(a[5] == 5);
    assert(a[6] == 6);
    assert(a[7] == 7);
    assert(a[8] == 32);
    assert(a[9] == 33);
    assert(a[10] == 10);
    assert(a[11] == 11);
    assert(a[12] == 12);
    assert(a[13] == 13);
    assert(a[14] == 14);
    assert(a[15] == 15);
    assert(a =~= seq![41u8, 40u8, 2u8, 3u8, 4u8, 5u8, 6u8, 7u8, 32u8, 33u8, 10u8, 11u8, 12u8, 13u8, 14u8, 15u8]);
}

/// The lanes of L.
#[verifier::rlimit(80)]
#[verifier::spinoff_prover]
pub proof fn lemma_move_lanes_l()
    ensures
        spec_move(Move::L) == seq![0u8, 1u8, 43u8, 42u8, 4u8, 5u8, 6u8, 7u8, 8u8, 9u8, 34u8, 35u8, 12u8, 13u8, 14u8, 15u8],
{
    let a = spec_move(Move::L);
    let m = spec_move_magic(Move::L) as int;
    assert(m == 0xf0e0d0c23220908070605042a2b0100);
    assert(m / 0x100 == 0xf0e0d0c23220908070605042a2b01);
    assert(m / 0x10000 == 0xf0e0d0c23220908070605042a2b);
    assert(m / 0x1000000 == 0xf0e0d0c23220908070605042a);
    assert(m / 0x100000000 == 0xf0e0d0c2322090807060504);
    assert(m / 0x10000000000 == 0xf0e0d0c23220908070605);
    assert(m / 0x1000000000000 == 0xf0e0d0c232209080706);
    assert(m / 0x100000000000000 == 0xf0e0d0c2322090807);
    assert(m / 0x10000000000000000 == 0xf0e0d0c23220908);
    assert(m / 0x1000000000000000000 == 0xf0e0d0c232209);
    assert(m / 0x100000000000000000000 == 0xf0e0d0c2322);
    assert(m / 0x10000000000000000000000 == 0xf0e0d0c23);
    assert(m / 0x1000000000000000000000000 == 0xf0e0d0c);
    assert(m / 0x100000000000000000000000000 == 0xf0e0d);
    assert(m / 0x10000000000000000000000000000 == 0xf0e);
    assert(m / 0x1000000000000000000000000000000 == 0xf);
    assert(a[0] == 0);
    assert(a[1] == 1);
    assert(a[2] == 43);
    assert(a[3] == 42);
    assert(a[4] == 4);
    assert(a[5] == 5);
    assert(a[6] == 6);
    assert(a[7] == 7);
    assert(a[8] == 8);
    assert(a[9] == 9);
    assert(a[10] == 34);
    assert(a[11] == 35);
    assert(a[12] == 12);
    assert(a[13] == 13);
    assert(a[14] == 14);
    assert(a[15] == 15);
    assert(a =~= seq![0u8, 1u8, 43u8, 42u8, 4u8, 5u8, 6u8, 7u8, 8u8, 9u8, 34u8, 35u8, 12u8, 13u8, 14u8, 15u8]);
}

/// The lanes of L2.
#[verifier::rlimit(80)]
#[verifier::spinoff_prover]
pub proof fn lemma_move_lanes_l2()
    ensures
        spec_move(Move::L2) == seq![0u8, 1u8, 3u8, 2u8, 4u8, 5u8, 6u8, 7u8, 8u8, 9u8, 11u8, 10u8, 12u8, 13u8, 14u8, 15u8],
{
    let a = spec_move(Move::L2);
    let m = spec_move_magic(Move::L2) as int;
    assert(m == 0xf0e0d0c0a0b09080706050402030100);
    assert(m / 0x100 == 0xf0e0d0c0a0b090807060504020301);
    assert(m / 0x10000 == 0xf0e0d0c0a0b0908070605040203);
    assert(m / 0x1000000 == 0xf0e0d0c0a0b09080706050402);
    assert(m / 0x100000000 == 0xf0e0d0c0a0b090807060504);
    assert(m / 0x10000000000 == 0xf0e0d0c0a0b0908070605);
    assert(m / 0x1000000000000 == 0xf0e0d0c0a0b09080706);
    assert(m / 0x100000000000000 == 0xf0e0d0c0a0b090807);
    assert(m / 0x10000000000000000 == 0xf0e0d0c0a0b0908);
    assert(m / 0x1000000000000000000 == 0xf0e0d0c0a0b09);
    assert(m / 0x100000000000000000000 == 0xf0e0d0c0a0b);
    assert(m / 0x10000000000000000000000 == 0xf0e0d0c0a);
    assert(m / 0x1000000000000000000000000 == 0xf0e0d0c);
    assert(m / 0x100000000000000000000000000 == 0xf0e0d);
    assert(m / 0x10000000000000000000000000000 == 0xf0e);
    assert(m / 0x1000000000000000000000000000000 == 0xf);
    assert(a[0] == 0);
    assert(a[1] == 1);
    assert(a[2] == 3);
    assert(a[3] == 2);
    assert(a[4] == 4);
    assert(a[5] == 5);
    assert(a[6] == 6);
    assert(a[7] == 7);
    assert(a[8] == 8);
    assert(a[9] == 9);
    assert(a[10] == 11);
    assert(a[11] == 10);
    assert(a[12] == 12);
    assert(a[13] == 13);
    assert(a[14] == 14);
    assert(a[15] == 15);
    assert(a =~= seq![0u8, 1u8, 3u8, 2u8, 4u8, 5u8, 6u8, 7u8, 8u8, 9u8, 11u8, 10u8, 12u8, 13u8, 14u8, 15u8]);
}

/// The lanes of L3.
#[verifier::rlimit(80)]
#[verifier::spinoff_prover]
pub proof fn lemma_move_lanes_l3()
    ensures
        spec_move(Move::L3) == seq![0u8, 1u8, 42u8, 43u8, 4u8, 5u8, 6u8, 7u8, 8u8, 9u8, 35u8, 34u8, 12u8, 13u8, 14u8, 15u8],
{
    let a = spec_move(Move::L3);
    let m = spec_move_magic(Move::L3) as int;
    assert(m == 0xf0e0d0c22230908070605042b2a0100);
    assert(m / 0x100 == 0xf0e0d0c22230908070605042b2a01);
    assert(m / 0x10000 == 0xf0e0d0c22230908070605042b2a);
    assert(m / 0x1000000 == 0xf0e0d0c22230908070605042b);
    assert(m / 0x100000000 == 0xf0e0d0c2223090807060504);
    assert(m / 0x10000000000 == 0xf0e0d0c22230908070605);
    assert(m / 0x1000000000000 == 0xf0e0d0c222309080706);
    assert(m / 0x100000000000000 == 0xf0e0d0c2223090807);
    assert(m / 0x10000000000000000 == 0xf0e0d0c22230908);
    assert(m / 0x1000000000000000000 == 0xf0e0d0c222309);
    assert(m / 0x100000000000000000000 == 0xf0e0d0c2223);
    assert(m / 0x10000000000000000000000 == 0xf0e0d0c22);
    assert(m / 0x1000000000000000000000000 == 0xf0e0d0c);
    assert(m / 0x100000000000000000000000000 == 0xf0e0d);
    assert(m / 0x10000000000000000000000000000 == 0xf0e);
    assert(m / 0x1000000000000000000000000000000 == 0xf);
    assert(a[0] == 0);
    assert(a[1] == 1);
    assert(a[2] == 42);
    assert(a[3] == 43);
    assert(a[4] == 4);
    assert(a[5] == 5);
    assert(a[6] == 6);
    assert(a[7] == 7);
    assert(a[8] == 8);
    assert(a[9] == 9);
    assert(a[10] == 35);
    assert(a[11] == 34);
    assert(a[12] == 12);
    assert(a[13] == 13);
    assert(a[14] == 14);
    assert(a[15] == 15);
    assert(a =~= seq![0u8, 1u8, 42u8, 43u8, 4u8, 5u8, 6u8, 7u8, 8u8, 9u8, 35u8, 34u8, 12u8, 13u8, 14u8, 15u8]);
}

/// Lane `x` at slot `i` keeps the layout, read with arithmetic in place of bits.
spec fn eo_lane_arith(x: u8, i: int) -> bool {
    if 12 <= i < 16 {
        x == i as u8
    } else {
        let p = (x % 16) as int;
        &&& p < 12
        &&& x < 128
        &&& (x / 32) % 2 == ((x / 16) % 2 + (if in_e_slice(p) != in_e_slice(i) { 1int } else { 0int })) % 2
        &&& (x / 64) % 2 == ((x / 16) % 2 + (if in_m_slice(p) != in_m_slice(i) { 1int } else { 0int })) % 2
    }
}

/// The bits of a lane read with arithmetic.
proof fn lemma_eo_lane_bits(x: u8, e1: u8, e2: u8)
    by (bit_vector)
    requires
        e1 < 2,
        e2 < 2,
    ensures
        x & 15 == x % 16,
        ((x >> 5u8) & 1 == ((x >> 4u8) & 1) ^ e1) == ((x / 32) % 2 == ((x / 16) % 2 + e1) % 2),
        ((x >> 6u8) & 1 == ((x >> 4u8) & 1) ^ e2) == ((x / 64) % 2 == ((x / 16) % 2 + e2) % 2),
{
}

/// A lane that keeps the layout read with arithmetic keeps it.
proof fn lemma_eo_lane_arith(x: u8, i: int)
    requires
        0 <= i < 16,
        eo_lane_arith(x, i),
    ensures
        eo_lane_ok(x, i),
{
    if i < 12 {
        let p = (x % 16) as int;
        let e1: u8 = if in_e_slice(p) != in_e_slice(i) { 1 } else { 0 };
        let e2: u8 = if in_m_slice(p) != in_m_slice(i) { 1 } else { 0 };
        lemma_eo_lane_bits(x, e1, e2);
    }
}

/// Lanes that each keep the layout read with arithmetic keep it.
proof fn lemma_eo_layout_arith(a: Seq<u8>)
    requires
        a.len() == 16,
        eo_lane_arith(a[0], 0),
        eo_lane_arith(a[1], 1),
        eo_lane_arith(a[2], 2),
        eo_lane_arith(a[3], 3),
        eo_lane_arith(a[4], 4),
        eo_lane_arith(a[5], 5),
        eo_lane_arith(a[6], 6),
        eo_lane_arith(a[7], 7),
        eo_lane_arith(a[8], 8),
        eo_lane_arith(a[9], 9),
        eo_lane_arith(a[10], 10),
        eo_lane_arith(a[11], 11),
        eo_lane_arith(a[12], 12),
        eo_lane_arith(a[13], 13),
        eo_lane_arith(a[14], 14),
        eo_lane_arith(a[15], 15),
    ensures
        eo_layout(a),
{
    assert forall|i: int| 0 <= i < 16 implies #[trigger] eo_lane_ok(a[i], i) by {
        if i == 0 { lemma_eo_lane_arith(a[0], 0); }
        else if i == 1 { lemma_eo_lane_arith(a[1], 1); }
        else if i == 2 { lemma_eo_lane_arith(a[2], 2); }
        else if i == 3 { lemma_eo_lane_arith(a[3], 3); }
        else if i == 4 { lemma_eo_lane_arith(a[4], 4); }
        else if i == 5 { lemma_eo_lane_arith(a[5], 5); }
        else if i == 6 { lemma_eo_lane_arith(a[6], 6); }
        else if i == 7 { lemma_eo_lane_arith(a[7], 7); }
        else if i == 8 { lemma_eo_lane_arith(a[8], 8); }
        else if i == 9 { lemma_eo_lane_arith(a[9], 9); }
        else if i == 10 { lemma_eo_lane_arith(a[10], 10); }
        else if i == 11 { lemma_eo_lane_arith(a[11], 11); }
        else if i == 12 { lemma_eo_lane_arith(a[12], 12); }
        else if i == 13 { lemma_eo_lane_arith(a[13], 13); }
        else if i == 14 { lemma_eo_lane_arith(a[14], 14); }
        else if i == 15 { lemma_eo_lane_arith(a[15], 15); }
    }
}

/// The lanes of every move keep the layout.
pub proof fn lemma_move_eo_layout(m: Move)
    ensures
        eo_layout(spec_move(m)),
{
    match m {
        Move::U => lemma_move_lanes_u(),
        Move::U2 => lemma_move_lanes_u2(),
        Move::U3 => lemma_move_lanes_u3(),
        Move::D => lemma_move_lanes_d(),
        Move::D2 => lemma_move_lanes_d2(),
        Move::D3 => lemma_move_lanes_d3(),
        Move::F => lemma_move_lanes_f(),
        Move::F2 => lemma_move_lanes_f2(),
        Move::F3 => lemma_move_lanes_f3(),
        Move::B => lemma_move_lanes_b(),
        Move::B2 => lemma_move_lanes_b2(),
        Move::B3 => lemma_move_lanes_b3(),
        Move::R => lemma_move_lanes_r(),
        Move::R2 => lemma_move_lanes_r2(),
        Move::R3 => lemma_move_lanes_r3(),
        Move::L => lemma_move_lanes_l(),
        Move::L2 => lemma_move_lanes_l2(),
        Move::L3 => lemma_move_lanes_l3(),
    }
    lemma_eo_layout_arith(spec_move(m));
}

/// A lane of `x` taken into a slot where `y` stands, read with arithmetic: the piece of
/// `x`, and each orientation bit the sum of those of `x` and `y` modulo 2.
pub open spec fn spec_xor_eo(x: u8, y: u8) -> int {
    (x % 16) + 16 * (((x / 16) % 2 + (y / 16) % 2) % 2) + 32 * (((x / 32) % 2 + (y / 32) % 2) % 2)
        + 64 * (((x / 64) % 2 + (y / 64) % 2) % 2)
}

/// Composition of lanes read with arithmetic.
proof fn lemma_xor_eo(x: u8, y: u8)
    by (bit_vector)
    requires
        x < 128,
        y < 128,
    ensures
        y & 15 == y % 16,
        (x ^ (y & 112)) as int == (x % 16) + 16 * (((x / 16) % 2 + (y / 16) % 2) % 2)
            + 32 * (((x / 32) % 2 + (y / 32) % 2) % 2) + 64 * (((x / 64) % 2 + (y / 64) % 2) % 2),
{
}

/// Slot `i` of `c` holds what composing `a` and then `b` brings there, read with arithmetic.
pub open spec fn edge_composes_to(a: Seq<u8>, b: Seq<u8>, c: Seq<u8>, i: int) -> bool {
    &&& a[i] < 128
    &&& b[i] < 128
    &&& c[i] as int == spec_xor_eo(a[(b[i] % 16) as int], b[i])
}

/// Edges that agree slot by slot with composing `a` and then `b` are that composition.
pub proof fn lemma_edge_composes_to(a: Seq<u8>, b: Seq<u8>, c: Seq<u8>)
    requires
        a.len() == 16,
        b.len() == 16,
        c.len() == 16,
        edge_composes_to(a, b, c, 0),
        edge_composes_to(a, b, c, 1),
        edge_composes_to(a, b, c, 2),
        edge_composes_to(a, b, c, 3),
        edge_composes_to(a, b, c, 4),
        edge_composes_to(a, b, c, 5),
        edge_composes_to(a, b, c, 6),
        edge_composes_to(a, b, c, 7),
        edge_composes_to(a, b, c, 8),
        edge_composes_to(a, b, c, 9),
        edge_composes_to(a, b, c, 10),
        edge_composes_to(a, b, c, 11),
        edge_composes_to(a, b, c, 12),
        edge_composes_to(a, b, c, 13),
        edge_composes_to(a, b, c, 14),
        edge_composes_to(a, b, c, 15),
    ensures
        spec_compose(a, b) == c,
{
    assert forall|k: int| 0 <= k < 16 implies #[trigger] a[k] < 128 by {
        if k == 0 { assert(edge_composes_to(a, b, c, 0)); }
        else if k == 1 { assert(edge_composes_to(a, b, c, 1)); }
        else if k == 2 { assert(edge_composes_to(a, b, c, 2)); }
        else if k == 3 { assert(edge_composes_to(a, b, c, 3)); }
        else if k == 4 { assert(edge_composes_to(a, b, c, 4)); }
        else if k == 5 { assert(edge_composes_to(a, b, c, 5)); }
        else if k == 6 { assert(edge_composes_to(a, b, c, 6)); }
        else if k == 7 { assert(edge_composes_to(a, b, c, 7)); }
        else if k == 8 { assert(edge_composes_to(a, b, c, 8)); }
        else if k == 9 { assert(edge_composes_to(a, b, c, 9)); }
        else if k == 10 { assert(edge_composes_to(a, b, c, 10)); }
        else if k == 11 { assert(edge_composes_to(a, b, c, 11)); }
        else if k == 12 { assert(edge_composes_to(a, b, c, 12)); }
        else if k == 13 { assert(edge_composes_to(a, b, c, 13)); }
        else if k == 14 { assert(edge_composes_to(a, b, c, 14)); }
        else if k == 15 { assert(edge_composes_to(a, b, c, 15)); }
    }
    let ab = spec_compose(a, b);
    assert forall|i: int| 0 <= i < 16 implies #[trigger] ab[i] == c[i] by {
        if i == 0 { assert(edge_composes_to(a, b, c, 0)); }
        else if i == 1 { assert(edge_composes_to(a, b, c, 1)); }
        else if i == 2 { assert(edge_composes_to(a, b, c, 2)); }
        else if i == 3 { assert(edge_composes_to(a, b, c, 3)); }
        else if i == 4 { assert(edge_composes_to(a, b, c, 4)); }
        else if i == 5 { assert(edge_composes_to(a, b, c, 5)); }
        else if i == 6 { assert(edge_composes_to(a, b, c, 6)); }
        else if i == 7 { assert(edge_composes_to(a, b, c, 7)); }
        else if i == 8 { assert(edge_composes_to(a, b, c, 8)); }
        else if i == 9 { assert(edge_composes_to(a, b, c, 9)); }
        else if i == 10 { assert(edge_composes_to(a, b, c, 10)); }
        else if i == 11 { assert(edge_composes_to(a, b, c, 11)); }
        else if i == 12 { assert(edge_composes_to(a, b, c, 12)); }
        else if i == 13 { assert(edge_composes_to(a, b, c, 13)); }
        else if i == 14 { assert(edge_composes_to(a, b, c, 14)); }
        else if i == 15 { assert(edge_composes_to(a, b, c, 15)); }
        lemma_xor_eo(a[(b[i] % 16) as int], b[i]);
    }
    assert(ab =~= c);
}

/// Turning U a quarter and back does nothing, and two quarters make a half turn.
#[verifier::spinoff_prover]
proof fn lemma_edge_turns_u()
    ensures
        spec_compose(spec_move(Move::U), spec_move(Move::U3)) == spec_ident(),
        spec_compose(spec_move(Move::U), spec_move(Move::U)) == spec_move(Move::U2),
{
    lemma_move_lanes_u();
    lemma_move_lanes_u2();
    lemma_move_lanes_u3();
    assert(spec_ident() =~= seq![0u8, 1u8, 2u8, 3u8, 4u8, 5u8, 6u8, 7u8, 8u8, 9u8, 10u8, 11u8, 12u8, 13u8, 14u8, 15u8]);
    lemma_edge_composes_to(spec_move(Move::U), spec_move(Move::U3), spec_ident());
    lemma_edge_composes_to(spec_move(Move::U), spec_move(Move::U), spec_move(Move::U2));
}

/// Turning D a quarter and back does nothing, and two quarters make a half turn.
#[verifier::spinoff_prover]
proof fn lemma_edge_turns_d()
    ensures
        spec_compose(spec_move(Move::D), spec_move(Move::D3)) == spec_ident(),
        spec_compose(spec_move(Move::D), spec_move(Move::D)) == spec_move(Move::D2),
{
    lemma_move_lanes_d();
    lemma_move_lanes_d2();
    lemma_move_lanes_d3();
    assert(spec_ident() =~= seq![0u8, 1u8, 2u8, 3u8, 4u8, 5u8, 6u8, 7u8, 8u8, 9u8, 10u8, 11u8, 12u8, 13u8, 14u8, 15u8]);
    lemma_edge_composes_to(spec_move(Move::D), spec_move(Move::D3), spec_ident());
    lemma_edge_composes_to(spec_move(Move::D), spec_move(Move::D), spec_move(Move::D2));
}

/// Turning F a quarter and back does nothing, and two quarters make a half turn.
#[verifier::spinoff_prover]
proof fn lemma_edge_turns_f()
    ensures
        spec_compose(spec_move(Move::F), spec_move(Move::F3)) == spec_ident(),
        spec_compose(spec_move(Move::F), spec_move(Move::F)) == spec_move(Move::F2),
{
    lemma_move_lanes_f();
    lemma_move_lanes_f2();
    lemma_move_lanes_f3();
    assert(spec_ident() =~= seq![0u8, 1u8, 2u8, 3u8, 4u8, 5u8, 6u8, 7u8, 8u8, 9u8, 10u8, 11u8, 12u8, 13u8, 14u8, 15u8]);
    lemma_edge_composes_to(spec_move(Move::F), spec_move(Move::F3), spec_ident());
    lemma_edge_composes_to(spec_move(Move::F), spec_move(Move::F), spec_move(Move::F2));
}

/// Turning B a quarter and back does nothing, and two quarters make a half turn.
#[verifier::spinoff_prover]
proof fn lemma_edge_turns_b()
    ensures
        spec_compose(spec_move(Move::B), spec_move(Move::B3)) == spec_ident(),
        spec_compose(spec_move(Move::B), spec_move(Move::B)) == spec_move(Move::B2),
{
    lemma_move_lanes_b();
    lemma_move_lanes_b2();
    lemma_move_lanes_b3();
    assert(spec_ident() =~= seq![0u8, 1u8, 2u8, 3u8, 4u8, 5u8, 6u8, 7u8, 8u8, 9u8, 10u8, 11u8, 12u8, 13u8, 14u8, 15u8]);
    lemma_edge_composes_to(spec_move(Move::B), spec_move(Move::B3), spec_ident());
    lemma_edge_composes_to(spec_move(Move::B), spec_move(Move::B), spec_move(Move::B2));
}

/// Turning R a quarter and back does nothing, and two quarters make a half turn.
#[verifier::spinoff_prover]
proof fn lemma_edge_turns_r()
    ensures
        spec_compose(spec_move(Move::R), spec_move(Move::R3)) == spec_ident(),
        spec_compose(spec_move(Move::R), spec_move(Move::R)) == spec_move(Move::R2),
{
    lemma_move_lanes_r();
    lemma_move_lanes_r2();
    lemma_move_lanes_r3();
    assert(spec_ident() =~= seq![0u8, 1u8, 2u8, 3u8, 4u8, 5u8, 6u8, 7u8, 8u8, 9u8, 10u8, 11u8, 12u8, 13u8, 14u8, 15u8]);
    lemma_edge_composes_to(spec_move(Move::R), spec_move(Move::R3), spec_ident());
    lemma_edge_composes_to(spec_move(Move::R), spec_move(Move::R), spec_move(Move::R2));
}

/// Turning L a quarter and back does nothing, and two quarters make a half turn.
#[verifier::spinoff_prover]
proof fn lemma_edge_turns_l()
    ensures
        spec_compose(spec_move(Move::L), spec_move(Move::L3)) == spec_ident(),
        spec_compose(spec_move(Move::L), spec_move(Move::L)) == spec_move(Move::L2),
{
    lemma_move_lanes_l();
    lemma_move_lanes_l2();
    lemma_move_lanes_l3();
    assert(spec_ident() =~= seq![0u8, 1u8, 2u8, 3u8, 4u8, 5u8, 6u8, 7u8, 8u8, 9u8, 10u8, 11u8, 12u8, 13u8, 14u8, 15u8]);
    lemma_edge_composes_to(spec_move(Move::L), spec_move(Move::L3), spec_ident());
    lemma_edge_composes_to(spec_move(Move::L), spec_move(Move::L), spec_move(Move::L2));
}

/// A quarter turn of a face followed by the turn the other way leaves any edges as they
/// were, and a half turn of the face is two quarter turns.
pub proof fn lemma_quarter_turns(e: Seq<u8>, m: Move)
    requires
        e.len() == 16,
        (m as u8) % 3 == 0,
    ensures
        spec_compose(spec_compose(e, spec_move(m)), spec_move(Move::spec_from_index(((m as u8) + 2) as u8))) == e,
        spec_compose(e, spec_move(Move::spec_from_index(((m as u8) + 1) as u8)))
            == spec_compose(spec_compose(e, spec_move(m)), spec_move(m)),
{
    let q2 = Move::spec_from_index(((m as u8) + 1) as u8);
    let q3 = Move::spec_from_index(((m as u8) + 2) as u8);
    match m {
        Move::U => lemma_edge_turns_u(),
        Move::D => lemma_edge_turns_d(),
        Move::F => lemma_edge_turns_f(),
        Move::B => lemma_edge_turns_b(),
        Move::R => lemma_edge_turns_r(),
        Move::L => lemma_edge_turns_l(),
        _ => {},
    }
    lemma_compose_assoc(e, spec_move(m), spec_move(q3));
    lemma_compose_assoc(e, spec_move(m), spec_move(m));
    lemma_compose_ident_right(e);
}

/// Edges `a` then `b` and edges `c` then `d` agree at slot `i`, read with arithmetic.
spec fn edge_composes_same(a: Seq<u8>, b: Seq<u8>, c: Seq<u8>, d: Seq<u8>, i: int) -> bool {
    &&& a[i] < 128 && b[i] < 128 && c[i] < 128 && d[i] < 128
    &&& spec_xor_eo(a[(b[i] % 16) as int], b[i]) == spec_xor_eo(c[(d[i] % 16) as int], d[i])
}

/// Edges that keep the layout and agree at one slot, read with arithmetic, compose alike
/// there.
proof fn lemma_edge_lane_same(a: Seq<u8>, b: Seq<u8>, c: Seq<u8>, d: Seq<u8>, i: int)
    requires
        eo_layout(a),
        eo_layout(c),
        b.len() == 16,
        d.len() == 16,
        0 <= i < 16,
        edge_composes_same(a, b, c, d, i),
    ensures
        spec_compose(a, b)[i] == spec_compose(c, d)[i],
{
    let j = (b[i] % 16) as int;
    let k = (d[i] % 16) as int;
    assert(eo_lane_ok(a[j], j));
    assert(eo_lane_ok(c[k], k));
    lemma_xor_eo(a[j], b[i]);
    lemma_xor_eo(c[k], d[i]);
}

/// Edges that keep the layout and agree slot by slot compose alike.
proof fn lemma_edge_composes_same(a: Seq<u8>, b: Seq<u8>, c: Seq<u8>, d: Seq<u8>)
    requires
        eo_layout(a),
        eo_layout(c),
        b.len() == 16,
        d.len() == 16,
        edge_composes_same(a, b, c, d, 0),
        edge_composes_same(a, b, c, d, 1),
        edge_composes_same(a, b, c, d, 2),
        edge_composes_same(a, b, c, d, 3),
        edge_composes_same(a, b, c, d, 4),
        edge_composes_same(a, b, c, d, 5),
        edge_composes_same(a, b, c, d, 6),
        edge_composes_same(a, b, c, d, 7),
        edge_composes_same(a, b, c, d, 8),
        edge_composes_same(a, b, c, d, 9),
        edge_composes_same(a, b, c, d, 10),
        edge_composes_same(a, b, c, d, 11),
        edge_composes_same(a, b, c, d, 12),
        edge_composes_same(a, b, c, d, 13),
        edge_composes_same(a, b, c, d, 14),
        edge_composes_same(a, b, c, d, 15),
    ensures
        spec_compose(a, b) == spec_compose(c, d),
{
    lemma_edge_lane_same(a, b, c, d, 0);
    lemma_edge_lane_same(a, b, c, d, 1);
    lemma_edge_lane_same(a, b, c, d, 2);
    lemma_edge_lane_same(a, b, c, d, 3);
    lemma_edge_lane_same(a, b, c, d, 4);
    lemma_edge_lane_same(a, b, c, d, 5);
    lemma_edge_lane_same(a, b, c, d, 6);
    lemma_edge_lane_same(a, b, c, d, 7);
    lemma_edge_lane_same(a, b, c, d, 8);
    lemma_edge_lane_same(a, b, c, d, 9);
    lemma_edge_lane_same(a, b, c, d, 10);
    lemma_edge_lane_same(a, b, c, d, 11);
    lemma_edge_lane_same(a, b, c, d, 12);
    lemma_edge_lane_same(a, b, c, d, 13);
    lemma_edge_lane_same(a, b, c, d, 14);
    lemma_edge_lane_same(a, b, c, d, 15);
    assert(spec_compose(a, b) =~= spec_compose(c, d));
}

/// Two turns of U add up to one, or to none.
#[verifier::spinoff_prover]
proof fn lemma_face_add_u(a: int, b: int)
    requires
        1 <= a <= 3,
        1 <= b <= 3,
    ensures
        spec_compose(spec_move(spec_face_move(Face::U, a)), spec_move(spec_face_move(Face::U, b)))
            == if (a + b) % 4 == 0 { spec_ident() } else { spec_move(spec_face_move(Face::U, (a + b) % 4)) },
{
    lemma_move_lanes_u();
    lemma_move_lanes_u2();
    lemma_move_lanes_u3();
    assert(spec_ident() =~= seq![0u8, 1u8, 2u8, 3u8, 4u8, 5u8, 6u8, 7u8, 8u8, 9u8, 10u8, 11u8, 12u8, 13u8, 14u8, 15u8]);
    assert(spec_face_move(Face::U, 1) == Move::U);
    assert(spec_face_move(Face::U, 2) == Move::U2);
    assert(spec_face_move(Face::U, 3) == Move::U3);
    if a == 1 && b == 1 {
        lemma_edge_composes_to(spec_move(Move::U), spec_move(Move::U), spec_move(Move::U2));
    } else if a == 1 && b == 2 {
        lemma_edge_composes_to(spec_move(Move::U), spec_move(Move::U2), spec_move(Move::U3));
    } else if a == 1 && b == 3 {
        lemma_edge_composes_to(spec_move(Move::U), spec_move(Move::U3), spec_ident());
    } else if a == 2 && b == 1 {
        lemma_edge_composes_to(spec_move(Move::U2), spec_move(Move::U), spec_move(Move::U3));
    } else if a == 2 && b == 2 {
        lemma_edge_composes_to(spec_move(Move::U2), spec_move(Move::U2), spec_ident());
    } else if a == 2 && b == 3 {
        lemma_edge_composes_to(spec_move(Move::U2), spec_move(Move::U3), spec_move(Move::U));
    } else if a == 3 && b == 1 {
        lemma_edge_composes_to(spec_move(Move::U3), spec_move(Move::U), spec_ident());
    } else if a == 3 && b == 2 {
        lemma_edge_composes_to(spec_move(Move::U3), spec_move(Move::U2), spec_move(Move::U));
    } else {
        lemma_edge_composes_to(spec_move(Move::U3), spec_move(Move::U3), spec_move(Move::U2));
    }
}


/// Two turns of D add up to one, or to none.
#[verifier::spinoff_prover]
proof fn lemma_face_add_d(a: int, b: int)
    requires
        1 <= a <= 3,
        1 <= b <= 3,
    ensures
        spec_compose(spec_move(spec_face_move(Face::D, a)), spec_move(spec_face_move(Face::D, b)))
            == if (a + b) % 4 == 0 { spec_ident() } else { spec_move(spec_face_move(Face::D, (a + b) % 4)) },
{
    lemma_move_lanes_d();
    lemma_move_lanes_d2();
    lemma_move_lanes_d3();
    assert(spec_ident() =~= seq![0u8, 1u8, 2u8, 3u8, 4u8, 5u8, 6u8, 7u8, 8u8, 9u8, 10u8, 11u8, 12u8, 13u8, 14u8, 15u8]);
    assert(spec_face_move(Face::D, 1) == Move::D);
    assert(spec_face_move(Face::D, 2) == Move::D2);
    assert(spec_face_move(Face::D, 3) == Move::D3);
    if a == 1 && b == 1 {
        lemma_edge_composes_to(spec_move(Move::D), spec_move(Move::D), spec_move(Move::D2));
    } else if a == 1 && b == 2 {
        lemma_edge_composes_to(spec_move(Move::D), spec_move(Move::D2), spec_move(Move::D3));
    } else if a == 1 && b == 3 {
        lemma_edge_composes_to(spec_move(Move::D), spec_move(Move::D3), spec_ident());
    } else if a == 2 && b == 1 {
        lemma_edge_composes_to(spec_move(Move::D2), spec_move(Move::D), spec_move(Move::D3));
    } else if a == 2 && b == 2 {
        lemma_edge_composes_to(spec_move(Move::D2), spec_move(Move::D2), spec_ident());
    } else if a == 2 && b == 3 {
        lemma_edge_composes_to(spec_move(Move::D2), spec_move(Move::D3), spec_move(Move::D));
    } else if a == 3 && b == 1 {
        lemma_edge_composes_to(spec_move(Move::D3), spec_move(Move::D), spec_ident());
    } else if a == 3 && b == 2 {
        lemma_edge_composes_to(spec_move(Move::D3), spec_move(Move::D2), spec_move(Move::D));
    } else {
        lemma_edge_composes_to(spec_move(Move::D3), spec_move(Move::D3), spec_move(Move::D2));
    }
}


/// Two turns of F add up to one, or to none.
#[verifier::spinoff_prover]
proof fn lemma_face_add_f(a: int, b: int)
    requires
        1 <= a <= 3,
        1 <= b <= 3,
    ensures
        spec_compose(spec_move(spec_face_move(Face::F, a)), spec_move(spec_face_move(Face::F, b)))
            == if (a + b) % 4 == 0 { spec_ident() } else { spec_move(spec_face_move(Face::F, (a + b) % 4)) },
{
    lemma_move_lanes_f();
    lemma_move_lanes_f2();
    lemma_move_lanes_f3();
    assert(spec_ident() =~= seq![0u8, 1u8, 2u8, 3u8, 4u8, 5u8, 6u8, 7u8, 8u8, 9u8, 10u8, 11u8, 12u8, 13u8, 14u8, 15u8]);
    assert(spec_face_move(Face::F, 1) == Move::F);
    assert(spec_face_move(Face::F, 2) == Move::F2);
    assert(spec_face_move(Face::F, 3) == Move::F3);
    if a == 1 && b == 1 {
        lemma_edge_composes_to(spec_move(Move::F), spec_move(Move::F), spec_move(Move::F2));
    } else if a == 1 && b == 2 {
        lemma_edge_composes_to(spec_move(Move::F), spec_move(Move::F2), spec_move(Move::F3));
    } else if a == 1 && b == 3 {
        lemma_edge_composes_to(spec_move(Move::F), spec_move(Move::F3), spec_ident());
    } else if a == 2 && b == 1 {
        lemma_edge_composes_to(spec_move(Move::F2), spec_move(Move::F), spec_move(Move::F3));
    } else if a == 2 && b == 2 {
        lemma_edge_composes_to(spec_move(Move::F2), spec_move(Move::F2), spec_ident());
    } else if a == 2 && b == 3 {
        lemma_edge_composes_to(spec_move(Move::F2), spec_move(Move::F3), spec_move(Move::F));
    } else if a == 3 && b == 1 {
        lemma_edge_composes_to(spec_move(Move::F3), spec_move(Move::F), spec_ident());
    } else if a == 3 && b == 2 {
        lemma_edge_composes_to(spec_move(Move::F3), spec_move(Move::F2), spec_move(Move::F));
    } else {
        lemma_edge_composes_to(spec_move(Move::F3), spec_move(Move::F3), spec_move(Move::F2));
    }
}


/// Two turns of B add up to one, or to none.
#[verifier::spinoff_prover]
proof fn lemma_face_add_b(a: int, b: int)
    requires
        1 <= a <= 3,
        1 <= b <= 3,
    ensures
        spec_compose(spec_move(spec_face_move(Face::B, a)), spec_move(spec_face_move(Face::B, b)))
            == if (a + b) % 4 == 0 { spec_ident() } else { spec_move(spec_face_move(Face::B, (a + b) % 4)) },
{
    lemma_move_lanes_b();
    lemma_move_lanes_b2();
    lemma_move_lanes_b3();
    assert(spec_ident() =~= seq![0u8, 1u8, 2u8, 3u8, 4u8, 5u8, 6u8, 7u8, 8u8, 9u8, 10u8, 11u8, 12u8, 13u8, 14u8, 15u8]);
    assert(spec_face_move(Face::B, 1) == Move::B);
    assert(spec_face_move(Face::B, 2) == Move::B2);
    assert(spec_face_move(Face::B, 3) == Move::B3);
    if a == 1 && b == 1 {
        lemma_edge_composes_to(spec_move(Move::B), spec_move(Move::B), spec_move(Move::B2));
    } else if a == 1 && b == 2 {
        lemma_edge_composes_to(spec_move(Move::B), spec_move(Move::B2), spec_move(Move::B3));
    } else if a == 1 && b == 3 {
        lemma_edge_composes_to(spec_move(Move::B), spec_move(Move::B3), spec_ident());
    } else if a == 2 && b == 1 {
        lemma_edge_composes_to(spec_move(Move::B2), spec_move(Move::B), spec_move(Move::B3));
    } else if a == 2 && b == 2 {
        lemma_edge_composes_to(spec_move(Move::B2), spec_move(Move::B2), spec_ident());
    } else if a == 2 && b == 3 {
        lemma_edge_composes_to(spec_move(Move::B2), spec_move(Move::B3), spec_move(Move::B));
    } else if a == 3 && b == 1 {
        lemma_edge_composes_to(spec_move(Move::B3), spec_move(Move::B), spec_ident());
    } else if a == 3 && b == 2 {
        lemma_edge_composes_to(spec_move(Move::B3), spec_move(Move::B2), spec_move(Move::B));
    } else {
        lemma_edge_composes_to(spec_move(Move::B3), spec_move(Move::B3), spec_move(Move::B2));
    }
}


/// Two turns of R add up to one, or to none.
#[verifier::spinoff_prover]
proof fn lemma_face_add_r(a: int, b: int)
    requires
        1 <= a <= 3,
        1 <= b <= 3,
    ensures
        spec_compose(spec_move(spec_face_move(Face::R, a)), spec_move(spec_face_move(Face::R, b)))
            == if (a + b) % 4 == 0 { spec_ident() } else { spec_move(spec_face_move(Face::R, (a + b) % 4)) },
{
    lemma_move_lanes_r();
    lemma_move_lanes_r2();
    lemma_move_lanes_r3();
    assert(spec_ident() =~= seq![0u8, 1u8, 2u8, 3u8, 4u8, 5u8, 6u8, 7u8, 8u8, 9u8, 10u8, 11u8, 12u8, 13u8, 14u8, 15u8]);
    assert(spec_face_move(Face::R, 1) == Move::R);
    assert(spec_face_move(Face::R, 2) == Move::R2);
    assert(spec_face_move(Face::R, 3) == Move::R3);
    if a == 1 && b == 1 {
        lemma_edge_composes_to(spec_move(Move::R), spec_move(Move::R), spec_move(Move::R2));
    } else if a == 1 && b == 2 {
        lemma_edge_composes_to(spec_move(Move::R), spec_move(Move::R2), spec_move(Move::R3));
    } else if a == 1 && b == 3 {
        lemma_edge_composes_to(spec_move(Move::R), spec_move(Move::R3), spec_ident());
    } else if a == 2 && b == 1 {
        lemma_edge_composes_to(spec_move(Move::R2), spec_move(Move::R), spec_move(Move::R3));
    } else if a == 2 && b == 2 {
        lemma_edge_composes_to(spec_move(Move::R2), spec_move(Move::R2), spec_ident());
    } else if a == 2 && b == 3 {
        lemma_edge_composes_to(spec_move(Move::R2), spec_move(Move::R3), spec_move(Move::R));
    } else if a == 3 && b == 1 {
        lemma_edge_composes_to(spec_move(Move::R3), spec_move(Move::R), spec_ident());
    } else if a == 3 && b == 2 {
        lemma_edge_composes_to(spec_move(Move::R3), spec_move(Move::R2), spec_move(Move::R));
    } else {
        lemma_edge_composes_to(spec_move(Move::R3), spec_move(Move::R3), spec_move(Move::R2));
    }
}


/// Two turns of L add up to one, or to none.
#[verifier::spinoff_prover]
proof fn lemma_face_add_l(a: int, b: int)
    requires
        1 <= a <= 3,
        1 <= b <= 3,
    ensures
        spec_compose(spec_move(spec_face_move(Face::L, a)), spec_move(spec_face_move(Face::L, b)))
            == if (a + b) % 4 == 0 { spec_ident() } else { spec_move(spec_face_move(Face::L, (a + b) % 4)) },
{
    lemma_move_lanes_l();
    lemma_move_lanes_l2();
    lemma_move_lanes_l3();
    assert(spec_ident() =~= seq![0u8, 1u8, 2u8, 3u8, 4u8, 5u8, 6u8, 7u8, 8u8, 9u8, 10u8, 11u8, 12u8, 13u8, 14u8, 15u8]);
    assert(spec_face_move(Face::L, 1) == Move::L);
    assert(spec_face_move(Face::L, 2) == Move::L2);
    assert(spec_face_move(Face::L, 3) == Move::L3);
    if a == 1 && b == 1 {
        lemma_edge_composes_to(spec_move(Move::L), spec_move(Move::L), spec_move(Move::L2));
    } else if a == 1 && b == 2 {
        lemma_edge_composes_to(spec_move(Move::L), spec_move(Move::L2), spec_move(Move::L3));
    } else if a == 1 && b == 3 {
        lemma_edge_composes_to(spec_move(Move::L), spec_move(Move::L3), spec_ident());
    } else if a == 2 && b == 1 {
        lemma_edge_composes_to(spec_move(Move::L2), spec_move(Move::L), spec_move(Move::L3));
    } else if a == 2 && b == 2 {
        lemma_edge_composes_to(spec_move(Move::L2), spec_move(Move::L2), spec_ident());
    } else if a == 2 && b == 3 {
        lemma_edge_composes_to(spec_move(Move::L2), spec_move(Move::L3), spec_move(Move::L));
    } else if a == 3 && b == 1 {
        lemma_edge_composes_to(spec_move(Move::L3), spec_move(Move::L), spec_ident());
    } else if a == 3 && b == 2 {
        lemma_edge_composes_to(spec_move(Move::L3), spec_move(Move::L2), spec_move(Move::L));
    } else {
        lemma_edge_composes_to(spec_move(Move::L3), spec_move(Move::L3), spec_move(Move::L2));
    }
}


/// Turns of U and of D commute.
#[verifier::spinoff_prover]
proof fn lemma_axis_commute_ud()
    ensures
        spec_compose(spec_move(Move::U), spec_move(Move::D)) == spec_compose(spec_move(Move::D), spec_move(Move::U)),
        spec_compose(spec_move(Move::U), spec_move(Move::D2)) == spec_compose(spec_move(Move::D2), spec_move(Move::U)),
        spec_compose(spec_move(Move::U), spec_move(Move::D3)) == spec_compose(spec_move(Move::D3), spec_move(Move::U)),
        spec_compose(spec_move(Move::U2), spec_move(Move::D)) == spec_compose(spec_move(Move::D), spec_move(Move::U2)),
        spec_compose(spec_move(Move::U2), spec_move(Move::D2)) == spec_compose(spec_move(Move::D2), spec_move(Move::U2)),
        spec_compose(spec_move(Move::U2), spec_move(Move::D3)) == spec_compose(spec_move(Move::D3), spec_move(Move::U2)),
        spec_compose(spec_move(Move::U3), spec_move(Move::D)) == spec_compose(spec_move(Move::D), spec_move(Move::U3)),
        spec_compose(spec_move(Move::U3), spec_move(Move::D2)) == spec_compose(spec_move(Move::D2), spec_move(Move::U3)),
        spec_compose(spec_move(Move::U3), spec_move(Move::D3)) == spec_compose(spec_move(Move::D3), spec_move(Move::U3)),
{
    lemma_move_eo_layout(Move::U);
    lemma_move_eo_layout(Move::U2);
    lemma_move_eo_layout(Move::U3);
    lemma_move_eo_layout(Move::D);
    lemma_move_eo_layout(Move::D2);
    lemma_move_eo_layout(Move::D3);
    lemma_move_lanes_u();
    lemma_move_lanes_u2();
    lemma_move_lanes_u3();
    lemma_move_lanes_d();
    lemma_move_lanes_d2();
    lemma_move_lanes_d3();
    lemma_edge_composes_same(spec_move(Move::U), spec_move(Move::D), spec_move(Move::D), spec_move(Move::U));
    lemma_edge_composes_same(spec_move(Move::U), spec_move(Move::D2), spec_move(Move::D2), spec_move(Move::U));
    lemma_edge_composes_same(spec_move(Move::U), spec_move(Move::D3), spec_move(Move::D3), spec_move(Move::U));
    lemma_edge_composes_same(spec_move(Move::U2), spec_move(Move::D), spec_move(Move::D), spec_move(Move::U2));
    lemma_edge_composes_same(spec_move(Move::U2), spec_move(Move::D2), spec_move(Move::D2), spec_move(Move::U2));
    lemma_edge_composes_same(spec_move(Move::U2), spec_move(Move::D3), spec_move(Move::D3), spec_move(Move::U2));
    lemma_edge_composes_same(spec_move(Move::U3), spec_move(Move::D), spec_move(Move::D), spec_move(Move::U3));
    lemma_edge_composes_same(spec_move(Move::U3), spec_move(Move::D2), spec_move(Move::D2), spec_move(Move::U3));
    lemma_edge_composes_same(spec_move(Move::U3), spec_move(Move::D3), spec_move(Move::D3), spec_move(Move::U3));
}

/// Turns of F and of B commute.
#[verifier::spinoff_prover]
proof fn lemma_axis_commute_fb()
    ensures
        spec_compose(spec_move(Move::F), spec_move(Move::B)) == spec_compose(spec_move(Move::B), spec_move(Move::F)),
        spec_compose(spec_move(Move::F), spec_move(Move::B2)) == spec_compose(spec_move(Move::B2), spec_move(Move::F)),
        spec_compose(spec_move(Move::F), spec_move(Move::B3)) == spec_compose(spec_move(Move::B3), spec_move(Move::F)),
        spec_compose(spec_move(Move::F2), spec_move(Move::B)) == spec_compose(spec_move(Move::B), spec_move(Move::F2)),
        spec_compose(spec_move(Move::F2), spec_move(Move::B2)) == spec_compose(spec_move(Move::B2), spec_move(Move::F2)),
        spec_compose(spec_move(Move::F2), spec_move(Move::B3)) == spec_compose(spec_move(Move::B3), spec_move(Move::F2)),
        spec_compose(spec_move(Move::F3), spec_move(Move::B)) == spec_compose(spec_move(Move::B), spec_move(Move::F3)),
        spec_compose(spec_move(Move::F3), spec_move(Move::B2)) == spec_compose(spec_move(Move::B2), spec_move(Move::F3)),
        spec_compose(spec_move(Move::F3), spec_move(Move::B3)) == spec_compose(spec_move(Move::B3), spec_move(Move::F3)),
{
    lemma_move_eo_layout(Move::F);
    lemma_move_eo_layout(Move::F2);
    lemma_move_eo_layout(Move::F3);
    lemma_move_eo_layout(Move::B);
    lemma_move_eo_layout(Move::B2);
    lemma_move_eo_layout(Move::B3);
    lemma_move_lanes_f();
    lemma_move_lanes_f2();
    lemma_move_lanes_f3();
    lemma_move_lanes_b();
    lemma_move_lanes_b2();
    lemma_move_lanes_b3();
    lemma_edge_composes_same(spec_move(Move::F), spec_move(Move::B), spec_move(Move::B), spec_move(Move::F));
    lemma_edge_composes_same(spec_move(Move::F), spec_move(Move::B2), spec_move(Move::B2), spec_move(Move::F));
    lemma_edge_composes_same(spec_move(Move::F), spec_move(Move::B3), spec_move(Move::B3), spec_move(Move::F));
    lemma_edge_composes_same(spec_move(Move::F2), spec_move(Move::B), spec_move(Move::B), spec_move(Move::F2));
    lemma_edge_composes_same(spec_move(Move::F2), spec_move(Move::B2), spec_move(Move::B2), spec_move(Move::F2));
    lemma_edge_composes_same(spec_move(Move::F2), spec_move(Move::B3), spec_move(Move::B3), spec_move(Move::F2));
    lemma_edge_composes_same(spec_move(Move::F3), spec_move(Move::B), spec_move(Move::B), spec_move(Move::F3));
    lemma_edge_composes_same(spec_move(Move::F3), spec_move(Move::B2), spec_move(Move::B2), spec_move(Move::F3));
    lemma_edge_composes_same(spec_move(Move::F3), spec_move(Move::B3), spec_move(Move::B3), spec_move(Move::F3));
}

/// Turns of R and of L commute.
#[verifier::spinoff_prover]
proof fn lemma_axis_commute_lr()
    ensures
        spec_compose(spec_move(Move::R), spec_move(Move::L)) == spec_compose(spec_move(Move::L), spec_move(Move::R)),
        spec_compose(spec_move(Move::R), spec_move(Move::L2)) == spec_compose(spec_move(Move::L2), spec_move(Move::R)),
        spec_compose(spec_move(Move::R), spec_move(Move::L3)) == spec_compose(spec_move(Move::L3), spec_move(Move::R)),
        spec_compose(spec_move(Move::R2), spec_move(Move::L)) == spec_compose(spec_move(Move::L), spec_move(Move::R2)),
        spec_compose(spec_move(Move::R2), spec_move(Move::L2)) == spec_compose(spec_move(Move::L2), spec_move(Move::R2)),
        spec_compose(spec_move(Move::R2), spec_move(Move::L3)) == spec_compose(spec_move(Move::L3), spec_move(Move::R2)),
        spec_compose(spec_move(Move::R3), spec_move(Move::L)) == spec_compose(spec_move(Move::L), spec_move(Move::R3)),
        spec_compose(spec_move(Move::R3), spec_move(Move::L2)) == spec_compose(spec_move(Move::L2), spec_move(Move::R3)),
        spec_compose(spec_move(Move::R3), spec_move(Move::L3)) == spec_compose(spec_move(Move::L3), spec_move(Move::R3)),
{
    lemma_move_eo_layout(Move::R);
    lemma_move_eo_layout(Move::R2);
    lemma_move_eo_layout(Move::R3);
    lemma_move_eo_layout(Move::L);
    lemma_move_eo_layout(Move::L2);
    lemma_move_eo_layout(Move::L3);
    lemma_move_lanes_r();
    lemma_move_lanes_r2();
    lemma_move_lanes_r3();
    lemma_move_lanes_l();
    lemma_move_lanes_l2();
    lemma_move_lanes_l3();
    lemma_edge_composes_same(spec_move(Move::R), spec_move(Move::L), spec_move(Move::L), spec_move(Move::R));
    lemma_edge_composes_same(spec_move(Move::R), spec_move(Move::L2), spec_move(Move::L2), spec_move(Move::R));
    lemma_edge_composes_same(spec_move(Move::R), spec_move(Move::L3), spec_move(Move::L3), spec_move(Move::R));
    lemma_edge_composes_same(spec_move(Move::R2), spec_move(Move::L), spec_move(Move::L), spec_move(Move::R2));
    lemma_edge_composes_same(spec_move(Move::R2), spec_move(Move::L2), spec_move(Move::L2), spec_move(Move::R2));
    lemma_edge_composes_same(spec_move(Move::R2), spec_move(Move::L3), spec_move(Move::L3), spec_move(Move::R2));
    lemma_edge_composes_same(spec_move(Move::R3), spec_move(Move::L), spec_move(Move::L), spec_move(Move::R3));
    lemma_edge_composes_same(spec_move(Move::R3), spec_move(Move::L2), spec_move(Move::L2), spec_move(Move::R3));
    lemma_edge_composes_same(spec_move(Move::R3), spec_move(Move::L3), spec_move(Move::L3), spec_move(Move::R3));
}

/// Two turns of one face add up: to the turn by the sum of their quarter turns, or to
/// nothing when that is a whole number of turns.
pub proof fn lemma_face_turns_add(f: Face, a: int, b: int)
    requires
        1 <= a <= 3,
        1 <= b <= 3,
    ensures
        spec_compose(spec_move(spec_face_move(f, a)), spec_move(spec_face_move(f, b)))
            == if (a + b) % 4 == 0 { spec_ident() } else { spec_move(spec_face_move(f, (a + b) % 4)) },
{
    match f {
        Face::U => lemma_face_add_u(a, b),
        Face::D => lemma_face_add_d(a, b),
        Face::F => lemma_face_add_f(a, b),
        Face::B => lemma_face_add_b(a, b),
        Face::R => lemma_face_add_r(a, b),
        Face::L => lemma_face_add_l(a, b),
    }
}

/// Turns of the two faces of one axis commute.
pub proof fn lemma_axis_turns_commute(ax: Axis, a: int, b: int)
    requires
        1 <= a <= 3,
        1 <= b <= 3,
    ensures
        spec_compose(spec_move(spec_face_move(spec_axis_primary(ax), a)), spec_move(spec_face_move(spec_axis_secondary(ax), b)))
            == spec_compose(spec_move(spec_face_move(spec_axis_secondary(ax), b)), spec_move(spec_face_move(spec_axis_primary(ax), a))),
{
    match ax {
        Axis::UD => lemma_axis_commute_ud(),
        Axis::FB => lemma_axis_commute_fb(),
        Axis::LR => lemma_axis_commute_lr(),
    }
}

/// Following edges with the solved edges changes nothing.
pub proof fn lemma_compose_ident_right(a: Seq<u8>)
    requires
        a.len() == 16,
    ensures
        spec_compose(a, spec_ident()) == a,
{
    let r = spec_compose(a, spec_ident());
    assert forall|i: int| 0 <= i < 16 implies #[trigger] r[i] == a[i] by {
        lemma_xor_bits(a[i], 0, i as u8);
        assert(spec_ident()[i] == i as u8);
    }
    assert(r =~= a);
}

/// Composition of edges is associative.
pub proof fn lemma_compose_assoc(a: Seq<u8>, b: Seq<u8>, c: Seq<u8>)
    requires
        a.len() == 16,
        b.len() == 16,
        c.len() == 16,
    ensures
        spec_compose(spec_compose(a, b), c) == spec_compose(a, spec_compose(b, c)),
{
    let ab = spec_compose(a, b);
    let bc = spec_compose(b, c);
    let x = spec_compose(ab, c);
    let y = spec_compose(a, bc);
    assert forall|i: int| 0 <= i < 16 implies #[trigger] x[i] == y[i] by {
        lemma_xor_bits(c[i], 0, 0);
        let k = (c[i] & 15) as int;
        lemma_xor_bits(b[k], 0, 0);
        lemma_xor_bits(b[k], c[i], 0);
        lemma_xor_bits(b[k], b[k], c[i]);
        lemma_xor_bits(a[(b[k] & 15) as int], b[k] & 112, c[i] & 112);
        assert(bc[i] == b[k] ^ (c[i] & 112));
        assert(bc[i] & 15 == b[k] & 15);
        assert(bc[i] & 112 == (b[k] & 112) ^ (c[i] & 112));
    }
    assert(x =~= y);
}

/// A cell of a row of the edge table: the text, after a space unless it is the first.
pub open spec fn spec_cell(i: int, text: Seq<char>) -> Seq<char> {
    if i == 0 { text } else { " "@ + text }
}

/// The mark of an orientation: `.` when oriented, `X` when not, padded to two.
pub open spec fn spec_eo_mark(v: u8) -> Seq<char> {
    if v == 0 { " ."@ } else { " X"@ }
}

/// The table of slots, pieces and the three orientations of the edges `a`.
pub open spec fn spec_edges_table(a: Seq<u8>) -> Seq<char> {
    " slot: "@ + spec_concat(Seq::new(12, |i: int| spec_cell(i, spec_edge_name(spec_edge_from(i))))) + "\n"@
        + "piece: "@ + spec_concat(Seq::new(12, |i: int| spec_cell(i, spec_edge_name(spec_edge_from(spec_lane_ep(a[i]) as int))))) + "\n"@
        + " eofb: "@ + spec_concat(Seq::new(12, |i: int| spec_cell(i, spec_eo_mark(spec_lane_eofb(a[i]))))) + "\n"@
        + " eolr: "@ + spec_concat(Seq::new(12, |i: int| spec_cell(i, spec_eo_mark(spec_lane_eolr(a[i]))))) + "\n"@
        + " eoud: "@ + spec_concat(Seq::new(12, |i: int| spec_cell(i, spec_eo_mark(spec_lane_eoud(a[i]))))) + "\n"@
}

/// The mark of an orientation.
fn eo_mark(eo: EO) -> (r: &'static str)
    ensures
        r@ == spec_eo_mark(eo as u8),
{
    match eo {
        EO::Solved => " .",
        EO::Flipped => " X",
    }
}

/// The solved edges are an identity for composition.
pub proof fn lemma_compose_ident(a: Seq<u8>)
    requires
        wf(a),
    ensures
        spec_compose(spec_ident(), a) == a,
        spec_compose(a, spec_ident()) == a,
{
    let l = spec_compose(spec_ident(), a);
    let r = spec_compose(a, spec_ident());
    assert forall|i: int| 0 <= i < 16 implies #[trigger] l[i] == a[i] && r[i] == a[i] by {
        lemma_xor_bits(a[i], 0, i as u8);
        lemma_xor_bits(a[i], 0, 0);
        lemma_xor_bits(i as u8, 0, 0);
        assert((a[i] & 15) < 16);
        assert(spec_ident()[(a[i] & 15) as int] == a[i] & 15);
    }
    assert(l =~= a);
    assert(r =~= a);
}

/// Some slot of `a` holds piece `p`.
pub open spec fn has_piece(a: Seq<u8>, p: int) -> bool {
    exists|j: int| 0 <= j < 16 && (a[j] & 15) as int == p
}

/// Sixteen distinct pieces below 16 cover every piece.
proof fn lemma_pigeonhole_one(a: Seq<u8>, p: int)
    requires
        wf(a),
        0 <= p < 16,
    ensures
        has_piece(a, p),
{
    if has_piece(a, p) {
        return;
    }
    let f = |j: int| (a[j] & 15) as int;
    let dom = vstd::set_lib::set_int_range(0, 16);
    let img = dom.map(f);
    let rng = vstd::set_lib::set_int_range(0, 16).remove(p);
    vstd::set_lib::lemma_int_range(0, 16);
    assert(vstd::relations::injective_on(f, dom)) by {
        assert forall|x: int, y: int| dom.contains(x) && dom.contains(y) && #[trigger] f(x) == #[trigger] f(y) implies x == y by {}
    }
    vstd::set_lib::lemma_map_size(dom, img, f);
    assert(img.subset_of(rng)) by {
        assert forall|v: int| img.contains(v) implies rng.contains(v) by {
            let j = choose|j: int| dom.contains(j) && f(j) == v;
            lemma_xor_bits(a[j], 0, 0);
            assert(0 <= j < 16);
            assert(v == (a[j] & 15) as int);
            assert(!has_piece(a, p));
            assert(v != p);
        }
    }
    vstd::set_lib::lemma_len_subset(img, rng);
}

/// Valid edges hold each piece in exactly one slot.
proof fn lemma_slot_of(a: Seq<u8>, p: int)
    requires
        wf(a),
        0 <= p < 16,
    ensures
        0 <= spec_slot_of(a, p) < 16,
        (a[spec_slot_of(a, p)] & 15) as int == p,
        forall|j: int| 0 <= j < 16 && (a[j] & 15) as int == p ==> j == spec_slot_of(a, p),
{
    lemma_pigeonhole_one(a, p);
}

/// The inverse of valid edges is valid, and composing with it in either order gives the
/// solved edges.
pub proof fn lemma_compose_inverse(a: Seq<u8>)
    requires
        wf(a),
    ensures
        wf(spec_inverse(a)),
        spec_compose(a, spec_inverse(a)) == spec_ident(),
        spec_compose(spec_inverse(a), a) == spec_ident(),
{
    let v = spec_inverse(a);
    assert forall|p: int| 0 <= p < 16 implies #[trigger] v[p] < 128 && (v[p] & 15) as int == spec_slot_of(a, p)
        && v[p] & 112 == a[spec_slot_of(a, p)] & 112 by {
        lemma_slot_of(a, p);
        lemma_xor_bits(a[spec_slot_of(a, p)], 0, spec_slot_of(a, p) as u8);
    }
    assert forall|i: int, j: int| 0 <= i < 16 && 0 <= j < 16 && i != j implies (#[trigger] v[i] & 15) != (#[trigger] v[j] & 15) by {
        lemma_slot_of(a, i);
        lemma_slot_of(a, j);
    }
    let r = spec_compose(a, v);
    assert forall|i: int| 0 <= i < 16 implies #[trigger] r[i] == spec_ident()[i] by {
        lemma_slot_of(a, i);
        let j = spec_slot_of(a, i);
        lemma_xor_bits(a[j], 0, 0);
    }
    assert(r =~= spec_ident());
    let l = spec_compose(v, a);
    assert forall|i: int| 0 <= i < 16 implies #[trigger] l[i] == spec_ident()[i] by {
        lemma_xor_bits(a[i], 0, 0);
        let p = (a[i] & 15) as int;
        lemma_slot_of(a, p);
        lemma_xor_bits(a[i], 0, i as u8);
    }
    assert(l =~= spec_ident());
}

// ---- operations -------------------------------------------------------------------

impl Edges {
    /// Construct a new `Edges` instance with the identity EP and EO.
    pub fn new() -> (r: Edges)
        ensures
            r.0@ == spec_ident(),
            eo_layout(r.0@),
    {
        proof {
            lemma_ident_eo_layout();
        }
        let r = Edges(EDGES_IDENT);
        assert(r.0@ =~= spec_ident());
        r
    }

    /// The slot where the given `Edge` currently resides: the first slot whose piece is
    /// `edge`.
    pub fn find(self, edge: Edge) -> (r: Edge)
        requires
            exists|j: int| 0 <= j < 12 && spec_lane_ep(#[trigger] self.0[j]) == edge as u8,
        ensures
            spec_lane_ep(self.0[(r as u8) as int]) == edge as u8,
            forall|j: int| 0 <= j < (r as u8) as int ==> spec_lane_ep(#[trigger] self.0[j]) != edge as u8,
    {
        let target = edge as u8;
        let mut i: usize = 0;
        while i < 12
            invariant
                i <= 12,
                target == edge as u8,
                forall|j: int| 0 <= j < i ==> spec_lane_ep(#[trigger] self.0[j]) != target,
                exists|j: int| 0 <= j < 12 && spec_lane_ep(#[trigger] self.0[j]) == target,
            decreases 12 - i,
        {
            if lane_ep(self.0, i) == target {
                let e = Edge::from_u8(i as u8);
                return e;
            }
            i += 1;
        }
        proof {
            let j = choose|j: int| 0 <= j < 12 && spec_lane_ep(#[trigger] self.0[j]) == target;
            assert(spec_lane_ep(self.0[j]) != target);
        }
        Edge::UR
    }

    /// The edges whose lanes are the little-endian bytes of `m`.
    pub fn from_magic(m: u128) -> (r: Edges)
        ensures
            r.0@ == spec_from_magic(m),
    {
        let mut a = [0u8; 16];
        let mut x = m;
        let mut i: usize = 0;
        while i < 16
            invariant
                i <= 16,
                x as int == m as int / spec_pow256(i as int),
                forall|k: int| 0 <= k < i ==> #[trigger] a[k] == ((m as int / spec_pow256(k)) % 256) as u8,
            decreases 16 - i,
        {
            a[i] = (x % 256) as u8;
            proof {
                lemma_pow256_bound(i as int);
                vstd::arithmetic::div_mod::lemma_div_denominator(m as int, spec_pow256(i as int), 256);
            }
            x = x / 256;
            i += 1;
        }
        let r = Edges(a);
        assert(r.0@ =~= spec_from_magic(m));
        r
    }

    /// The little-endian number formed by the lanes.
    pub fn magic(self) -> (r: u128)
        ensures
            r == spec_magic(self.0@),
    {
        let mut sum: u128 = 0;
        let mut p: u128 = 1;
        let mut i: usize = 0;
        while i < 16
            invariant
                i <= 16,
                p == spec_pow256(i as int),
                sum == spec_magic_prefix(self.0@, i as int),
                sum < p,
            decreases 16 - i,
        {
            proof {
                lemma_pow256_bound(i as int);
                let b = self.0[i as int];
                assert(sum + b * p < 256 * p) by (nonlinear_arith)
                    requires sum < p, b < 256, p > 0;
                assert(b * p <= 255 * p) by (nonlinear_arith)
                    requires b < 256, p > 0;
            }
            sum = sum + (self.0[i] as u128) * p;
            if i < 15 {
                p = p * 256;
            } else {
                proof {
                    assert(sum < spec_pow256(16));
                }
                i += 1;
                proof {
                    assert(sum == spec_magic_prefix(self.0@, 16));
                }
                return sum;
            }
            i += 1;
        }
        sum
    }

    /// Modify EP by specifying for each slot which edge populates it. Preserves EO.
    pub fn set_ep_passive<F: Fn(Edge) -> Edge>(self, f: F) -> (r: Edges)
        requires
            forall|e: Edge| #[trigger] f.requires((e,)),
        ensures
            forall|i: int| 12 <= i < 16 ==> #[trigger] r.0[i] == self.0[i],
            forall|i: int| 0 <= i < 12 ==> #[trigger] r.0[i] == spec_lane_set_ep(self.0[i], r.0[i] & 15),
            forall|i: int| 0 <= i < 12 ==> (#[trigger] r.0[i] & 15) < 12
                && f.ensures((spec_edge_from(i),), spec_edge_from((r.0[i] & 15) as int)),
    {
        let mut a = self.0;
        let mut i: usize = 0;
        while i < 12
            invariant
                i <= 12,
                forall|e: Edge| #[trigger] f.requires((e,)),
                forall|k: int| i <= k < 16 ==> #[trigger] a[k] == self.0[k],
                forall|k: int| 0 <= k < i ==> #[trigger] a[k] == spec_lane_set_ep(self.0[k], a[k] & 15),
                forall|k: int| 0 <= k < i ==> (#[trigger] a[k] & 15) < 12
                    && f.ensures((spec_edge_from(k),), spec_edge_from((a[k] & 15) as int)),
            decreases 12 - i,
        {
            let slot = Edge::from_u8(i as u8);
            let piece = f(slot);
            proof {
                lemma_edge_number(piece);
                lemma_edge_number(slot);
                let x = self.0[i as int];
                let p = piece as u8;
                assert(p < 16 ==> ((x & 112) ^ p) & 15 == p) by (bit_vector);
            }
            a = lane_set_ep(a, i, piece as u8);
            i += 1;
        }
        Edges(a)
    }

    /// Modify EP by specifying for each edge the slot it goes to. Preserves EO. Edges are
    /// placed in their order, so a later one overwrites an earlier one sent to the same slot.
    pub fn set_cp_active<F: Fn(Edge) -> Edge>(&self, f: F) -> (r: Edges)
        requires
            forall|e: Edge| #[trigger] f.requires((e,)),
        ensures
            exists|dest: Seq<Edge>| {
                &&& dest.len() == 12
                &&& forall|i: int| 0 <= i < 12 ==> f.ensures((spec_edge_from(i),), #[trigger] dest[i])
                &&& r.0@ == spec_set_ep_active(self.0@, dest, 12)
            },
    {
        let mut a = self.0;
        let ghost mut dest: Seq<Edge> = Seq::empty();
        let mut i: usize = 0;
        while i < 12
            invariant
                i <= 12,
                dest.len() == i,
                forall|e: Edge| #[trigger] f.requires((e,)),
                forall|k: int| 0 <= k < i ==> f.ensures((spec_edge_from(k),), #[trigger] dest[k]),
                a@ == spec_set_ep_active(self.0@, dest, i as int),
            decreases 12 - i,
        {
            let piece = Edge::from_u8(i as u8);
            let slot = f(piece);
            proof {
                lemma_edge_number(slot);
                let ghost old_dest = dest;
                dest = dest.push(slot);
                assert(dest.drop_last() =~= old_dest);
                lemma_set_ep_active_prefix(self.0@, dest, i as int);
            }
            a = lane_set_ep(a, slot as usize, i as u8);
            assert(a@ =~= spec_set_ep_active(self.0@, dest, i as int + 1));
            i += 1;
        }
        let r = Edges(a);
        assert(r.0@ == spec_set_ep_active(self.0@, dest, 12));
        r
    }

    /// A cycle of slots which preserves EO relative to `axis`. The first slot in the cycle is
    /// sent to the second slot in the cycle, and so on with the last slot in the cycle being
    /// sent to the first slot in the cycle.
    pub fn cycle(cycle: &[Edge], axis: Axis) -> (r: Edges)
        ensures
            axis == Axis::UD ==> r.0@ == spec_cycle_eoud(cycle@),
            axis == Axis::FB ==> r.0@ == spec_cycle_eofb(cycle@),
            axis == Axis::LR ==> r.0@ == spec_cycle_eolr(cycle@),
    {
        match axis {
            Axis::UD => Self::cycle_eoud(cycle),
            Axis::FB => Self::cycle_eofb(cycle),
            Axis::LR => Self::cycle_eolr(cycle),
        }
    }

    /// Just cycle, preserving all EO.
    fn cycle_ep_only(cycle: &[Edge]) -> (r: [u8; 16])
        ensures
            r@ == spec_cycle_lanes(cycle@),
            forall|i: int| 0 <= i < 16 ==> #[trigger] r[i] < 16,
    {
        let mut ep = EDGES_IDENT;
        let n = cycle.len();
        let mut i: usize = 0;
        while i < n
            invariant
                n == cycle@.len(),
                i <= n,
                forall|s: int| 0 <= s < 16 ==> #[trigger] ep[s] as int == spec_cycle_slot(cycle@, i as int, s),
            decreases n - i,
        {
            let src = cycle[i] as u8;
            let dst = cycle[(i + 1) % n] as usize;
            proof {
                lemma_edge_number(cycle@[i as int]);
                lemma_edge_number(cycle@[(i as int + 1) % (n as int)]);
            }
            ep[dst] = src;
            proof {
                assert forall|s: int| 0 <= s < 16 implies #[trigger] ep[s] as int == spec_cycle_slot(cycle@, i as int + 1, s) by {
                    lemma_cycle_slot_bound(cycle@, i as int, s);
                }
            }
            i += 1;
        }
        assert(ep@ =~= spec_cycle_lanes(cycle@)) by {
            assert forall|s: int| 0 <= s < 16 implies #[trigger] ep@[s] == spec_cycle_lanes(cycle@)[s] by {
                lemma_cycle_slot_bound(cycle@, n as int, s);
            }
        }
        assert forall|s: int| 0 <= s < 16 implies #[trigger] ep[s] < 16 by {
            lemma_cycle_slot_bound(cycle@, n as int, s);
        }
        ep
    }

    /// A cycle which preserves EO on FB. The first slot in the cycle is sent to the second
    /// slot in the cycle, and so on with the last slot in the cycle being sent to the first slot
    /// in the cycle.
    pub fn cycle_eofb(cycle: &[Edge]) -> (r: Edges)
        ensures
            r.0@ == spec_cycle_eofb(cycle@),
    {
        let ep = Self::cycle_ep_only(cycle);
        let fb = eofb(ep);
        proof {
            assert forall|i: int| 0 <= i < 16 implies #[trigger] fb[i] == 0 by {
                let x = ep[i];
                assert(x < 16 ==> (x & 16) >> 4u8 == 0) by (bit_vector);
            }
        }
        let r = Edges(set_eofb(ep, fb));
        assert(r.0@ =~= spec_cycle_eofb(cycle@));
        r
    }

    /// A cycle which preserves EO on LR. The first slot in the cycle is sent to the second
    /// slot in the cycle, and so on with the last slot in the cycle being sent to the first slot
    /// in the cycle.
    pub fn cycle_eolr(cycle: &[Edge]) -> (r: Edges)
        ensures
            r.0@ == spec_cycle_eolr(cycle@),
    {
        let ep = Self::cycle_ep_only(cycle);
        let lr = eolr(ep);
        proof {
            assert forall|i: int| 0 <= i < 16 implies #[trigger] lr[i] == 0 by {
                let x = ep[i];
                assert(x < 16 ==> (x & 32) >> 5u8 == 0) by (bit_vector);
            }
        }
        let r = Edges(set_eolr(ep, lr));
        assert(r.0@ =~= spec_cycle_eolr(cycle@));
        r
    }

    /// A cycle which preserves EO on UD. The first slot in the cycle is sent to the second
    /// slot in the cycle, and so on with the last slot in the cycle being sent to the first slot
    /// in the cycle.
    pub fn cycle_eoud(cycle: &[Edge]) -> (r: Edges)
        ensures
            r.0@ == spec_cycle_eoud(cycle@),
    {
        let ep = Self::cycle_ep_only(cycle);
        let ud = eoud(ep);
        proof {
            assert forall|i: int| 0 <= i < 16 implies #[trigger] ud[i] == 0 by {
                let x = ep[i];
                assert(x < 16 ==> (x & 64) >> 6u8 == 0) by (bit_vector);
            }
        }
        let r = Edges(set_eoud(ep, ud));
        assert(r.0@ =~= spec_cycle_eoud(cycle@));
        r
    }

    /// Flip the given edges. If an edge is provided multiple times, it will flip once for each
    /// time it's provided.
    pub fn flip(edges: &[Edge]) -> (r: Edges)
        ensures
            r.0@ == spec_flip(edges@),
    {
        let mut flips = [false; 16];
        let n = edges.len();
        let mut k: usize = 0;
        while k < n
            invariant
                n == edges@.len(),
                k <= n,
                forall|i: int| 0 <= i < 16 ==> #[trigger] flips[i] == spec_flip_parity(edges@, k as int, i),
            decreases n - k,
        {
            let e = edges[k] as usize;
            proof {
                lemma_edge_number(edges@[k as int]);
            }
            flips[e] = !flips[e];
            k += 1;
        }
        let r = Edges(flip(flips));
        assert(r.0@ =~= spec_flip(edges@));
        r
    }

    /// Compose: the edges of `self` followed by those of `rhs`.
    pub fn compose(self, rhs: Self) -> (r: Edges)
        ensures
            r.0@ == spec_compose(self.0@, rhs.0@),
            eo_layout(self.0@) && eo_layout(rhs.0@) ==> eo_layout(r.0@),
    {
        proof {
            if eo_layout(self.0@) && eo_layout(rhs.0@) {
                lemma_compose_eo_layout(self.0@, rhs.0@);
            }
        }
        Edges(compose(self.0, rhs.0))
    }

    /// The edge which currently resides at the given slot.
    pub fn at(self, slot: Edge) -> (r: Edge)
        requires
            spec_lane_ep(self.0[(slot as u8) as int]) < 12,
        ensures
            r as u8 == spec_lane_ep(self.0[(slot as u8) as int]),
    {
        proof {
            lemma_edge_number(slot);
        }
        Edge::from_u8(lane_ep(self.0, slot as usize))
    }

    /// The table of slots, pieces and orientations: a row of slot names, a row of the
    /// names of the pieces in them, and a row of marks for each of the three orientations,
    /// cells two wide and separated by spaces.
    #[verifier::spinoff_prover]
    pub fn table(&self) -> (r: String)
        requires
            forall|i: int| 0 <= i < 12 ==> spec_lane_ep(#[trigger] self.0@[i]) < 12,
        ensures
            r@ == spec_edges_table(self.0@),
    {
        let ghost a = self.0@;
        let ghost p1 = Seq::new(12, |i: int| spec_cell(i, spec_edge_name(spec_edge_from(i))));
        let ghost p2 = Seq::new(12, |i: int| spec_cell(i, spec_edge_name(spec_edge_from(spec_lane_ep(a[i]) as int))));
        let ghost p3 = Seq::new(12, |i: int| spec_cell(i, spec_eo_mark(spec_lane_eofb(a[i]))));
        let ghost p4 = Seq::new(12, |i: int| spec_cell(i, spec_eo_mark(spec_lane_eolr(a[i]))));
        let ghost p5 = Seq::new(12, |i: int| spec_cell(i, spec_eo_mark(spec_lane_eoud(a[i]))));
        let mut r1 = String::new();
        let mut r2 = String::new();
        let mut r3 = String::new();
        let mut r4 = String::new();
        let mut r5 = String::new();
        let slots = Edge::all();
        let mut i: usize = 0;
        while i < 12
            invariant
                i <= 12,
                a == self.0@,
                forall|k: int| 0 <= k < 12 ==> spec_lane_ep(#[trigger] self.0@[k]) < 12,
                forall|k: int| 0 <= k < 12 ==> #[trigger] slots[k] as u8 == k,
                p1 == Seq::new(12, |i: int| spec_cell(i, spec_edge_name(spec_edge_from(i)))),
                p2 == Seq::new(12, |i: int| spec_cell(i, spec_edge_name(spec_edge_from(spec_lane_ep(a[i]) as int)))),
                p3 == Seq::new(12, |i: int| spec_cell(i, spec_eo_mark(spec_lane_eofb(a[i])))),
                p4 == Seq::new(12, |i: int| spec_cell(i, spec_eo_mark(spec_lane_eolr(a[i])))),
                p5 == Seq::new(12, |i: int| spec_cell(i, spec_eo_mark(spec_lane_eoud(a[i])))),
                r1@ == spec_concat(p1.take(i as int)),
                r2@ == spec_concat(p2.take(i as int)),
                r3@ == spec_concat(p3.take(i as int)),
                r4@ == spec_concat(p4.take(i as int)),
                r5@ == spec_concat(p5.take(i as int)),
            decreases 12 - i,
        {
            let slot = slots[i];
            let piece = self.at(slot);
            proof {
                lemma_concat_step(p1, i as int);
                lemma_concat_step(p2, i as int);
                lemma_concat_step(p3, i as int);
                lemma_concat_step(p4, i as int);
                lemma_concat_step(p5, i as int);
                lemma_edge_number(slot);
                lemma_edge_number(piece);
            }
            if i > 0 {
                r1.append(" ");
                r2.append(" ");
                r3.append(" ");
                r4.append(" ");
                r5.append(" ");
            }
            r1.append(slot.name());
            r2.append(piece.name());
            r3.append(eo_mark(self.eofb(slot)));
            r4.append(eo_mark(self.eolr(slot)));
            r5.append(eo_mark(self.eoud(slot)));
            proof {
                assert(r1@ =~= spec_concat(p1.take(i as int)) + p1[i as int]);
                assert(r2@ =~= spec_concat(p2.take(i as int)) + p2[i as int]);
                assert(r3@ =~= spec_concat(p3.take(i as int)) + p3[i as int]);
                assert(r4@ =~= spec_concat(p4.take(i as int)) + p4[i as int]);
                assert(r5@ =~= spec_concat(p5.take(i as int)) + p5[i as int]);
            }
            i += 1;
        }
        proof {
            assert(p1.take(12) =~= p1);
            assert(p2.take(12) =~= p2);
            assert(p3.take(12) =~= p3);
            assert(p4.take(12) =~= p4);
            assert(p5.take(12) =~= p5);
        }
        let mut out = String::new();
        out.append(" slot: ");
        out.append(r1.as_str());
        out.append("\n");
        out.append("piece: ");
        out.append(r2.as_str());
        out.append("\n");
        out.append(" eofb: ");
        out.append(r3.as_str());
        out.append("\n");
        out.append(" eolr: ");
        out.append(r4.as_str());
        out.append("\n");
        out.append(" eoud: ");
        out.append(r5.as_str());
        out.append("\n");
        out
    }

    /// EO relative to the FB axis at the given slot.
    pub fn eofb(self, slot: Edge) -> (r: EO)
        ensures
            r as u8 == spec_lane_eofb(self.0[(slot as u8) as int]),
    {
        proof {
            lemma_edge_number(slot);
            let x = self.0[(slot as u8) as int];
            assert((x & 16) >> 4u8 < 2) by (bit_vector);
        }
        EO::from_u8(lane_eofb(self.0, slot as usize))
    }

    /// EO relative to the LR axis at the given slot.
    pub fn eolr(self, slot: Edge) -> (r: EO)
        ensures
            r as u8 == spec_lane_eolr(self.0[(slot as u8) as int]),
    {
        proof {
            lemma_edge_number(slot);
            let x = self.0[(slot as u8) as int];
            assert((x & 32) >> 5u8 < 2) by (bit_vector);
        }
        EO::from_u8(lane_eolr(self.0, slot as usize))
    }

    /// EO relative to the UD axis at the given slot.
    pub fn eoud(self, slot: Edge) -> (r: EO)
        ensures
            r as u8 == spec_lane_eoud(self.0[(slot as u8) as int]),
    {
        proof {
            lemma_edge_number(slot);
            let x = self.0[(slot as u8) as int];
            assert((x & 64) >> 6u8 < 2) by (bit_vector);
        }
        EO::from_u8(lane_eoud(self.0, slot as usize))
    }

    /// The inverse of valid edges: composing with it, in either order, gives the identity.
    /// For lanes that are not valid edges, the result has no meaning.
    pub fn inverse(self) -> (r: Edges)
        ensures
            wf(self.0@) ==> r.0@ == spec_inverse(self.0@),
            wf(self.0@) ==> wf(r.0@),
            wf(self.0@) ==> spec_compose(self.0@, r.0@) == spec_ident(),
            wf(self.0@) ==> spec_compose(r.0@, self.0@) == spec_ident(),
    {
        let a = self.0;
        assert forall|k: int| 0 <= k < 16 implies #[trigger] (a[k] & 15) < 16 by {
            lemma_xor_bits(a[k], 0, 0);
        }
        let mut inv = [0u8; 16];
        let mut i: usize = 0;
        while i < 16
            invariant
                i <= 16,
                a == self.0,
                forall|k: int| 0 <= k < 16 ==> #[trigger] (a[k] & 15) < 16,
                wf(a@) ==> forall|k: int| 0 <= k < i ==> #[trigger] inv[(a[k] & 15) as int] == (a[k] & 112) | (k as u8),
            decreases 16 - i,
        {
            proof {
                lemma_xor_bits(a[i as int], 0, 0);
            }
            let p = (a[i] & 15) as usize;
            inv[p] = (a[i] & EO_LANE_MASK) | (i as u8);
            proof {
                if wf(a@) {
                    assert forall|k: int| 0 <= k < i implies (#[trigger] a[k] & 15) != p by {}
                }
            }
            i += 1;
        }
        let r = Edges(inv);
        proof {
            if wf(a@) {
                lemma_compose_inverse(a@);
                let v = spec_inverse(a@);
                assert forall|p: int| 0 <= p < 16 implies #[trigger] r.0@[p] == v[p] by {
                    lemma_slot_of(a@, p);
                    let j = spec_slot_of(a@, p);
                    assert(inv[(a[j] & 15) as int] == (a[j] & 112) | (j as u8));
                }
                assert(r.0@ =~= v);
            }
        }
        r
    }

    /// The edges after move `m` from solved.
    pub fn mov(m: Move) -> (r: Edges)
        ensures
            r.0@ == spec_move(m),
    {
        match m {
            Move::U => Edges::from_magic(0xf0e0d0c0b0a09084306054044020147),
            Move::U2 => Edges::from_magic(0xf0e0d0c0b0a09080406050700020103),
            Move::U3 => Edges::from_magic(0xf0e0d0c0b0a09084006054347020144),
            Move::D => Edges::from_magic(0xf0e0d0c0b0a09080741420403464500),
            Move::D2 => Edges::from_magic(0xf0e0d0c0b0a09080705060403010200),
            Move::D3 => Edges::from_magic(0xf0e0d0c0b0a09080742410403454600),
            Move::F => Edges::from_magic(0xf0e0d0c150a09140706181b03020100),
            Move::F2 => Edges::from_magic(0xf0e0d0c080a090b0706040503020100),
            Move::F3 => Edges::from_magic(0xf0e0d0c140a091507061b1803020100),
            Move::B => Edges::from_magic(0xf0e0d0c0b171608191a050403020100),
            Move::B2 => Edges::from_magic(0xf0e0d0c0b090a080607050403020100),
            Move::B3 => Edges::from_magic(0xf0e0d0c0b1617081a19050403020100),
            Move::R => Edges::from_magic(0xf0e0d0c0b0a20210706050403022928),
            Move::R2 => Edges::from_magic(0xf0e0d0c0b0a08090706050403020001),
            Move::R3 => Edges::from_magic(0xf0e0d0c0b0a21200706050403022829),
            Move::L => Edges::from_magic(0xf0e0d0c23220908070605042a2b0100),
            Move::L2 => Edges::from_magic(0xf0e0d0c0a0b09080706050402030100),
            Move::L3 => Edges::from_magic(0xf0e0d0c22230908070605042b2a0100),
        }
    }

    /// The edges of `self` after move `m`.
    pub fn apply_move(self, m: Move) -> (r: Edges)
        ensures
            r.0@ == spec_compose(self.0@, spec_move(m)),
            eo_layout(self.0@) ==> eo_layout(r.0@),
            eo_layout(self.0@) ==> forall|i: int| 12 <= i < 16 ==> #[trigger] r.0@[i] == i as u8,
    {
        proof {
            lemma_move_eo_layout(m);
            if eo_layout(self.0@) {
                lemma_compose_eo_layout(self.0@, spec_move(m));
                let c = spec_compose(self.0@, spec_move(m));
                assert forall|i: int| 12 <= i < 16 implies #[trigger] c[i] == i as u8 by {
                    assert(eo_lane_ok(c[i], i));
                }
            }
        }
        self.compose(Self::mov(m))
    }

    /// The edges of `self` after the moves of `a`, in order.
    pub fn apply_alg(self, a: &Alg) -> (r: Edges)
        ensures
            r.0@ == spec_apply_moves(self.0@, a.0@),
    {
        let mut acc = self;
        let n = a.0.len();
        let mut i: usize = 0;
        while i < n
            invariant
                n == a.0@.len(),
                i <= n,
                acc.0@ == spec_apply_moves(self.0@, a.0@.take(i as int)),
            decreases n - i,
        {
            proof {
                assert(a.0@.take(i as int + 1).drop_last() =~= a.0@.take(i as int));
            }
            acc = acc.apply_move(a.0[i]);
            i += 1;
        }
        proof {
            assert(a.0@.take(n as int) =~= a.0@);
        }
        acc
    }

    /// The edges followed by those of symmetry `s`.
    pub fn apply_sym(self, s: Sym) -> (r: Edges)
        ensures
            r.0@ == spec_compose(self.0@, spec_sym_cube(s).0),
    {
        self + s.cube().edges
    }

    /// The edges conjugated by symmetry `s`: the symmetry, then these edges, then the
    /// inverse symmetry.
    pub fn conjugate_sym(self, s: Sym) -> (r: Edges)
        ensures
            r.0@ == spec_compose(spec_compose(spec_sym_cube(s).0, self.0@), spec_sym_cube(spec_sym_inverse(s)).0),
    {
        s.cube().edges.compose(self).apply_sym(s.inverse())
    }

    /// The EO on FB coordinate of the edges, in `0..2048`.
    pub fn index_eofb(self) -> (r: usize)
        ensures
            r == spec_index_eofb(self.0@),
            r < 2048,
    {
        index_eofb(self.0)
    }

    /// Solved edges with the EO on FB that `coord` names.
    pub fn unindex_eofb(coord: usize) -> (r: Edges)
        requires
            coord < 2048,
        ensures
            forall|i: int| 0 <= i < 16 ==> #[trigger] r.0[i] == spec_lane_set_eofb(i as u8, i, spec_unindex_eofb_bit(coord as int, i)),
            spec_index_eofb(r.0@) == coord,
    {
        Edges(unindex_eofb(coord))
    }

    /// Whether every edge is oriented relative to both the FB and the LR axes.
    pub fn is_drud(self) -> (r: bool)
        ensures
            r == ((forall|i: int| 0 <= i < 16 ==> #[trigger] spec_lane_eofb(self.0[i]) == 0)
                && (forall|i: int| 0 <= i < 16 ==> #[trigger] spec_lane_eolr(self.0[i]) == 0)),
    {
        self.is_eofb() && self.is_eolr()
    }

    /// Whether every edge is oriented relative to the FB axis.
    pub fn is_eofb(self) -> (r: bool)
        ensures
            r == forall|i: int| 0 <= i < 16 ==> #[trigger] spec_lane_eofb(self.0[i]) == 0,
    {
        let mut i: usize = 0;
        while i < 16
            invariant
                i <= 16,
                forall|k: int| 0 <= k < i ==> #[trigger] spec_lane_eofb(self.0[k]) == 0,
            decreases 16 - i,
        {
            if lane_eofb(self.0, i) != 0 {
                return false;
            }
            i += 1;
        }
        true
    }

    /// Whether every edge is oriented relative to the LR axis.
    pub fn is_eolr(self) -> (r: bool)
        ensures
            r == forall|i: int| 0 <= i < 16 ==> #[trigger] spec_lane_eolr(self.0[i]) == 0,
    {
        let mut i: usize = 0;
        while i < 16
            invariant
                i <= 16,
                forall|k: int| 0 <= k < i ==> #[trigger] spec_lane_eolr(self.0[k]) == 0,
            decreases 16 - i,
        {
            if lane_eolr(self.0, i) != 0 {
                return false;
            }
            i += 1;
        }
        true
    }

    /// Whether every edge is oriented relative to the UD axis.
    pub fn is_eoud(self) -> (r: bool)
        ensures
            r == forall|i: int| 0 <= i < 16 ==> #[trigger] spec_lane_eoud(self.0[i]) == 0,
    {
        let mut i: usize = 0;
        while i < 16
            invariant
                i <= 16,
                forall|k: int| 0 <= k < i ==> #[trigger] spec_lane_eoud(self.0[k]) == 0,
            decreases 16 - i,
        {
            if lane_eoud(self.0, i) != 0 {
                return false;
            }
            i += 1;
        }
        true
    }

    /// Whether the edges are solved.
    pub fn is_solved(self) -> (r: bool)
        ensures
            r == (self.0@ == spec_ident()),
    {
        let mut i: usize = 0;
        while i < 16
            invariant
                i <= 16,
                forall|k: int| 0 <= k < i ==> #[trigger] self.0[k] == k as u8,
            decreases 16 - i,
        {
            if self.0[i] != i as u8 {
                assert(self.0@[i as int] != spec_ident()[i as int]);
                return false;
            }
            i += 1;
        }
        assert(self.0@ =~= spec_ident());
        true
    }
}

proof fn lemma_pow256_bound(i: int)
    requires
        0 <= i <= 16,
    ensures
        spec_pow256(i) <= spec_pow256(16),
        i < 16 ==> spec_pow256(i) * 256 <= spec_pow256(16),
        i < 15 ==> spec_pow256(i) * 256 <= spec_pow256(15),
        i < 16 ==> spec_pow256(i + 1) == spec_pow256(i) * 256,
        spec_pow256(16) == 0x10000000000000000int * 0x10000000000000000int,
        spec_pow256(15) == 0x1000000000000000000000000000000,
        spec_pow256(i) > 0,
{
}

/// Steps after the first `k` of placing edges leave the result of the first `k` alone.
proof fn lemma_set_ep_active_prefix(a: Seq<u8>, dest: Seq<Edge>, k: int)
    requires
        0 <= k < dest.len(),
    ensures
        spec_set_ep_active(a, dest, k) == spec_set_ep_active(a, dest.drop_last(), k),
    decreases k,
{
    if k > 0 {
        lemma_set_ep_active_prefix(a, dest, k - 1);
    }
}

/// The piece a cycle leaves in a slot is a slot number.
proof fn lemma_cycle_slot_bound(c: Seq<Edge>, k: int, s: int)
    requires
        0 <= s < 16,
    ensures
        0 <= spec_cycle_slot(c, k, s) < 16,
    decreases k,
{
    if k > 0 {
        lemma_edge_number(c[k - 1]);
        lemma_cycle_slot_bound(c, k - 1, s);
    }
}

impl Default for Edges {
    fn default() -> (r: Edges)
        ensures
            r.0@ == spec_ident(),
    {
        Edges::new()
    }
}

impl core::ops::Add<Edges> for Edges {
    type Output = Edges;

    fn add(self, rhs: Edges) -> (r: Edges)
        ensures
            r.0@ == spec_compose(self.0@, rhs.0@),
    {
        self.compose(rhs)
    }
}

impl vstd::std_specs::ops::AddSpecImpl<Edges> for Edges {
    open spec fn obeys_add_spec() -> bool {
        false
    }

    open spec fn add_req(self, rhs: Edges) -> bool {
        true
    }

    open spec fn add_spec(self, rhs: Edges) -> Edges {
        arbitrary()
    }
}

impl core::ops::Add<Move> for Edges {
    type Output = Edges;

    fn add(self, rhs: Move) -> (r: Edges)
        ensures
            r.0@ == spec_compose(self.0@, spec_move(rhs)),
    {
        self.apply_move(rhs)
    }
}

impl vstd::std_specs::ops::AddSpecImpl<Move> for Edges {
    open spec fn obeys_add_spec() -> bool {
        false
    }

    open spec fn add_req(self, rhs: Move) -> bool {
        true
    }

    open spec fn add_spec(self, rhs: Move) -> Edges {
        arbitrary()
    }
}

impl core::ops::Add<Alg> for Edges {
    type Output = Edges;

    fn add(self, rhs: Alg) -> (r: Edges)
        ensures
            r.0@ == spec_apply_moves(self.0@, rhs.0@),
    {
        self.apply_alg(&rhs)
    }
}

impl vstd::std_specs::ops::AddSpecImpl<Alg> for Edges {
    open spec fn obeys_add_spec() -> bool {
        false
    }

    open spec fn add_req(self, rhs: Alg) -> bool {
        true
    }

    open spec fn add_spec(self, rhs: Alg) -> Edges {
        arbitrary()
    }
}

} // verus!
