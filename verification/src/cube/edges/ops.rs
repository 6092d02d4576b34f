//! Operations on the packed edge representation: sixteen lanes, one per slot (the
//! last four are padding and hold themselves), where bits 0..=3 hold the edge piece in
//! the slot and bits 4, 5 and 6 hold its orientation with respect to the FB, LR and UD
//! axes.
use vstd::prelude::*;

verus! {

pub const EP_IDENT: [u8; 16] = [0, 1, 2, 3, 4, 5, 6, 7, 8, 9, 10, 11, 12, 13, 14, 15];
pub const EDGES_IDENT: [u8; 16] = [0, 1, 2, 3, 4, 5, 6, 7, 8, 9, 10, 11, 12, 13, 14, 15];

pub const EP_LANE_MASK: u8 = 0b00001111;
pub const EPSLICE_LANE_MASK: u8 = 0b00001100;
pub const EPSLICE_SHIFT: u8 = 2;

pub const EO_LANE_MASK: u8 = 0b01110000;
pub const EO_SHIFT: u8 = 4;

pub const EOFB_LANE_MASK: u8 = 0b00010000;
pub const EOFB_SHIFT: u8 = 4;

pub const EOLR_LANE_MASK: u8 = 0b00100000;
pub const EOLR_SHIFT: u8 = 5;

pub const EOUD_LANE_MASK: u8 = 0b01000000;
pub const EOUD_SHIFT: u8 = 6;

// How EO on one axis relates to EO on another for an edge sitting in a slot, as a
// function of the exclusive or of the slices of the edge and the slot (bit `s` of the
// table for slice difference `s`):
//   same slice: 0 for all pairs of axes
//   S/M:        fb<>ud 1, fb<>lr 0
//   S/E:        fb<>ud 0, fb<>lr 1
//   M/E:        fb<>ud 1, fb<>lr 1
pub const FB_TO_UD_TABLE: u8 = 0b1010;
pub const FB_TO_LR_TABLE: u8 = 0b1100;
pub const LR_TO_UD_TABLE: u8 = 0b0110;

// ---- lane semantics -------------------------------------------------------

/// A lane built from EO bits and an EP value.
pub open spec fn spec_lane_cons(eofb: u8, eolr: u8, eoud: u8, ep: u8) -> u8 {
    ep | (eofb << 4u8) | (eolr << 5u8) | (eoud << 6u8)
}

/// The EP bits of a lane.
pub open spec fn spec_lane_ep(x: u8) -> u8 {
    x & 15
}

/// EO on FB of a lane.
pub open spec fn spec_lane_eofb(x: u8) -> u8 {
    (x & 16) >> 4u8
}

/// EO on LR of a lane.
pub open spec fn spec_lane_eolr(x: u8) -> u8 {
    (x & 32) >> 5u8
}

/// EO on UD of a lane.
pub open spec fn spec_lane_eoud(x: u8) -> u8 {
    (x & 64) >> 6u8
}

/// Whether the edge in slot `i` belongs to another slice than the slot.
pub open spec fn spec_lane_htrbad(x: u8, i: int) -> bool {
    (x ^ (i as u8)) & 12 != 0
}

/// The lane with its EP bits replaced, by exclusive or into the cleared bits.
pub open spec fn spec_lane_set_ep(x: u8, ep: u8) -> u8 {
    (x & 112) ^ ep
}

/// The entry of a relation table for an edge `ep` sitting in slot `i`.
pub open spec fn spec_relation(table: u8, ep: u8, i: int) -> u8 {
    (table >> ((ep ^ (i as u8)) >> 2u8)) & 1
}

/// The lane at slot `i` whose EO on FB is `fb`, the other EO bits following from it.
pub open spec fn spec_lane_set_eofb(x: u8, i: int, fb: u8) -> u8 {
    let ep = x & 15;
    spec_lane_cons(fb, fb ^ spec_relation(12, ep, i), fb ^ spec_relation(10, ep, i), ep)
}

/// The lane at slot `i` whose EO on LR is `lr`, the other EO bits following from it.
pub open spec fn spec_lane_set_eolr(x: u8, i: int, lr: u8) -> u8 {
    let ep = x & 15;
    spec_lane_cons(lr ^ spec_relation(12, ep, i), lr, lr ^ spec_relation(6, ep, i), ep)
}

/// The lane at slot `i` whose EO on UD is `ud`, the other EO bits following from it.
pub open spec fn spec_lane_set_eoud(x: u8, i: int, ud: u8) -> u8 {
    let ep = x & 15;
    spec_lane_cons(ud ^ spec_relation(10, ep, i), ud ^ spec_relation(6, ep, i), ud, ep)
}

/// Lane `i` of the composition of `a` followed by `b`: the lane of `a` at the slot that
/// `b` names, with the orientations of both combined.
pub open spec fn spec_compose_lane(a: Seq<u8>, b: Seq<u8>, i: int) -> u8 {
    a[(b[i] & 15) as int] ^ (b[i] & 112)
}

/// The composition of `a` followed by `b`.
pub open spec fn spec_compose(a: Seq<u8>, b: Seq<u8>) -> Seq<u8> {
    Seq::new(16, |i: int| spec_compose_lane(a, b, i))
}

/// The solved edges.
pub open spec fn spec_ident() -> Seq<u8> {
    Seq::new(16, |i: int| i as u8)
}

/// Lanes without the unused top bit whose pieces form a permutation of the sixteen slots.
pub open spec fn wf(a: Seq<u8>) -> bool {
    &&& a.len() == 16
    &&& forall|i: int| 0 <= i < 16 ==> #[trigger] a[i] < 128
    &&& forall|i: int, j: int| 0 <= i < 16 && 0 <= j < 16 && i != j ==> (#[trigger] a[i] & 15) != (#[trigger] a[j] & 15)
}

/// Bit facts about a lane.
pub proof fn lemma_lane_bits(x: u8, y: u8)
    by (bit_vector)
    ensures
        x & 15 < 16,
        (x ^ (y & 112)) & 15 == x & 15,
        (x ^ (y & 112)) & 112 == (x & 112) ^ (y & 112),
        x < 128 ==> (x & 15) ^ (x & 112) == x,
        x < 128 ==> x == (x & 15) | (x & 112),
        ((x & 15) | (x & 112)) ^ (x & 112) == x & 15,
        (x & 112) ^ (x & 112) == 0,
        x ^ 0 == x,
        (x & 112) < 128,
        y < 16 ==> ((x & 112) | y) & 15 == y,
        y < 16 ==> ((x & 112) | y) & 112 == x & 112,
        y < 16 ==> ((x & 112) | y) ^ (x & 112) == y,
        x < 16 ==> x & 15 == x && x & 112 == 0,
{
}

/// EO bits of a lane built from bits.
pub proof fn lemma_cons_bits(fb: u8, lr: u8, ud: u8, ep: u8)
    by (bit_vector)
    requires
        fb < 2,
        lr < 2,
        ud < 2,
        ep < 16,
    ensures
        (ep | (fb << 4u8) | (lr << 5u8) | (ud << 6u8)) & 15 == ep,
        ((ep | (fb << 4u8) | (lr << 5u8) | (ud << 6u8)) & 16) >> 4u8 == fb,
        ((ep | (fb << 4u8) | (lr << 5u8) | (ud << 6u8)) & 32) >> 5u8 == lr,
        ((ep | (fb << 4u8) | (lr << 5u8) | (ud << 6u8)) & 64) >> 6u8 == ud,
        (ep | (fb << 4u8) | (lr << 5u8) | (ud << 6u8)) < 128,
{
}

/// A relation entry is a bit.
pub proof fn lemma_relation_bit(table: u8, ep: u8, i: u8)
    by (bit_vector)
    requires
        ep < 16,
        i < 16,
    ensures
        ((ep ^ i) >> 2u8) < 4,
        ((table >> ((ep ^ i) >> 2u8)) & 1) < 2,
{
}

// ---- vector and lane operations ---------------------------------------------

/// Construct an edge vector from EO and EP vectors.
pub fn cons(eofb: [u8; 16], eolr: [u8; 16], eoud: [u8; 16], ep: [u8; 16]) -> (r: [u8; 16])
    ensures
        forall|i: int| 0 <= i < 16 ==> #[trigger] r[i] == spec_lane_cons(eofb[i], eolr[i], eoud[i], ep[i]),
{
    let mut r = [0u8; 16];
    let mut i: usize = 0;
    while i < 16
        invariant
            i <= 16,
            forall|k: int| 0 <= k < i ==> #[trigger] r[k] == spec_lane_cons(eofb[k], eolr[k], eoud[k], ep[k]),
        decreases 16 - i,
    {
        r[i] = ep[i] | (eofb[i] << EOFB_SHIFT) | (eolr[i] << EOLR_SHIFT) | (eoud[i] << EOUD_SHIFT);
        i += 1;
    }
    r
}

/// Construct a lane from EO and EP lane values.
pub fn lane_cons(eofb: u8, eolr: u8, eoud: u8, ep: u8) -> (r: u8)
    ensures
        r == spec_lane_cons(eofb, eolr, eoud, ep),
{
    ep | (eofb << EOFB_SHIFT) | (eolr << EOLR_SHIFT) | (eoud << EOUD_SHIFT)
}

/// Mask out the EP bits.
pub fn ep(a: [u8; 16]) -> (r: [u8; 16])
    ensures
        forall|i: int| 0 <= i < 16 ==> #[trigger] r[i] == spec_lane_ep(a[i]),
{
    let mut r = [0u8; 16];
    let mut i: usize = 0;
    while i < 16
        invariant
            i <= 16,
            forall|k: int| 0 <= k < i ==> #[trigger] r[k] == spec_lane_ep(a[k]),
        decreases 16 - i,
    {
        r[i] = a[i] & EP_LANE_MASK;
        i += 1;
    }
    r
}

/// Mask out the EP bits at a slot.
pub fn lane_ep(a: [u8; 16], i: usize) -> (r: u8)
    requires
        i < 16,
    ensures
        r == spec_lane_ep(a[i as int]),
{
    a[i] & EP_LANE_MASK
}

/// Get a vector corresponding to EO on FB.
pub fn eofb(a: [u8; 16]) -> (r: [u8; 16])
    ensures
        forall|i: int| 0 <= i < 16 ==> #[trigger] r[i] == spec_lane_eofb(a[i]),
{
    let mut r = [0u8; 16];
    let mut i: usize = 0;
    while i < 16
        invariant
            i <= 16,
            forall|k: int| 0 <= k < i ==> #[trigger] r[k] == spec_lane_eofb(a[k]),
        decreases 16 - i,
    {
        r[i] = (a[i] & EOFB_LANE_MASK) >> EOFB_SHIFT;
        i += 1;
    }
    r
}

/// Get a vector corresponding to EO on LR.
pub fn eolr(a: [u8; 16]) -> (r: [u8; 16])
    ensures
        forall|i: int| 0 <= i < 16 ==> #[trigger] r[i] == spec_lane_eolr(a[i]),
{
    let mut r = [0u8; 16];
    let mut i: usize = 0;
    while i < 16
        invariant
            i <= 16,
            forall|k: int| 0 <= k < i ==> #[trigger] r[k] == spec_lane_eolr(a[k]),
        decreases 16 - i,
    {
        r[i] = (a[i] & EOLR_LANE_MASK) >> EOLR_SHIFT;
        i += 1;
    }
    r
}

/// Get a vector corresponding to EO on UD.
pub fn eoud(a: [u8; 16]) -> (r: [u8; 16])
    ensures
        forall|i: int| 0 <= i < 16 ==> #[trigger] r[i] == spec_lane_eoud(a[i]),
{
    let mut r = [0u8; 16];
    let mut i: usize = 0;
    while i < 16
        invariant
            i <= 16,
            forall|k: int| 0 <= k < i ==> #[trigger] r[k] == spec_lane_eoud(a[k]),
        decreases 16 - i,
    {
        r[i] = (a[i] & EOUD_LANE_MASK) >> EOUD_SHIFT;
        i += 1;
    }
    r
}

/// Get EO on FB at a slot.
pub fn lane_eofb(a: [u8; 16], i: usize) -> (r: u8)
    requires
        i < 16,
    ensures
        r == spec_lane_eofb(a[i as int]),
{
    (a[i] & EOFB_LANE_MASK) >> EOFB_SHIFT
}

/// Get EO on LR at a slot.
pub fn lane_eolr(a: [u8; 16], i: usize) -> (r: u8)
    requires
        i < 16,
    ensures
        r == spec_lane_eolr(a[i as int]),
{
    (a[i] & EOLR_LANE_MASK) >> EOLR_SHIFT
}

/// Get EO on UD at a slot.
pub fn lane_eoud(a: [u8; 16], i: usize) -> (r: u8)
    requires
        i < 16,
    ensures
        r == spec_lane_eoud(a[i as int]),
{
    (a[i] & EOUD_LANE_MASK) >> EOUD_SHIFT
}

/// Select the edges which are not in HTR, using the fact that bits 2 and 3 encode which
/// slice an edge belongs to (see `Edge`).
pub fn htrbad(a: [u8; 16]) -> (r: [bool; 16])
    ensures
        forall|i: int| 0 <= i < 16 ==> #[trigger] r[i] == spec_lane_htrbad(a[i], i),
{
    let mut r = [false; 16];
    let mut i: usize = 0;
    while i < 16
        invariant
            i <= 16,
            forall|k: int| 0 <= k < i ==> #[trigger] r[k] == spec_lane_htrbad(a[k], k),
        decreases 16 - i,
    {
        r[i] = (a[i] ^ EDGES_IDENT[i]) & EPSLICE_LANE_MASK != 0;
        i += 1;
    }
    r
}

/// Whether the edge in the given slot is out of its slice.
pub fn lane_htrbad(a: [u8; 16], i: usize) -> (r: bool)
    requires
        i < 16,
    ensures
        r == spec_lane_htrbad(a[i as int], i as int),
{
    (a[i] ^ (i as u8)) & EPSLICE_LANE_MASK != 0
}

/// Return a new vector with EP set to the given vector. The given vector should keep the
/// padding lanes as they are.
pub fn set_ep(a: [u8; 16], ep: [u8; 16]) -> (r: [u8; 16])
    ensures
        forall|i: int| 0 <= i < 16 ==> #[trigger] r[i] == spec_lane_set_ep(a[i], ep[i]),
{
    let mut r = [0u8; 16];
    let mut i: usize = 0;
    while i < 16
        invariant
            i <= 16,
            forall|k: int| 0 <= k < i ==> #[trigger] r[k] == spec_lane_set_ep(a[k], ep[k]),
        decreases 16 - i,
    {
        r[i] = (a[i] & EO_LANE_MASK) ^ ep[i];
        i += 1;
    }
    r
}

/// Return a new vector with EP at the given slot set to a new value.
pub fn lane_set_ep(a: [u8; 16], i: usize, ep: u8) -> (r: [u8; 16])
    requires
        i < 16,
    ensures
        r@ == a@.update(i as int, spec_lane_set_ep(a[i as int], ep)),
{
    let mut a = a;
    a[i] = (a[i] & EO_LANE_MASK) ^ ep;
    a
}

/// The relation between EO on FB and EO on UD, per slot, for an EP vector.
pub fn eofb_to_eoud(ep: [u8; 16]) -> (r: [u8; 16])
    requires
        forall|i: int| 0 <= i < 16 ==> #[trigger] ep[i] < 16,
    ensures
        forall|i: int| 0 <= i < 16 ==> #[trigger] r[i] == spec_relation(10, ep[i], i),
{
    relation(FB_TO_UD_TABLE, ep)
}

/// The relation between EO on FB and EO on LR, per slot, for an EP vector.
pub fn eofb_to_eolr(ep: [u8; 16]) -> (r: [u8; 16])
    requires
        forall|i: int| 0 <= i < 16 ==> #[trigger] ep[i] < 16,
    ensures
        forall|i: int| 0 <= i < 16 ==> #[trigger] r[i] == spec_relation(12, ep[i], i),
{
    relation(FB_TO_LR_TABLE, ep)
}

/// The relation between EO on LR and EO on UD, per slot, for an EP vector.
pub fn eolr_to_eoud(ep: [u8; 16]) -> (r: [u8; 16])
    requires
        forall|i: int| 0 <= i < 16 ==> #[trigger] ep[i] < 16,
    ensures
        forall|i: int| 0 <= i < 16 ==> #[trigger] r[i] == spec_relation(6, ep[i], i),
{
    relation(LR_TO_UD_TABLE, ep)
}

/// Look each slot up in a relation table by the slice difference of its edge.
fn relation(table: u8, ep: [u8; 16]) -> (r: [u8; 16])
    requires
        forall|i: int| 0 <= i < 16 ==> #[trigger] ep[i] < 16,
    ensures
        forall|i: int| 0 <= i < 16 ==> #[trigger] r[i] == spec_relation(table, ep[i], i),
{
    let mut r = [0u8; 16];
    let mut i: usize = 0;
    while i < 16
        invariant
            i <= 16,
            forall|k: int| 0 <= k < 16 ==> #[trigger] ep[k] < 16,
            forall|k: int| 0 <= k < i ==> #[trigger] r[k] == spec_relation(table, ep[k], k),
        decreases 16 - i,
    {
        let s = (ep[i] ^ EDGES_IDENT[i]) >> EPSLICE_SHIFT;
        proof {
            lemma_relation_bit(table, ep[i as int], i as u8);
        }
        r[i] = (table >> s) & 1;
        i += 1;
    }
    r
}

/// Return a new vector with EOFB set to the given vector.
pub fn set_eofb(a: [u8; 16], eofb: [u8; 16]) -> (r: [u8; 16])
    ensures
        forall|i: int| 0 <= i < 16 ==> #[trigger] r[i] == spec_lane_set_eofb(a[i], i, eofb[i]),
{
    let ep = ep(a);
    proof {
        assert forall|i: int| 0 <= i < 16 implies #[trigger] ep[i] < 16 by {
            lemma_lane_bits(a[i], 0);
        }
    }
    let lr = eofb_to_eolr(ep);
    let ud = eofb_to_eoud(ep);
    let mut r = [0u8; 16];
    let mut i: usize = 0;
    while i < 16
        invariant
            i <= 16,
            forall|k: int| 0 <= k < 16 ==> #[trigger] ep[k] == spec_lane_ep(a[k]),
            forall|k: int| 0 <= k < 16 ==> #[trigger] lr[k] == spec_relation(12, ep[k], k),
            forall|k: int| 0 <= k < 16 ==> #[trigger] ud[k] == spec_relation(10, ep[k], k),
            forall|k: int| 0 <= k < i ==> #[trigger] r[k] == spec_lane_set_eofb(a[k], k, eofb[k]),
        decreases 16 - i,
    {
        r[i] = lane_cons(eofb[i], eofb[i] ^ lr[i], eofb[i] ^ ud[i], ep[i]);
        i += 1;
    }
    r
}

/// Return a new vector with EOLR set to the given vector.
pub fn set_eolr(a: [u8; 16], eolr: [u8; 16]) -> (r: [u8; 16])
    ensures
        forall|i: int| 0 <= i < 16 ==> #[trigger] r[i] == spec_lane_set_eolr(a[i], i, eolr[i]),
{
    let ep = ep(a);
    proof {
        assert forall|i: int| 0 <= i < 16 implies #[trigger] ep[i] < 16 by {
            lemma_lane_bits(a[i], 0);
        }
    }
    let fb = eofb_to_eolr(ep);
    let ud = eolr_to_eoud(ep);
    let mut r = [0u8; 16];
    let mut i: usize = 0;
    while i < 16
        invariant
            i <= 16,
            forall|k: int| 0 <= k < 16 ==> #[trigger] ep[k] == spec_lane_ep(a[k]),
            forall|k: int| 0 <= k < 16 ==> #[trigger] fb[k] == spec_relation(12, ep[k], k),
            forall|k: int| 0 <= k < 16 ==> #[trigger] ud[k] == spec_relation(6, ep[k], k),
            forall|k: int| 0 <= k < i ==> #[trigger] r[k] == spec_lane_set_eolr(a[k], k, eolr[k]),
        decreases 16 - i,
    {
        r[i] = lane_cons(eolr[i] ^ fb[i], eolr[i], eolr[i] ^ ud[i], ep[i]);
        i += 1;
    }
    r
}

/// Return a new vector with EOUD set to the given vector.
pub fn set_eoud(a: [u8; 16], eoud: [u8; 16]) -> (r: [u8; 16])
    ensures
        forall|i: int| 0 <= i < 16 ==> #[trigger] r[i] == spec_lane_set_eoud(a[i], i, eoud[i]),
{
    let ep = ep(a);
    proof {
        assert forall|i: int| 0 <= i < 16 implies #[trigger] ep[i] < 16 by {
            lemma_lane_bits(a[i], 0);
        }
    }
    let fb = eofb_to_eoud(ep);
    let lr = eolr_to_eoud(ep);
    let mut r = [0u8; 16];
    let mut i: usize = 0;
    while i < 16
        invariant
            i <= 16,
            forall|k: int| 0 <= k < 16 ==> #[trigger] ep[k] == spec_lane_ep(a[k]),
            forall|k: int| 0 <= k < 16 ==> #[trigger] fb[k] == spec_relation(10, ep[k], k),
            forall|k: int| 0 <= k < 16 ==> #[trigger] lr[k] == spec_relation(6, ep[k], k),
            forall|k: int| 0 <= k < i ==> #[trigger] r[k] == spec_lane_set_eoud(a[k], k, eoud[k]),
        decreases 16 - i,
    {
        r[i] = lane_cons(eoud[i] ^ fb[i], eoud[i] ^ lr[i], eoud[i], ep[i]);
        i += 1;
    }
    r
}

/// Compose two edge vectors: the edges of `a` followed by those of `b`.
pub fn compose(a: [u8; 16], b: [u8; 16]) -> (r: [u8; 16])
    ensures
        r@ == spec_compose(a@, b@),
{
    let mut r = [0u8; 16];
    let mut i: usize = 0;
    while i < 16
        invariant
            i <= 16,
            forall|k: int| 0 <= k < i ==> #[trigger] r[k] == spec_compose_lane(a@, b@, k),
        decreases 16 - i,
    {
        proof {
            lemma_lane_bits(b[i as int], 0);
        }
        r[i] = a[(b[i] & EP_LANE_MASK) as usize] ^ (b[i] & EO_LANE_MASK);
        i += 1;
    }
    assert(r@ =~= spec_compose(a@, b@));
    r
}

/// The solved edges with all three EO bits flipped in the slots where `mask` is set.
pub fn flip(mask: [bool; 16]) -> (r: [u8; 16])
    ensures
        forall|i: int| 0 <= i < 16 ==> #[trigger] r[i] == if mask[i] { (i as u8) ^ 112 } else { i as u8 },
{
    let mut r = EDGES_IDENT;
    let mut i: usize = 0;
    while i < 16
        invariant
            i <= 16,
            forall|k: int| i <= k < 16 ==> #[trigger] r[k] == k as u8,
            forall|k: int| 0 <= k < i ==> #[trigger] r[k] == if mask[k] { (k as u8) ^ 112 } else { k as u8 },
        decreases 16 - i,
    {
        if mask[i] {
            r[i] = r[i] ^ EO_LANE_MASK;
        }
        i += 1;
    }
    r
}

// ---- the EO on FB coordinate ---------------------------------------------------

/// `2` to the power `i`.
pub open spec fn spec_pow2(i: int) -> int
    decreases i,
{
    if i <= 0 { 1 } else { 2 * spec_pow2(i - 1) }
}

/// The number whose binary digits are EO on FB of the first `n` slots, slot 0 lowest.
pub open spec fn spec_eofb_sum(a: Seq<u8>, n: int) -> int
    decreases n,
{
    if n <= 0 { 0 } else { spec_eofb_sum(a, n - 1) + spec_lane_eofb(a[n - 1]) * spec_pow2(n - 1) }
}

/// The EO on FB coordinate: EO on FB of the first eleven edges read as a binary number.
pub open spec fn spec_index_eofb(a: Seq<u8>) -> int {
    spec_eofb_sum(a, 11)
}

/// Digit `i` of a coordinate, and the parity of its digits for the twelfth edge.
pub open spec fn spec_unindex_eofb_bit(coord: int, i: int) -> u8 {
    if i < 11 {
        ((coord / spec_pow2(i)) % 2) as u8
    } else if i == 11 {
        (spec_bit_count(coord, 11) % 2) as u8
    } else {
        0
    }
}

/// The number of binary digits set among the first `n` of `coord`.
pub open spec fn spec_bit_count(coord: int, n: int) -> int
    decreases n,
{
    if n <= 0 { 0 } else { spec_bit_count(coord, n - 1) + (coord / spec_pow2(n - 1)) % 2 }
}

proof fn lemma_pow2_positive(i: int)
    ensures
        spec_pow2(i) > 0,
    decreases i,
{
    if i > 0 {
        lemma_pow2_positive(i - 1);
    }
}

proof fn lemma_pow2_bound(i: int)
    requires
        0 <= i <= 11,
    ensures
        spec_pow2(i) <= 2048,
        i < 11 ==> spec_pow2(i) <= 1024,
    decreases 11 - i,
{
    lemma_pow2_positive(i);
    if i < 11 {
        lemma_pow2_bound(i + 1);
    } else {
        reveal_with_fuel(spec_pow2, 12);
    }
}

/// The first `n` binary digits of a number read back give it modulo `2^n`.
proof fn lemma_digits_sum(coord: int, n: int)
    requires
        coord >= 0,
        n >= 0,
    ensures
        spec_digit_sum(coord, n) == coord % spec_pow2(n),
    decreases n,
{
    if n == 0 {
        assert(coord % 1 == 0);
    } else {
        lemma_digits_sum(coord, n - 1);
        lemma_pow2_positive(n - 1);
        vstd::arithmetic::div_mod::lemma_mod_breakdown(coord, spec_pow2(n - 1), 2);
        assert(spec_pow2(n - 1) * 2 == spec_pow2(n));
        assert(spec_pow2(n - 1) * ((coord / spec_pow2(n - 1)) % 2) == ((coord / spec_pow2(n - 1)) % 2) * spec_pow2(n - 1))
            by (nonlinear_arith);
    }
}

/// The first `n` binary digits of `coord`, weighed.
pub open spec fn spec_digit_sum(coord: int, n: int) -> int
    decreases n,
{
    if n <= 0 { 0 } else { spec_digit_sum(coord, n - 1) + ((coord / spec_pow2(n - 1)) % 2) * spec_pow2(n - 1) }
}

/// The EO on FB coordinate of an edge vector.
pub fn index_eofb(a: [u8; 16]) -> (r: usize)
    ensures
        r == spec_index_eofb(a@),
        r < 2048,
{
    proof {
        reveal_with_fuel(spec_pow2, 12);
    }
    let mut sum: usize = 0;
    let mut p: usize = 1;
    let mut i: usize = 0;
    while i < 11
        invariant
            i <= 11,
            p == spec_pow2(i as int),
            sum == spec_eofb_sum(a@, i as int),
            sum < p,
        decreases 11 - i,
    {
        proof {
            lemma_pow2_bound(i as int);
        }
        let bit = (a[i] & EOFB_LANE_MASK) >> EOFB_SHIFT;
        assert(bit < 2) by {
            let x = a[i as int];
            assert((x & 16) >> 4u8 < 2) by (bit_vector);
        }
        let add: usize = if bit == 0 { 0 } else { p };
        assert(add == bit * p) by {
            if bit == 1 {
                assert(1 * p == p);
            }
        }
        sum = sum + add;
        p = p * 2;
        i += 1;
    }
    sum
}

/// The solved edges with the EO on FB that `coord` names, EO on the twelfth edge making
/// the number of flipped edges even.
pub fn unindex_eofb(coord: usize) -> (r: [u8; 16])
    requires
        coord < 2048,
    ensures
        forall|i: int| 0 <= i < 16 ==> #[trigger] r[i] == spec_lane_set_eofb(i as u8, i, spec_unindex_eofb_bit(coord as int, i)),
        spec_index_eofb(r@) == coord,
{
    let mut bits = [0u8; 16];
    let mut count: usize = 0;
    let mut p: usize = 1;
    let mut i: usize = 0;
    while i < 11
        invariant
            i <= 11,
            coord < 2048,
            p == spec_pow2(i as int),
            count == spec_bit_count(coord as int, i as int),
            count <= i,
            forall|k: int| 0 <= k < i ==> #[trigger] bits[k] == spec_unindex_eofb_bit(coord as int, k),
            forall|k: int| i <= k < 16 ==> #[trigger] bits[k] == 0,
        decreases 11 - i,
    {
        proof {
            lemma_pow2_positive(i as int);
            lemma_pow2_bound(i as int);
        }
        let b = (coord / p) % 2;
        bits[i] = b as u8;
        count = count + b;
        p = p * 2;
        i += 1;
    }
    bits[11] = (count % 2) as u8;
    let r = set_eofb(EDGES_IDENT, bits);
    proof {
        assert forall|i: int| 0 <= i < 16 implies #[trigger] bits[i] == spec_unindex_eofb_bit(coord as int, i) by {}
        assert forall|i: int| 0 <= i < 16 implies #[trigger] r[i] == spec_lane_set_eofb(i as u8, i, spec_unindex_eofb_bit(coord as int, i)) by {
            assert(EDGES_IDENT[i] == i as u8);
        }
        lemma_index_unindex(coord as int, r@);
    }
    r
}

/// Reading the coordinate of the unindexed edges gives the coordinate back.
proof fn lemma_index_unindex(coord: int, r: Seq<u8>)
    requires
        0 <= coord < 2048,
        r.len() == 16,
        forall|i: int| 0 <= i < 16 ==> #[trigger] r[i] == spec_lane_set_eofb(i as u8, i, spec_unindex_eofb_bit(coord, i)),
    ensures
        spec_index_eofb(r) == coord,
{
    assert forall|k: int| 0 <= k <= 11 implies #[trigger] spec_eofb_sum(r, k) == spec_digit_sum(coord, k) by {
        lemma_eofb_sum_digits(coord, r, k);
    }
    lemma_digits_sum(coord, 11);
    assert(spec_pow2(11) == 2048) by {
        reveal_with_fuel(spec_pow2, 12);
    }
}

proof fn lemma_eofb_sum_digits(coord: int, r: Seq<u8>, k: int)
    requires
        0 <= coord < 2048,
        0 <= k <= 11,
        r.len() == 16,
        forall|i: int| 0 <= i < 16 ==> #[trigger] r[i] == spec_lane_set_eofb(i as u8, i, spec_unindex_eofb_bit(coord, i)),
    ensures
        spec_eofb_sum(r, k) == spec_digit_sum(coord, k),
    decreases k,
{
    if k > 0 {
        lemma_eofb_sum_digits(coord, r, k - 1);
        let i = k - 1;
        lemma_pow2_positive(i);
        let b = spec_unindex_eofb_bit(coord, i);
        assert(b < 2);
        let ep = (i as u8) & 15;
        lemma_lane_bits(i as u8, 0);
        lemma_relation_bit(12, ep, i as u8);
        lemma_relation_bit(10, ep, i as u8);
        let lr = b ^ spec_relation(12, ep, i);
        let ud = b ^ spec_relation(10, ep, i);
        assert(lr < 2 && ud < 2) by {
            let x = spec_relation(12, ep, i);
            let y = spec_relation(10, ep, i);
            assert(b < 2 && x < 2 ==> b ^ x < 2) by (bit_vector);
            assert(b < 2 && y < 2 ==> b ^ y < 2) by (bit_vector);
        }
        lemma_cons_bits(b, lr, ud, ep);
    }
}

} // verus!
