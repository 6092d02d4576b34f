//! Operations on the packed corner representation: eight lanes, one per slot,
//! where bits 0..=2 hold the corner piece in the slot and bits 3..=4 hold its
//! orientation with respect to the UD axis.
use vstd::prelude::*;

verus! {

// Suppose a corner `c` is currently at a slot `s`. If `c` belongs to the same HTR tetrad as `s`,
// then CO on all axes is the same at `s`. Otherwise, CO on FB and LR can be deduced from CO on
// UD with the following.
pub const COUD_TO_COFB: [u8; 8] = [1, 2, 1, 2, 1, 2, 1, 2];
pub const COUD_TO_COLR: [u8; 8] = [2, 1, 2, 1, 2, 1, 2, 1];
pub const COFB_TO_COUD: [u8; 8] = [2, 1, 2, 1, 2, 1, 2, 1];
pub const COLR_TO_COUD: [u8; 8] = [1, 2, 1, 2, 1, 2, 1, 2];

pub const CP_IDENT: [u8; 8] = [0, 1, 2, 3, 4, 5, 6, 7];
pub const CORNERS_IDENT: [u8; 8] = [0, 1, 2, 3, 4, 5, 6, 7];

pub const CP_LANE_MASK: u8 = 7;
pub const CP_MASK: [u8; 8] = [7, 7, 7, 7, 7, 7, 7, 7];

pub const CO_LANE_MASK: u8 = 24;
pub const CO_MASK: [u8; 8] = [24, 24, 24, 24, 24, 24, 24, 24];
pub const CO_SHIFT: u8 = 3;

/// The conversion of CO on UD to CO on FB for a corner out of its tetrad at slot `i`.
pub open spec fn spec_coud_to_cofb(i: int) -> u8 {
    if i % 2 == 0 { 1 } else { 2 }
}

/// The conversion of CO on UD to CO on LR for a corner out of its tetrad at slot `i`.
pub open spec fn spec_coud_to_colr(i: int) -> u8 {
    if i % 2 == 0 { 2 } else { 1 }
}

// ---- lane semantics -------------------------------------------------------

/// A lane built from a CO value and a CP value (wrapping, as vector addition does).
pub open spec fn spec_lane_cons(coud: u8, cp: u8) -> u8 {
    (coud << 3u8).wrapping_add(cp)
}

/// The CP bits of a lane.
pub open spec fn spec_lane_cp(x: u8) -> u8 {
    x & 7
}

/// The CO bits of a lane, shifted down.
pub open spec fn spec_lane_coud(x: u8) -> u8 {
    (x & 24) >> 3u8
}

/// Sum modulo 3 of two values that are already reduced (wrapping, as the vector code does).
pub open spec fn spec_addmod3(a: u8, b: u8) -> u8 {
    let s = a.wrapping_add(b);
    let d = s.wrapping_sub(3);
    if d < s { d } else { s }
}

/// Additive inverse modulo 3 of a reduced value.
pub open spec fn spec_invmod3(a: u8) -> u8 {
    let r = 3u8.wrapping_sub(a);
    if r != 3 { r } else { 0 }
}

/// Whether the piece in slot `i` belongs to the other tetrad than the slot.
pub open spec fn spec_lane_htrbad(x: u8, i: int) -> bool {
    (x ^ (i as u8)) & 1 != 0
}

/// CO on FB of a lane at slot `i`.
pub open spec fn spec_lane_cofb(x: u8, i: int) -> u8 {
    let coud = spec_lane_coud(x);
    if spec_lane_htrbad(x, i) { spec_addmod3(coud, spec_coud_to_cofb(i)) } else { coud }
}

/// CO on LR of a lane at slot `i`.
pub open spec fn spec_lane_colr(x: u8, i: int) -> u8 {
    let coud = spec_lane_coud(x);
    if spec_lane_htrbad(x, i) { spec_addmod3(coud, spec_coud_to_colr(i)) } else { coud }
}

/// The lane with its CP bits replaced, by exclusive or into the cleared bits.
pub open spec fn spec_lane_set_cp(x: u8, cp: u8) -> u8 {
    (x & 24) ^ cp
}

/// The lane with its CO bits replaced, by exclusive or into the cleared bits.
pub open spec fn spec_lane_set_coud(x: u8, coud: u8) -> u8 {
    (coud << 3u8) ^ (x & 7)
}

/// The lane at slot `i` with its CO on FB set to `cofb`.
pub open spec fn spec_lane_set_cofb(x: u8, i: int, cofb: u8) -> u8 {
    let coud = if spec_lane_htrbad(x, i) { spec_addmod3(cofb, (3 - spec_coud_to_cofb(i)) as u8) } else { cofb };
    spec_lane_set_coud(x, coud)
}

/// The lane at slot `i` with its CO on LR set to `colr`.
pub open spec fn spec_lane_set_colr(x: u8, i: int, colr: u8) -> u8 {
    let coud = if spec_lane_htrbad(x, i) { spec_addmod3(colr, (3 - spec_coud_to_colr(i)) as u8) } else { colr };
    spec_lane_set_coud(x, coud)
}

// ---- the mathematical view of a valid lane ---------------------------------

/// A valid lane holds a piece in 0..8 and an orientation in 0..3.
pub open spec fn lane_ok(x: u8) -> bool {
    x < 24
}

/// The piece of a valid lane.
pub open spec fn cp_of(x: u8) -> int {
    x as int % 8
}

/// The orientation (on UD) of a valid lane.
pub open spec fn co_of(x: u8) -> int {
    x as int / 8
}

/// Valid lanes whose pieces form a permutation of the eight slots.
pub open spec fn corners_wf(a: [u8; 8]) -> bool {
    &&& forall|i: int| 0 <= i < 8 ==> lane_ok(#[trigger] a[i])
    &&& forall|i: int, j: int| 0 <= i < 8 && 0 <= j < 8 && i != j ==> cp_of(#[trigger] a[i]) != cp_of(#[trigger] a[j])
}

/// Bit facts about a lane, stated arithmetically.
pub proof fn lemma_lane_bits(x: u8)
    by (bit_vector)
    ensures
        x & 7 == x % 8,
        x & 1 == x % 2,
        x & 24 == ((x / 8) % 4) * 8,
        (x & 24) >> 3u8 == (x / 8) % 4,
        x < 32 ==> (x & 24) >> 3u8 == x / 8,
{
}

/// Bit facts about building a lane.
pub proof fn lemma_build_bits(c: u8, y: u8)
    by (bit_vector)
    ensures
        c < 4 ==> (c << 3u8) ^ (y & 7) == c * 8 + y % 8,
        c < 4 ==> (c << 3u8) == c * 8,
        c < 4 && y < 8 ==> (c << 3u8).wrapping_add(y) == c * 8 + y,
        y < 8 ==> (c & 24) ^ y == (c & 24) + y,
        ((y ^ c) & 1 != 0) == (y % 2 != c % 2),
{
}

// ---- vector and lane operations ---------------------------------------------

/// Construct a corner vector from CO and CP vectors.
pub fn cons(coud: [u8; 8], cp: [u8; 8]) -> (r: [u8; 8])
    ensures
        forall|i: int| 0 <= i < 8 ==> #[trigger] r[i] == spec_lane_cons(coud[i], cp[i]),
{
    let mut r = [0u8; 8];
    let mut i: usize = 0;
    while i < 8
        invariant
            i <= 8,
            forall|k: int| 0 <= k < i ==> #[trigger] r[k] == spec_lane_cons(coud[k], cp[k]),
        decreases 8 - i,
    {
        r[i] = (coud[i] << CO_SHIFT).wrapping_add(cp[i]);
        i += 1;
    }
    r
}

/// Construct a lane from CO and CP lane values.
pub fn lane_cons(coud: u8, cp: u8) -> (r: u8)
    requires
        (coud << 3u8) + cp < 256,
    ensures
        r == spec_lane_cons(coud, cp),
        r == (coud << 3u8) + cp,
{
    (coud << CO_SHIFT) + cp
}

/// Mask out the CP bits.
pub fn cp(a: [u8; 8]) -> (r: [u8; 8])
    ensures
        forall|i: int| 0 <= i < 8 ==> #[trigger] r[i] == spec_lane_cp(a[i]),
{
    let mut r = [0u8; 8];
    let mut i: usize = 0;
    while i < 8
        invariant
            i <= 8,
            forall|k: int| 0 <= k < i ==> #[trigger] r[k] == spec_lane_cp(a[k]),
        decreases 8 - i,
    {
        r[i] = a[i] & CP_LANE_MASK;
        i += 1;
    }
    r
}

/// Mask out the CP bits at a slot.
pub fn lane_cp(a: [u8; 8], i: usize) -> (r: u8)
    requires
        i < 8,
    ensures
        r == spec_lane_cp(a[i as int]),
{
    a[i] & CP_LANE_MASK
}

/// Get a vector corresponding to CO on UD.
pub fn coud(a: [u8; 8]) -> (r: [u8; 8])
    ensures
        forall|i: int| 0 <= i < 8 ==> #[trigger] r[i] == spec_lane_coud(a[i]),
{
    let mut r = [0u8; 8];
    let mut i: usize = 0;
    while i < 8
        invariant
            i <= 8,
            forall|k: int| 0 <= k < i ==> #[trigger] r[k] == spec_lane_coud(a[k]),
        decreases 8 - i,
    {
        r[i] = (a[i] & CO_LANE_MASK) >> CO_SHIFT;
        i += 1;
    }
    r
}

/// Get CO on UD at a slot.
pub fn lane_coud(a: [u8; 8], i: usize) -> (r: u8)
    requires
        i < 8,
    ensures
        r == spec_lane_coud(a[i as int]),
{
    (a[i] & CO_LANE_MASK) >> CO_SHIFT
}

/// Get a vector corresponding to CO on FB.
pub fn cofb(a: [u8; 8]) -> (r: [u8; 8])
    ensures
        forall|i: int| 0 <= i < 8 ==> #[trigger] r[i] == spec_lane_cofb(a[i], i),
{
    let coud = coud(a);
    let cofb = addmod3(coud, COUD_TO_COFB);
    let bad = htrbad(a);
    let mut r = [0u8; 8];
    let mut i: usize = 0;
    while i < 8
        invariant
            i <= 8,
            forall|k: int| 0 <= k < 8 ==> #[trigger] coud[k] == spec_lane_coud(a[k]),
            forall|k: int| 0 <= k < 8 ==> #[trigger] cofb[k] == spec_addmod3(coud[k], COUD_TO_COFB[k]),
            forall|k: int| 0 <= k < 8 ==> #[trigger] bad[k] == spec_lane_htrbad(a[k], k),
            forall|k: int| 0 <= k < i ==> #[trigger] r[k] == spec_lane_cofb(a[k], k),
        decreases 8 - i,
    {
        r[i] = if bad[i] { cofb[i] } else { coud[i] };
        i += 1;
    }
    r
}

/// Get CO on FB at a slot.
pub fn lane_cofb(a: [u8; 8], i: usize) -> (r: u8)
    requires
        i < 8,
    ensures
        r == spec_lane_cofb(a[i as int], i as int),
{
    let coud = lane_coud(a, i);
    proof {
        lemma_lane_bits(a[i as int]);
    }
    let cofb = addmod3_lane(coud, COUD_TO_COFB[i]);
    if lane_htrbad(a, i) { cofb } else { coud }
}

/// Get a vector corresponding to CO on LR.
pub fn colr(a: [u8; 8]) -> (r: [u8; 8])
    ensures
        forall|i: int| 0 <= i < 8 ==> #[trigger] r[i] == spec_lane_colr(a[i], i),
{
    let coud = coud(a);
    let colr = addmod3(coud, COUD_TO_COLR);
    let bad = htrbad(a);
    let mut r = [0u8; 8];
    let mut i: usize = 0;
    while i < 8
        invariant
            i <= 8,
            forall|k: int| 0 <= k < 8 ==> #[trigger] coud[k] == spec_lane_coud(a[k]),
            forall|k: int| 0 <= k < 8 ==> #[trigger] colr[k] == spec_addmod3(coud[k], COUD_TO_COLR[k]),
            forall|k: int| 0 <= k < 8 ==> #[trigger] bad[k] == spec_lane_htrbad(a[k], k),
            forall|k: int| 0 <= k < i ==> #[trigger] r[k] == spec_lane_colr(a[k], k),
        decreases 8 - i,
    {
        r[i] = if bad[i] { colr[i] } else { coud[i] };
        i += 1;
    }
    r
}

/// Get CO on LR at a slot.
pub fn lane_colr(a: [u8; 8], i: usize) -> (r: u8)
    requires
        i < 8,
    ensures
        r == spec_lane_colr(a[i as int], i as int),
{
    let coud = lane_coud(a, i);
    let colr = addmod3_lane(coud, COUD_TO_COLR[i]);
    if lane_htrbad(a, i) { colr } else { coud }
}

/// Modular additive inverse of a vector mod 3.
pub fn invmod3(a: [u8; 8]) -> (r: [u8; 8])
    ensures
        forall|i: int| 0 <= i < 8 ==> #[trigger] r[i] == spec_invmod3(a[i]),
        forall|i: int| 0 <= i < 8 && a[i] < 3 ==> #[trigger] r[i] == (3 - a[i]) % 3,
{
    let mut r = [0u8; 8];
    let mut i: usize = 0;
    while i < 8
        invariant
            i <= 8,
            forall|k: int| 0 <= k < i ==> #[trigger] r[k] == spec_invmod3(a[k]),
        decreases 8 - i,
    {
        let x = 3u8.wrapping_sub(a[i]);
        r[i] = if x != 3 { x } else { 0 };
        i += 1;
    }
    r
}

/// Sum mod 3 of two lanes that are already reduced mod 3.
fn addmod3_lane(a: u8, b: u8) -> (r: u8)
    ensures
        r == spec_addmod3(a, b),
        a < 3 && b < 3 ==> r == (a + b) % 3,
{
    let s = a.wrapping_add(b);
    let d = s.wrapping_sub(3);
    if d < s { d } else { s }
}

/// Add two vectors mod 3, assuming the vectors already contain elements mod 3.
pub fn addmod3(a: [u8; 8], b: [u8; 8]) -> (r: [u8; 8])
    ensures
        forall|i: int| 0 <= i < 8 ==> #[trigger] r[i] == spec_addmod3(a[i], b[i]),
        forall|i: int| 0 <= i < 8 && a[i] < 3 && b[i] < 3 ==> #[trigger] r[i] == (a[i] + b[i]) % 3,
{
    let mut r = [0u8; 8];
    let mut i: usize = 0;
    while i < 8
        invariant
            i <= 8,
            forall|k: int| 0 <= k < i ==> #[trigger] r[k] == spec_addmod3(a[k], b[k]),
            forall|k: int| 0 <= k < i && a[k] < 3 && b[k] < 3 ==> #[trigger] r[k] == (a[k] + b[k]) % 3,
        decreases 8 - i,
    {
        r[i] = addmod3_lane(a[i], b[i]);
        i += 1;
    }
    r
}

/// Select the corners which are not in HTR, using the fact that the LSB encodes which
/// tetrad a corner belongs to.
pub fn htrbad(a: [u8; 8]) -> (r: [bool; 8])
    ensures
        forall|i: int| 0 <= i < 8 ==> #[trigger] r[i] == spec_lane_htrbad(a[i], i),
{
    let mut r = [false; 8];
    let mut i: usize = 0;
    while i < 8
        invariant
            i <= 8,
            forall|k: int| 0 <= k < i ==> #[trigger] r[k] == spec_lane_htrbad(a[k], k),
        decreases 8 - i,
    {
        r[i] = ((a[i] ^ CORNERS_IDENT[i]) & 1) != 0;
        i += 1;
    }
    r
}

/// Whether the corner in the given slot is out of its HTR tetrad.
pub fn lane_htrbad(a: [u8; 8], i: usize) -> (r: bool)
    requires
        i < 8,
    ensures
        r == spec_lane_htrbad(a[i as int], i as int),
        r == (a[i as int] % 2 != i % 2),
{
    proof {
        lemma_build_bits(i as u8, a[i as int]);
    }
    (a[i] ^ (i as u8)) & 1 != 0
}

/// Return a new vector with CP set to the given vector.
pub fn set_cp(a: [u8; 8], cp: [u8; 8]) -> (r: [u8; 8])
    ensures
        forall|i: int| 0 <= i < 8 ==> #[trigger] r[i] == spec_lane_set_cp(a[i], cp[i]),
{
    let mut r = [0u8; 8];
    let mut i: usize = 0;
    while i < 8
        invariant
            i <= 8,
            forall|k: int| 0 <= k < i ==> #[trigger] r[k] == spec_lane_set_cp(a[k], cp[k]),
        decreases 8 - i,
    {
        r[i] = (a[i] & CO_LANE_MASK) ^ cp[i];
        i += 1;
    }
    r
}

/// Return a new vector with CP at the given slot set to a new value.
pub fn lane_set_cp(a: [u8; 8], i: usize, cp: u8) -> (r: [u8; 8])
    requires
        i < 8,
    ensures
        r[i as int] == spec_lane_set_cp(a[i as int], cp),
        forall|k: int| 0 <= k < 8 && k != i ==> #[trigger] r[k] == a[k],
{
    let mut a = a;
    a[i] = (a[i] & CO_LANE_MASK) ^ cp;
    a
}

/// Return a new vector with COUD set to the given vector.
pub fn set_coud(a: [u8; 8], coud: [u8; 8]) -> (r: [u8; 8])
    ensures
        forall|i: int| 0 <= i < 8 ==> #[trigger] r[i] == spec_lane_set_coud(a[i], coud[i]),
{
    let mut r = [0u8; 8];
    let mut i: usize = 0;
    while i < 8
        invariant
            i <= 8,
            forall|k: int| 0 <= k < i ==> #[trigger] r[k] == spec_lane_set_coud(a[k], coud[k]),
        decreases 8 - i,
    {
        r[i] = (coud[i] << CO_SHIFT) ^ (a[i] & CP_LANE_MASK);
        i += 1;
    }
    r
}

/// Return a new vector with COUD at the given slot set to a new value.
pub fn lane_set_coud(a: [u8; 8], i: usize, coud: u8) -> (r: [u8; 8])
    requires
        i < 8,
    ensures
        r[i as int] == spec_lane_set_coud(a[i as int], coud),
        forall|k: int| 0 <= k < 8 && k != i ==> #[trigger] r[k] == a[k],
{
    let mut a = a;
    a[i] = (coud << CO_SHIFT) ^ (a[i] & CP_LANE_MASK);
    a
}

/// Return a new vector with CO on FB set to the given vector.
pub fn set_cofb(a: [u8; 8], cofb: [u8; 8]) -> (r: [u8; 8])
    ensures
        forall|i: int| 0 <= i < 8 ==> #[trigger] r[i] == spec_lane_set_cofb(a[i], i, cofb[i]),
{
    let coud = addmod3(cofb, COFB_TO_COUD);
    let bad = htrbad(a);
    let mut sel = [0u8; 8];
    let mut i: usize = 0;
    while i < 8
        invariant
            i <= 8,
            forall|k: int| 0 <= k < 8 ==> #[trigger] coud[k] == spec_addmod3(cofb[k], COFB_TO_COUD[k]),
            forall|k: int| 0 <= k < 8 ==> #[trigger] bad[k] == spec_lane_htrbad(a[k], k),
            forall|k: int| 0 <= k < i ==> #[trigger] sel[k] == if bad[k] { coud[k] } else { cofb[k] },
        decreases 8 - i,
    {
        sel[i] = if bad[i] { coud[i] } else { cofb[i] };
        i += 1;
    }
    set_coud(a, sel)
}

/// Return a new vector with CO on FB at the given slot set to a new value.
pub fn lane_set_cofb(a: [u8; 8], i: usize, cofb: u8) -> (r: [u8; 8])
    requires
        i < 8,
        cofb < 254,
    ensures
        r[i as int] == spec_lane_set_coud(a[i as int],
            if spec_lane_htrbad(a[i as int], i as int) { ((cofb + COFB_TO_COUD[i as int]) % 3) as u8 } else { cofb }),
        forall|k: int| 0 <= k < 8 && k != i ==> #[trigger] r[k] == a[k],
{
    let coud = (cofb + COFB_TO_COUD[i]) % 3;
    let coud = if lane_htrbad(a, i) { coud } else { cofb };
    lane_set_coud(a, i, coud)
}

/// Return a new vector with CO on LR set to the given vector.
pub fn set_colr(a: [u8; 8], colr: [u8; 8]) -> (r: [u8; 8])
    ensures
        forall|i: int| 0 <= i < 8 ==> #[trigger] r[i] == spec_lane_set_colr(a[i], i, colr[i]),
{
    let coud = addmod3(colr, COLR_TO_COUD);
    let bad = htrbad(a);
    let mut sel = [0u8; 8];
    let mut i: usize = 0;
    while i < 8
        invariant
            i <= 8,
            forall|k: int| 0 <= k < 8 ==> #[trigger] coud[k] == spec_addmod3(colr[k], COLR_TO_COUD[k]),
            forall|k: int| 0 <= k < 8 ==> #[trigger] bad[k] == spec_lane_htrbad(a[k], k),
            forall|k: int| 0 <= k < i ==> #[trigger] sel[k] == if bad[k] { coud[k] } else { colr[k] },
        decreases 8 - i,
    {
        sel[i] = if bad[i] { coud[i] } else { colr[i] };
        i += 1;
    }
    set_coud(a, sel)
}

/// Return a new vector with CO on LR at the given slot set to a new value.
pub fn lane_set_colr(a: [u8; 8], i: usize, colr: u8) -> (r: [u8; 8])
    requires
        i < 8,
        colr < 254,
    ensures
        r[i as int] == spec_lane_set_coud(a[i as int],
            if spec_lane_htrbad(a[i as int], i as int) { ((colr + COLR_TO_COUD[i as int]) % 3) as u8 } else { colr }),
        forall|k: int| 0 <= k < 8 && k != i ==> #[trigger] r[k] == a[k],
{
    let coud = (colr + COLR_TO_COUD[i]) % 3;
    let coud = if lane_htrbad(a, i) { coud } else { colr };
    lane_set_coud(a, i, coud)
}

/// Given a CO vector, keep 0s and swap 1s with 2s (and vice versa).
pub fn invert_nonzero(co: [u8; 8]) -> (r: [u8; 8])
    ensures
        forall|i: int| 0 <= i < 8 ==> #[trigger] r[i] == if co[i] == 0 { 0u8 } else { 3u8.wrapping_sub(co[i]) },
        forall|i: int| 0 <= i < 8 && co[i] < 3 ==> #[trigger] r[i] == (3 - co[i]) % 3,
{
    let mut r = [0u8; 8];
    let mut i: usize = 0;
    while i < 8
        invariant
            i <= 8,
            forall|k: int| 0 <= k < i ==> #[trigger] r[k] == if co[k] == 0 { 0u8 } else { 3u8.wrapping_sub(co[k]) },
            forall|k: int| 0 <= k < i && co[k] < 3 ==> #[trigger] r[k] == (3 - co[k]) % 3,
        decreases 8 - i,
    {
        r[i] = if co[i] == 0 { 0 } else { 3u8.wrapping_sub(co[i]) };
        i += 1;
    }
    r
}


// ---- permutation ranking ----------------------------------------------------

/// Whether value `v` is still unused after the first `i` lanes of `a` have each
/// toggled the value `a[k] % 16` (values start out unused).
pub open spec fn spec_unused(a: Seq<u8>, i: int, v: int) -> bool
    decreases i,
{
    if i <= 0 {
        true
    } else {
        spec_unused(a, i - 1, v) != ((a[i - 1] % 16) as int == v)
    }
}

/// The number of values below `s` that are unused after `i` lanes.
pub open spec fn spec_unused_below(a: Seq<u8>, i: int, s: int) -> int
    decreases s,
{
    if s <= 0 {
        0
    } else {
        spec_unused_below(a, i, s - 1) + if spec_unused(a, i, s - 1) { 1int } else { 0int }
    }
}

/// The inversion count that `lehmer` computes for lane `i`.
pub open spec fn spec_lehmer_lane(a: Seq<u8>, i: int) -> int {
    spec_unused_below(a, i, (a[i] % 16) as int)
}

/// The pieces of `a` form a permutation of 0..8.
pub open spec fn is_perm8(a: Seq<u8>) -> bool {
    &&& a.len() == 8
    &&& forall|i: int| 0 <= i < 8 ==> #[trigger] a[i] < 8
    &&& forall|i: int, j: int| 0 <= i < 8 && 0 <= j < 8 && i != j ==> #[trigger] a[i] != #[trigger] a[j]
}

/// Given a vector A, return a new vector B where B[i] encodes the number of
/// inversions in A that have left endpoint at i, i.e. the count of A[i] > A[j] for i < j.
pub fn lehmer(a: [u8; 8]) -> (r: [u8; 8])
    ensures
        forall|i: int| 0 <= i < 8 ==> #[trigger] r[i] == spec_lehmer_lane(a@, i),
{
    let mut unused = [true; 16];
    let mut r = [0u8; 8];
    let mut i: usize = 0;
    while i < 8
        invariant
            i <= 8,
            forall|v: int| 0 <= v < 16 ==> #[trigger] unused[v] == spec_unused(a@, i as int, v),
            forall|k: int| 0 <= k < i ==> #[trigger] r[k] == spec_lehmer_lane(a@, k),
        decreases 8 - i,
    {
        let s = (a[i] % 16) as usize;
        let mut count: u8 = 0;
        let mut v: usize = 0;
        while v < s
            invariant
                v <= s < 16,
                i < 8,
                count as int == spec_unused_below(a@, i as int, v as int),
                count <= v,
                forall|w: int| 0 <= w < 16 ==> #[trigger] unused[w] == spec_unused(a@, i as int, w),
            decreases s - v,
        {
            if unused[v] {
                count = count + 1;
            }
            v += 1;
        }
        r[i] = count;
        unused[s] = !unused[s];
        i += 1;
    }
    r
}

/// The list of values that `unlehmer` has left after `i` lanes, packed as sixteen
/// nibbles: it starts as 0..=8 followed by zeros, and each lane removes the entry it
/// names, shifting the later entries down.
pub open spec fn spec_unlehmer_list(a: Seq<u8>, i: int) -> Seq<int>
    decreases i,
{
    if i <= 0 {
        seq![0int, 1, 2, 3, 4, 5, 6, 7, 8, 0, 0, 0, 0, 0, 0, 0]
    } else {
        spec_unlehmer_list(a, i - 1).remove(a[i - 1] as int).push(0int)
    }
}

/// The value `unlehmer` produces for lane `i`.
pub open spec fn spec_unlehmer_lane(a: Seq<u8>, i: int) -> int {
    spec_unlehmer_list(a, i)[a[i] as int]
}

/// A Lehmer code of a permutation of 0..8.
pub open spec fn is_lehmer_code(l: Seq<u8>) -> bool {
    &&& l.len() == 8
    &&& forall|i: int| 0 <= i < 8 ==> #[trigger] l[i] <= 7 - i
}

/// The nibble at position `j` of `x`.
pub open spec fn nibble(x: u64, j: u64) -> u64 {
    (x >> (4 * j)) & 15
}

proof fn lemma_nibble_remove(u: u64, k: u64, j: u64)
    by (bit_vector)
    requires
        k < 15,
        j < 16,
    ensures
        (1u64 << (4 * k)) >= 1,
        (u >> (4 * k)) & 15 < 16,
        ({
            let above = u >> (4 * (k + 1));
            let below = u & (((1u64 << (4 * k)) - 1) as u64);
            let res = (above << (4 * k)) | below;
            (res >> (4 * j)) & 15 == if j < k {
                (u >> (4 * j)) & 15
            } else if j < 15 {
                (u >> (4 * (j + 1))) & 15
            } else {
                0
            }
        }),
{
}

proof fn lemma_nibble_init(j: u64)
    by (bit_vector)
    requires
        j < 16,
    ensures
        (0x876543210u64 >> (4 * j)) & 15 == if j < 9 { j } else { 0 },
{
}

/// Inverse operation of `lehmer`: lane `i` takes the entry named by `a[i]` from the
/// list of values not yet taken. Where the inversion counts do not form a Lehmer
/// code, the result is what the packed list gives, which is not a permutation.
pub fn unlehmer(a: [u8; 8]) -> (r: [u8; 8])
    requires
        forall|i: int| 0 <= i < 8 ==> #[trigger] a[i] < 15,
    ensures
        forall|i: int| 0 <= i < 8 ==> #[trigger] r[i] == spec_unlehmer_lane(a@, i),
{
    let mut unused: u64 = 0x876543210;
    let mut r = [0u8; 8];
    proof {
        assert forall|j: int| 0 <= j < 16 implies #[trigger] spec_unlehmer_list(a@, 0)[j] == nibble(unused, j as u64) by {
            lemma_nibble_init(j as u64);
        }
    }
    let mut i: usize = 0;
    while i < 8
        invariant
            i <= 8,
            forall|k: int| 0 <= k < 8 ==> #[trigger] a[k] < 15,
            spec_unlehmer_list(a@, i as int).len() == 16,
            forall|j: int| 0 <= j < 16 ==> #[trigger] spec_unlehmer_list(a@, i as int)[j] == nibble(unused, j as u64),
            forall|k: int| 0 <= k < i ==> #[trigger] r[k] == spec_unlehmer_lane(a@, k),
        decreases 8 - i,
    {
        let invs = a[i] as u64;
        proof {
            lemma_nibble_remove(unused, invs, 0);
        }
        let above = unused >> (4 * (invs + 1));
        let below = unused & ((1u64 << (4 * invs)) - 1);
        let lane = (unused >> (4 * invs)) & 0xf;
        assert(lane == nibble(unused, invs));
        assert(lane == spec_unlehmer_list(a@, i as int)[invs as int]);
        r[i] = lane as u8;
        let ghost old_unused = unused;
        unused = (above << (4 * invs)) | below;
        proof {
            let l = spec_unlehmer_list(a@, i as int);
            let l2 = spec_unlehmer_list(a@, i as int + 1);
            assert(l2 == l.remove(invs as int).push(0int));
            assert forall|j: int| 0 <= j < 16 implies #[trigger] l2[j] == nibble(unused, j as u64) by {
                lemma_nibble_remove(old_unused, invs, j as u64);
                if j < 15 {
                    assert(l[j + 1] == nibble(old_unused, (j + 1) as u64));
                }
            }
        }
        i += 1;
    }
    r
}


/// The entries of `l` before `n` that are below `s`.
pub open spec fn count_lt(l: Seq<int>, n: int, s: int) -> int
    decreases n,
{
    if n <= 0 {
        0
    } else {
        count_lt(l, n - 1, s) + if l[n - 1] < s { 1int } else { 0int }
    }
}

/// The entries of `l` before `n` increase strictly.
pub open spec fn increasing_prefix(l: Seq<int>, n: int) -> bool {
    forall|j: int, k: int| 0 <= j < k < n ==> #[trigger] l[j] < #[trigger] l[k]
}

/// Whether `v` is an entry of `l` before `n`.
pub open spec fn in_prefix(l: Seq<int>, n: int, v: int) -> bool {
    exists|j: int| 0 <= j < n && l[j] == v
}

/// The list that `unlehmer` keeps stays sorted and ends with the sentinel 8.
proof fn lemma_unlehmer_list(l: Seq<u8>, i: int)
    requires
        is_lehmer_code(l),
        0 <= i <= 8,
    ensures
        spec_unlehmer_list(l, i).len() == 16,
        increasing_prefix(spec_unlehmer_list(l, i), 9 - i),
        spec_unlehmer_list(l, i)[8 - i] == 8,
        forall|j: int| 0 <= j < 9 - i ==> 0 <= #[trigger] spec_unlehmer_list(l, i)[j] <= 8,
    decreases i,
{
    if i > 0 {
        lemma_unlehmer_list(l, i - 1);
        let prev = spec_unlehmer_list(l, i - 1);
        let cur = spec_unlehmer_list(l, i);
        let k = l[i - 1] as int;
        assert(k <= 7 - (i - 1));
        assert(cur == prev.remove(k).push(0int));
        assert forall|j: int| 0 <= j < 9 - i implies #[trigger] cur[j] == if j < k { prev[j] } else { prev[j + 1] } by {}
        assert forall|a: int, b: int| 0 <= a < b < 9 - i implies #[trigger] cur[a] < #[trigger] cur[b] by {
            let ia = if a < k { a } else { a + 1 };
            let ib = if b < k { b } else { b + 1 };
            assert(cur[a] == prev[ia]);
            assert(cur[b] == prev[ib]);
            assert(prev[ia] < prev[ib]);
        }
        assert forall|j: int| 0 <= j < 9 - i implies 0 <= #[trigger] cur[j] <= 8 by {
            let ij = if j < k { j } else { j + 1 };
            assert(cur[j] == prev[ij]);
        }
    }
}

/// The values left in the list of `unlehmer` are exactly those not yet taken.
proof fn lemma_unlehmer_taken(l: Seq<u8>, p: Seq<u8>, i: int, v: int)
    requires
        is_lehmer_code(l),
        p.len() == 8,
        forall|k: int| 0 <= k < 8 ==> #[trigger] p[k] as int == spec_unlehmer_lane(l, k),
        0 <= i <= 8,
        0 <= v <= 8,
    ensures
        in_prefix(spec_unlehmer_list(l, i), 9 - i, v) <==> (forall|k: int| 0 <= k < i ==> p[k] as int != v),
    decreases i,
{
    if i > 0 {
        lemma_unlehmer_taken(l, p, i - 1, v);
        lemma_unlehmer_list(l, i - 1);
        let prev = spec_unlehmer_list(l, i - 1);
        let cur = spec_unlehmer_list(l, i);
        let k = l[i - 1] as int;
        assert(cur == prev.remove(k).push(0int));
        assert(p[i - 1] as int == prev[k]);
        if in_prefix(cur, 9 - i, v) {
            let j = choose|j: int| 0 <= j < 9 - i && cur[j] == v;
            let ij = if j < k { j } else { j + 1 };
            assert(cur[j] == prev[ij]);
            assert(in_prefix(prev, 10 - i, v));
            assert(ij != k);
            assert(prev[ij] != prev[k]);
        } else {
            if (forall|m: int| 0 <= m < i ==> p[m] as int != v) {
                assert(in_prefix(prev, 10 - i, v));
                let j = choose|j: int| 0 <= j < 10 - i && prev[j] == v;
                assert(j != k);
                let jj = if j < k { j } else { j - 1 };
                assert(cur[jj] == prev[j]);
                assert(in_prefix(cur, 9 - i, v));
            }
        }
    }
}

/// Counting the values below `s` that an increasing list holds.
proof fn lemma_count_lt_step(l: Seq<int>, n: int, s: int)
    requires
        0 <= n <= l.len(),
        increasing_prefix(l, n),
    ensures
        count_lt(l, n, s + 1) == count_lt(l, n, s) + if in_prefix(l, n, s) { 1int } else { 0int },
    decreases n,
{
    if n > 0 {
        lemma_count_lt_step(l, n - 1, s);
        if in_prefix(l, n - 1, s) {
            let j = choose|j: int| 0 <= j < n - 1 && l[j] == s;
            assert(in_prefix(l, n, s));
            assert(l[j] < l[n - 1]);
        } else if l[n - 1] == s {
            assert(in_prefix(l, n, s));
        } else {
            if in_prefix(l, n, s) {
                let j = choose|j: int| 0 <= j < n && l[j] == s;
                assert(in_prefix(l, n - 1, s));
            }
        }
    }
}

/// An increasing list holds exactly `k` entries below its `k`-th entry.
proof fn lemma_count_lt_rank(l: Seq<int>, m: int, n: int, k: int)
    requires
        0 <= m <= n <= l.len(),
        0 <= k < n,
        increasing_prefix(l, n),
    ensures
        count_lt(l, m, l[k]) == if m < k { m } else { k },
    decreases m,
{
    if m > 0 {
        lemma_count_lt_rank(l, m - 1, n, k);
        if m - 1 < k {
            assert(l[m - 1] < l[k]);
        } else if m - 1 > k {
            assert(l[k] < l[m - 1]);
        }
    }
}

/// A value is unused by `lehmer` after `i` lanes exactly when none of those lanes holds it,
/// provided the lanes hold distinct values below 8.
proof fn lemma_unused_distinct(p: Seq<u8>, i: int, v: int)
    requires
        0 <= i <= 8,
        0 <= v < 16,
        p.len() == 8,
        forall|k: int| 0 <= k < 8 ==> #[trigger] p[k] < 8,
        forall|a: int, b: int| 0 <= a < b < i ==> #[trigger] p[a] != #[trigger] p[b],
    ensures
        spec_unused(p, i, v) <==> (forall|k: int| 0 <= k < i ==> p[k] as int != v),
    decreases i,
{
    if i > 0 {
        lemma_unused_distinct(p, i - 1, v);
        if p[i - 1] as int == v {
            assert forall|k: int| 0 <= k < i - 1 implies p[k] as int != v by {
                assert(p[k] != p[i - 1]);
            }
        }
    }
}

/// The values that `unused` tracks, counted, are the entries of the list of `unlehmer`.
proof fn lemma_unused_below_count(l: Seq<u8>, p: Seq<u8>, i: int, s: int)
    requires
        is_lehmer_code(l),
        p.len() == 8,
        forall|k: int| 0 <= k < 8 ==> #[trigger] p[k] as int == spec_unlehmer_lane(l, k),
        forall|k: int| 0 <= k < 8 ==> #[trigger] p[k] < 8,
        forall|a: int, b: int| 0 <= a < b < 8 ==> #[trigger] p[a] != #[trigger] p[b],
        0 <= i < 8,
        0 <= s <= 9,
    ensures
        spec_unused_below(p, i, s) == count_lt(spec_unlehmer_list(l, i), 9 - i, s),
    decreases s,
{
    lemma_unlehmer_list(l, i);
    let li = spec_unlehmer_list(l, i);
    if s == 0 {
        assert forall|m: int| 0 <= m <= 9 - i implies #[trigger] count_lt(li, m, 0) == 0 by {
            lemma_count_lt_zero(li, m);
        }
    } else {
        lemma_unused_below_count(l, p, i, s - 1);
        lemma_count_lt_step(li, 9 - i, s - 1);
        lemma_unused_distinct(p, i, s - 1);
        lemma_unlehmer_taken(l, p, i, s - 1);
    }
}

proof fn lemma_count_lt_zero(l: Seq<int>, m: int)
    requires
        0 <= m <= l.len(),
        forall|j: int| 0 <= j < m ==> 0 <= #[trigger] l[j],
    ensures
        count_lt(l, m, 0) == 0,
    decreases m,
{
    if m > 0 {
        lemma_count_lt_zero(l, m - 1);
    }
}

/// Decoding a Lehmer code gives a permutation whose Lehmer code it is.
pub proof fn lemma_unlehmer_lehmer(l: Seq<u8>, p: Seq<u8>)
    requires
        is_lehmer_code(l),
        p.len() == 8,
        forall|k: int| 0 <= k < 8 ==> #[trigger] p[k] as int == spec_unlehmer_lane(l, k),
    ensures
        is_perm8(p),
        forall|i: int| 0 <= i < 8 ==> #[trigger] spec_lehmer_lane(p, i) == l[i],
{
    assert forall|k: int| 0 <= k < 8 implies #[trigger] p[k] < 8 by {
        lemma_unlehmer_list(l, k);
        let lk = spec_unlehmer_list(l, k);
        assert(lk[l[k] as int] < lk[8 - k]);
    }
    assert forall|a: int, b: int| 0 <= a < b < 8 implies #[trigger] p[a] != #[trigger] p[b] by {
        lemma_unlehmer_list(l, b);
        lemma_unlehmer_taken(l, p, b, p[b] as int);
        assert(in_prefix(spec_unlehmer_list(l, b), 9 - b, p[b] as int));
    }
    assert forall|i: int| 0 <= i < 8 implies #[trigger] spec_lehmer_lane(p, i) == l[i] by {
        lemma_unlehmer_list(l, i);
        lemma_unused_below_count(l, p, i, p[i] as int);
        lemma_count_lt_rank(spec_unlehmer_list(l, i), 9 - i, 9 - i, l[i] as int);
    }
}


/// The factorials that weigh the inversion counts of each lane in a rank.
pub open spec fn spec_fact(i: int) -> int {
    if i == 0 { 5040 } else if i == 1 { 720 } else if i == 2 { 120 } else if i == 3 { 24 }
    else if i == 4 { 6 } else if i == 5 { 2 } else { 1 }
}

/// The sum of the first `n` factorial weights.
pub open spec fn spec_fact_prefix(n: int) -> int {
    if n <= 0 { 0 } else if n == 1 { 5040 } else if n == 2 { 5760 } else if n == 3 { 5880 }
    else if n == 4 { 5904 } else if n == 5 { 5910 } else if n == 6 { 5912 } else if n == 7 { 5913 } else { 5914 }
}

/// The weighted sum of the first `n` entries of `l`.
pub open spec fn spec_rank_sum(l: Seq<int>, n: int) -> int
    decreases n,
{
    if n <= 0 { 0 } else { spec_rank_sum(l, n - 1) + spec_fact(n - 1) * l[n - 1] }
}

/// The inversion counts that `lehmer` computes, as a sequence.
pub open spec fn spec_lehmer_seq(a: Seq<u8>) -> Seq<int> {
    Seq::new(8, |i: int| spec_lehmer_lane(a, i))
}

/// The rank that `prank` computes.
pub open spec fn spec_prank(a: Seq<u8>) -> int {
    spec_rank_sum(spec_lehmer_seq(a), 8)
}

/// The inversion count that `unprank` computes for lane `i`, truncated to `u8`.
pub open spec fn spec_unprank_lane(rank: int, i: int) -> u8 {
    if i == 0 {
        (rank / 5040) as u8
    } else {
        ((rank % spec_fact(i - 1)) / spec_fact(i)) as u8
    }
}

/// The inversion counts that `unprank` decodes.
pub open spec fn spec_unprank_code(rank: int) -> Seq<u8> {
    Seq::new(8, |i: int| spec_unprank_lane(rank, i))
}

/// The ranks of the two ends of the order: the solved permutation has rank 0 and the
/// reversed one the last rank, and rank 0 unranks to the solved permutation.
pub proof fn lemma_prank_ends()
    ensures
        spec_prank(seq![0u8, 1, 2, 3, 4, 5, 6, 7]) == 0,
        spec_prank(seq![7u8, 6, 5, 4, 3, 2, 1, 0]) == 40319,
        forall|i: int| 0 <= i < 8 ==> #[trigger] spec_unlehmer_lane(spec_unprank_code(0), i) == i,
{
    reveal_with_fuel(spec_unused, 9);
    reveal_with_fuel(spec_unused_below, 9);
    reveal_with_fuel(spec_rank_sum, 9);
    let a = seq![0u8, 1, 2, 3, 4, 5, 6, 7];
    let b = seq![7u8, 6, 5, 4, 3, 2, 1, 0];
    assert(spec_lehmer_seq(a) =~= seq![0int, 0, 0, 0, 0, 0, 0, 0]);
    assert(spec_lehmer_seq(b) =~= seq![7int, 6, 5, 4, 3, 2, 1, 0]);
    let la = seq![0int, 0, 0, 0, 0, 0, 0, 0];
    let lb = seq![7int, 6, 5, 4, 3, 2, 1, 0];
    assert(spec_rank_sum(la, 8) == 0);
    assert(spec_rank_sum(lb, 1) == 35280);
    assert(spec_rank_sum(lb, 2) == 39600);
    assert(spec_rank_sum(lb, 3) == 40200);
    assert(spec_rank_sum(lb, 4) == 40296);
    assert(spec_rank_sum(lb, 5) == 40314);
    assert(spec_rank_sum(lb, 6) == 40318);
    assert(spec_rank_sum(lb, 7) == 40319);
    assert(spec_rank_sum(lb, 8) == 40319);
    assert(spec_prank(a) == spec_rank_sum(la, 8));
    assert(spec_prank(b) == spec_rank_sum(lb, 8));
    let z = spec_unprank_code(0);
    assert(z =~= seq![0u8, 0, 0, 0, 0, 0, 0, 0]);
    reveal_with_fuel(spec_unlehmer_list, 9);
    assert forall|i: int| 0 <= i < 8 implies #[trigger] spec_unlehmer_lane(spec_unprank_code(0), i) == i by {
        if i == 0 {
            assert(spec_unlehmer_list(z, 0)[0] == 0);
        } else if i == 1 {
            assert(spec_unlehmer_list(z, 1) =~= seq![1int, 2, 3, 4, 5, 6, 7, 8, 0, 0, 0, 0, 0, 0, 0, 0]);
        } else if i == 2 {
            assert(spec_unlehmer_list(z, 2) =~= seq![2int, 3, 4, 5, 6, 7, 8, 0, 0, 0, 0, 0, 0, 0, 0, 0]);
        } else if i == 3 {
            assert(spec_unlehmer_list(z, 3) =~= seq![3int, 4, 5, 6, 7, 8, 0, 0, 0, 0, 0, 0, 0, 0, 0, 0]);
        } else if i == 4 {
            assert(spec_unlehmer_list(z, 4) =~= seq![4int, 5, 6, 7, 8, 0, 0, 0, 0, 0, 0, 0, 0, 0, 0, 0]);
        } else if i == 5 {
            assert(spec_unlehmer_list(z, 5) =~= seq![5int, 6, 7, 8, 0, 0, 0, 0, 0, 0, 0, 0, 0, 0, 0, 0]);
        } else if i == 6 {
            assert(spec_unlehmer_list(z, 6) =~= seq![6int, 7, 8, 0, 0, 0, 0, 0, 0, 0, 0, 0, 0, 0, 0, 0]);
        } else {
            assert(spec_unlehmer_list(z, 7) =~= seq![7int, 8, 0, 0, 0, 0, 0, 0, 0, 0, 0, 0, 0, 0, 0, 0]);
        }
    }
}

pub const FACT: [usize; 8] = [5040, 720, 120, 24, 6, 2, 1, 1];

/// Rank of a permutation: its Lehmer code read in the factorial number system.
pub fn prank(a: [u8; 8]) -> (r: usize)
    ensures
        r == spec_prank(a@),
{
    let l = lehmer(a);
    let mut sum: usize = 0;
    let mut i: usize = 0;
    while i < 8
        invariant
            i <= 8,
            forall|k: int| 0 <= k < 8 ==> #[trigger] l[k] == spec_lehmer_lane(a@, k),
            sum == spec_rank_sum(spec_lehmer_seq(a@), i as int),
            sum <= 255 * spec_fact_prefix(i as int),
        decreases 8 - i,
    {
        assert(FACT[i as int] == spec_fact(i as int));
        assert(spec_lehmer_seq(a@)[i as int] == l[i as int]);
        sum = sum + FACT[i] * (l[i] as usize);
        i += 1;
    }
    sum
}

/// Inverse of `prank`. The count for the first lane is truncated to `u8` and must stay
/// below 15.
pub fn unprank(rank: usize) -> (r: [u8; 8])
    requires
        ((rank / 5040) as u8) < 15,
    ensures
        forall|i: int| 0 <= i < 8 ==> #[trigger] r[i] == spec_unlehmer_lane(spec_unprank_code(rank as int), i),
        rank < 40320 ==> is_perm8(r@) && spec_prank(r@) == rank,
{
    let mut rank = rank;
    let ghost rank0 = rank as int;
    let mut l = [0u8; 8];
    let mut i: usize = 0;
    while i < 8
        invariant
            i <= 8,
            i == 0 ==> rank == rank0,
            i > 0 ==> rank as int == rank0 % spec_fact(i - 1),
            forall|k: int| 0 <= k < i ==> #[trigger] l[k] == spec_unprank_lane(rank0, k),
        decreases 8 - i,
    {
        assert(FACT[i as int] == spec_fact(i as int));
        l[i] = (rank / FACT[i]) as u8;
        proof {
            if i > 0 {
                assert(rank as int == rank0 % spec_fact(i - 1));
            }
        }
        let ghost before = rank;
        rank = rank % FACT[i];
        proof {
            if i > 0 {
                assert(spec_fact(i - 1) % spec_fact(i as int) == 0);
                vstd::arithmetic::div_mod::lemma_mod_mod(rank0, spec_fact(i as int), spec_fact(i - 1) / spec_fact(i as int));
            }
        }
        i += 1;
    }
    assert(l@ =~= spec_unprank_code(rank0));
    proof {
        assert forall|k: int| 0 <= k < 8 implies #[trigger] l[k] < 15 by {
            if k > 0 {
                lemma_unprank_lane_bound(rank0, k);
            }
        }
    }
    let r = unlehmer(l);
    proof {
        if rank0 < 40320 {
            lemma_unprank_code(rank0);
            lemma_unlehmer_lehmer(l@, r@);
            assert(spec_lehmer_seq(r@) =~= spec_unprank_code(rank0).map_values(|x: u8| x as int));
            lemma_rank_sum_code(rank0);
        }
    }
    r
}

proof fn lemma_unprank_lane_bound(rank: int, k: int)
    requires
        rank >= 0,
        1 <= k < 8,
    ensures
        spec_unprank_lane(rank, k) <= 7,
{
    let m = rank % spec_fact(k - 1);
    assert(0 <= m < spec_fact(k - 1));
    assert(m / spec_fact(k) <= 7);
}

/// The code `unprank` decodes from a rank below 8! is a Lehmer code.
proof fn lemma_unprank_code(rank: int)
    requires
        0 <= rank < 40320,
    ensures
        is_lehmer_code(spec_unprank_code(rank)),
{
    let c = spec_unprank_code(rank);
    assert forall|i: int| 0 <= i < 8 implies #[trigger] c[i] <= 7 - i by {
        if i > 0 {
            let m = rank % spec_fact(i - 1);
            assert(0 <= m < spec_fact(i - 1));
            assert(m / spec_fact(i) <= 7 - i);
        } else {
            assert(rank / 5040 <= 7);
        }
    }
}

/// Reading the decoded code in the factorial number system gives the rank back.
proof fn lemma_rank_sum_code(rank: int)
    requires
        0 <= rank < 40320,
    ensures
        spec_rank_sum(spec_unprank_code(rank).map_values(|x: u8| x as int), 8) == rank,
{
    let c = spec_unprank_code(rank).map_values(|x: u8| x as int);
    reveal_with_fuel(spec_rank_sum, 9);
    let r1 = rank % 5040;
    let r2 = rank % 720;
    let r3 = rank % 120;
    let r4 = rank % 24;
    let r5 = rank % 6;
    let r6 = rank % 2;
    assert(c[0] == rank / 5040);
    assert(c[1] == r1 / 720);
    assert(c[2] == r2 / 120);
    assert(c[3] == r3 / 24);
    assert(c[4] == r4 / 6);
    assert(c[5] == r5 / 2);
    assert(c[6] == r6 / 1);
    assert(c[7] == (rank % 1) / 1);
    vstd::arithmetic::div_mod::lemma_mod_mod(rank, 720, 7);
    vstd::arithmetic::div_mod::lemma_mod_mod(rank, 120, 6);
    vstd::arithmetic::div_mod::lemma_mod_mod(rank, 24, 5);
    vstd::arithmetic::div_mod::lemma_mod_mod(rank, 6, 4);
    vstd::arithmetic::div_mod::lemma_mod_mod(rank, 2, 3);
    assert(rank == 5040 * (rank / 5040) + r1);
    assert(r1 == 720 * (r1 / 720) + r2);
    assert(r2 == 120 * (r2 / 120) + r3);
    assert(r3 == 24 * (r3 / 24) + r4);
    assert(r4 == 6 * (r4 / 6) + r5);
    assert(r5 == 2 * (r5 / 2) + r6);
    assert(spec_rank_sum(c, 1) == 5040 * c[0]);
    assert(spec_rank_sum(c, 2) == 5040 * c[0] + 720 * c[1]);
    assert(spec_rank_sum(c, 3) == 5040 * c[0] + 720 * c[1] + 120 * c[2]);
    assert(spec_rank_sum(c, 4) == 5040 * c[0] + 720 * c[1] + 120 * c[2] + 24 * c[3]);
    assert(spec_rank_sum(c, 5) == 5040 * c[0] + 720 * c[1] + 120 * c[2] + 24 * c[3] + 6 * c[4]);
    assert(spec_rank_sum(c, 6) == 5040 * c[0] + 720 * c[1] + 120 * c[2] + 24 * c[3] + 6 * c[4]
        + 2 * c[5]);
    assert(spec_rank_sum(c, 7) == 5040 * c[0] + 720 * c[1] + 120 * c[2] + 24 * c[3] + 6 * c[4]
        + 2 * c[5] + c[6]);
    assert(spec_rank_sum(c, 8) == spec_rank_sum(c, 7) + spec_fact(7) * c[7]);
    assert(spec_fact(7) == 1);
    assert(spec_rank_sum(c, 8) == 5040 * c[0] + 720 * c[1] + 120 * c[2] + 24 * c[3] + 6 * c[4]
        + 2 * c[5] + c[6] + c[7]);
}


// ---- orientation coordinate -------------------------------------------------

pub const COUD_MULT: [usize; 8] = [1, 3, 9, 27, 81, 243, 729, 0];
pub const COUD_DIV: [usize; 8] = [1, 3, 9, 27, 81, 243, 729, 2187];

/// The power of three that weighs lane `i` of the orientation coordinate.
pub open spec fn spec_pow3(i: int) -> int {
    if i == 0 { 1 } else if i == 1 { 3 } else if i == 2 { 9 } else if i == 3 { 27 }
    else if i == 4 { 81 } else if i == 5 { 243 } else if i == 6 { 729 } else { 2187 }
}

/// The orientation coordinate: the UD orientations of the first seven slots read in base 3.
pub open spec fn spec_index_coud(a: [u8; 8]) -> int {
    spec_lane_coud(a[0]) + 3 * spec_lane_coud(a[1]) + 9 * spec_lane_coud(a[2])
        + 27 * spec_lane_coud(a[3]) + 81 * spec_lane_coud(a[4]) + 243 * spec_lane_coud(a[5])
        + 729 * spec_lane_coud(a[6])
}

/// Base-3 digit `i` of `coord`.
pub open spec fn spec_coud_digit(coord: int, i: int) -> int {
    (coord / spec_pow3(i)) % 3
}

/// The orientation of the last slot that makes the orientations of `coord` sum to 0 mod 3.
pub open spec fn spec_coud_last(coord: int) -> int {
    (3 - spec_digit_sum(coord, 8) % 3) % 3
}

/// The UD orientation of lane `i` of `unindex_coud(coord)`.
pub open spec fn spec_unindex_coud_lane(coord: int, i: int) -> int {
    if i < 7 { spec_coud_digit(coord, i) } else { spec_coud_last(coord) }
}

pub fn index_coud(a: [u8; 8]) -> (r: usize)
    ensures
        r == spec_index_coud(a),
{
    let c = coud(a);
    proof {
        assert forall|k: int| 0 <= k < 8 implies #[trigger] c[k] < 4 by {
            lemma_lane_bits(a[k]);
        }
    }
    (c[0] as usize) * COUD_MULT[0] + (c[1] as usize) * COUD_MULT[1] + (c[2] as usize) * COUD_MULT[2]
        + (c[3] as usize) * COUD_MULT[3] + (c[4] as usize) * COUD_MULT[4] + (c[5] as usize) * COUD_MULT[5]
        + (c[6] as usize) * COUD_MULT[6] + (c[7] as usize) * COUD_MULT[7]
}

/// The corners in their slots, with the UD orientations whose coordinate is `coord`
/// on the first seven slots and the orientation of the last slot that makes the total
/// twist a multiple of 3.
#[verifier::rlimit(50)]
pub fn unindex_coud(coord: usize) -> (r: [u8; 8])
    requires
        coord < 2187,
    ensures
        forall|i: int| 0 <= i < 8 ==> #[trigger] r[i] == 8 * spec_unindex_coud_lane(coord as int, i) + i,
        corners_wf(r),
        spec_index_coud(r) == coord,
{
    let mut co = [0u8; 8];
    let mut sum: usize = 0;
    let mut i: usize = 0;
    while i < 8
        invariant
            i <= 8,
            coord < 2187,
            forall|k: int| 0 <= k < i ==> #[trigger] co[k] == spec_coud_digit(coord as int, k),
            sum == spec_digit_sum(coord as int, i as int),
            sum <= 2 * i,
        decreases 8 - i,
    {
        assert(COUD_DIV[i as int] == spec_pow3(i as int));
        co[i] = ((coord / COUD_DIV[i]) % 3) as u8;
        sum = sum + (co[i] as usize);
        i += 1;
    }
    co[7] = match sum % 3 {
        0 => 0,
        1 => 2,
        _ => 1,
    };
    assert(co[7] as int == spec_coud_last(coord as int));
    assert forall|k: int| 0 <= k < 8 implies #[trigger] co[k] as int == spec_unindex_coud_lane(coord as int, k) by {}
    assert forall|k: int| 0 <= k < 8 implies #[trigger] co[k] < 3 by {}
    let r = set_coud(CORNERS_IDENT, co);
    proof {
        assert forall|k: int| 0 <= k < 8 implies #[trigger] r[k] == 8 * spec_unindex_coud_lane(coord as int, k) + k by {
            lemma_build_bits(co[k], CORNERS_IDENT[k]);
            assert(r[k] == spec_lane_set_coud(CORNERS_IDENT[k], co[k]));
            assert(CORNERS_IDENT[k] % 8 == k);
        }
        assert forall|k: int| 0 <= k < 8 implies lane_ok(#[trigger] r[k]) by {}
        assert forall|k: int| 0 <= k < 8 implies #[trigger] spec_lane_coud(r[k]) == co[k] by {
            lemma_lane_bits(r[k]);
            assert(r[k] == 8 * co[k] + k);
            assert(r[k] / 8 == co[k]);
        }
        lemma_coud_digits(coord as int);
    }
    r
}

/// The sum of the first `n` base-3 digits of `coord`.
pub open spec fn spec_digit_sum(coord: int, n: int) -> int
    decreases n,
{
    if n <= 0 { 0 } else { spec_digit_sum(coord, n - 1) + spec_coud_digit(coord, n - 1) }
}

/// A number below 3^7 is the sum of its base-3 digits, weighed.
proof fn lemma_coud_digits(coord: int)
    requires
        0 <= coord < 2187,
    ensures
        coord == spec_coud_digit(coord, 0) + 3 * spec_coud_digit(coord, 1) + 9 * spec_coud_digit(coord, 2)
            + 27 * spec_coud_digit(coord, 3) + 81 * spec_coud_digit(coord, 4) + 243 * spec_coud_digit(coord, 5)
            + 729 * spec_coud_digit(coord, 6),
{
    let q1 = coord / 3;
    let q2 = coord / 9;
    let q3 = coord / 27;
    let q4 = coord / 81;
    let q5 = coord / 243;
    let q6 = coord / 729;
    vstd::arithmetic::div_mod::lemma_div_denominator(coord, 3, 3);
    vstd::arithmetic::div_mod::lemma_div_denominator(coord, 9, 3);
    vstd::arithmetic::div_mod::lemma_div_denominator(coord, 27, 3);
    vstd::arithmetic::div_mod::lemma_div_denominator(coord, 81, 3);
    vstd::arithmetic::div_mod::lemma_div_denominator(coord, 243, 3);
    assert(q2 == q1 / 3);
    assert(q3 == q2 / 3);
    assert(q4 == q3 / 3);
    assert(q5 == q4 / 3);
    assert(q6 == q5 / 3);
    assert(coord == 3 * q1 + coord % 3);
    assert(q1 == 3 * q2 + q1 % 3);
    assert(q2 == 3 * q3 + q2 % 3);
    assert(q3 == 3 * q4 + q3 % 3);
    assert(q4 == 3 * q5 + q4 % 3);
    assert(q5 == 3 * q6 + q5 % 3);
    assert(q6 < 3);
}

} // verus!
