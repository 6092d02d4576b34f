//! Operations on the packed center representation: eight lanes, one per center slot
//! (the last two are padding), each holding the number of the center in the slot.
use vstd::prelude::*;

verus! {

pub const CENTERS_IDENT: [u8; 8] = [0, 1, 2, 3, 4, 5, 6, 7];

/// Lane `i` of `a` followed by `b`: the lane of `a` at the slot that `b` names, or zero
/// where `b` names no slot.
pub open spec fn spec_compose_lane(a: Seq<u8>, b: Seq<u8>, i: int) -> u8 {
    if b[i] < 8 { a[b[i] as int] } else { 0 }
}

/// The composition of `a` followed by `b`.
pub open spec fn spec_compose(a: Seq<u8>, b: Seq<u8>) -> Seq<u8> {
    Seq::new(8, |i: int| spec_compose_lane(a, b, i))
}

/// Compose two center vectors: `a` followed by `b`.
pub fn compose(a: [u8; 8], b: [u8; 8]) -> (r: [u8; 8])
    ensures
        r@ == spec_compose(a@, b@),
{
    let mut r = [0u8; 8];
    let mut i: usize = 0;
    while i < 8
        invariant
            i <= 8,
            forall|k: int| 0 <= k < i ==> #[trigger] r[k] == spec_compose_lane(a@, b@, k),
        decreases 8 - i,
    {
        r[i] = if b[i] < 8 { a[b[i] as usize] } else { 0 };
        i += 1;
    }
    assert(r@ =~= spec_compose(a@, b@));
    r
}

} // verus!
