use vstd::prelude::*;
use crate::cube::centers::center::Center;
use crate::cube::centers::ops::{CENTERS_IDENT, compose, spec_compose};
use crate::cube::corners::corners::{spec_from_magic, spec_magic, spec_pow256};
use crate::cube::slice::Slice;
use crate::cube::transform::rotation::Rotation;
use crate::cube::transform::slice_move::{SliceMove, spec_slice_of};

verus! {

/// The centers of the cube: for each of the six center slots (and two padding lanes), the
/// center that sits there.
#[derive(Clone, Copy, Debug, PartialEq, Eq, PartialOrd, Ord, Hash)]
pub struct Centers(pub [u8; 8]);

/// The solved centers.
pub open spec fn spec_ident() -> Seq<u8> {
    seq![0u8, 1, 2, 3, 4, 5, 6, 7]
}

/// Lanes that each name a slot.
pub open spec fn wf(a: Seq<u8>) -> bool {
    &&& a.len() == 8
    &&& forall|i: int| 0 <= i < 8 ==> #[trigger] a[i] < 8
}

/// The magic number of the centers after slice move `m` from solved.
pub open spec fn spec_slice_move_magic(m: SliceMove) -> u64 {
    match m {
        SliceMove::M => 0x0706030402000105,
        SliceMove::M2 => 0x0706020400050103,
        SliceMove::M3 => 0x0706000405030102,
        SliceMove::E => 0x0706010503040200,
        SliceMove::E2 => 0x0706020103050400,
        SliceMove::E3 => 0x0706040203010500,
        SliceMove::S => 0x0706050301020004,
        SliceMove::S2 => 0x0706050100020403,
        SliceMove::S3 => 0x0706050004020301,
    }
}

/// The slice move that turns the centers as rotation `r` does.
pub open spec fn spec_rotation_slice(r: Rotation) -> SliceMove {
    match r {
        Rotation::X => SliceMove::M3,
        Rotation::X2 => SliceMove::M2,
        Rotation::X3 => SliceMove::M,
        Rotation::Y => SliceMove::E3,
        Rotation::Y2 => SliceMove::E2,
        Rotation::Y3 => SliceMove::E,
        Rotation::Z => SliceMove::S,
        Rotation::Z2 => SliceMove::S2,
        Rotation::Z3 => SliceMove::S3,
    }
}

/// The piece that slot `s` holds after the first `k` steps of a cycle of centers.
pub open spec fn spec_cycle_slot(c: Seq<Center>, k: int, s: int) -> int
    decreases k,
{
    if k <= 0 {
        s
    } else if (c[k % c.len() as int] as u8) as int == s {
        (c[k - 1] as u8) as int
    } else {
        spec_cycle_slot(c, k - 1, s)
    }
}

/// The lanes of the cycle `c` applied to solved centers.
pub open spec fn spec_cycle_lanes(c: Seq<Center>) -> Seq<u8> {
    Seq::new(8, |s: int| spec_cycle_slot(c, c.len() as int, s) as u8)
}

// ---- laws -------------------------------------------------------------------------

/// The cycle of centers that a slice move turns: the slot of the first goes to the second,
/// and so on round.
pub open spec fn spec_slice_cycle(s: Slice) -> Seq<Center> {
    match s {
        Slice::M => seq![Center::U, Center::F, Center::D, Center::B],
        Slice::E => seq![Center::F, Center::R, Center::B, Center::L],
        Slice::S => seq![Center::U, Center::R, Center::D, Center::L],
    }
}

/// The centers `a` followed by `k`, `n` times over.
pub open spec fn spec_compose_times(a: Seq<u8>, k: Seq<u8>, n: int) -> Seq<u8>
    decreases n,
{
    if n <= 0 { a } else { spec_compose(spec_compose_times(a, k, n - 1), k) }
}

/// The lanes of the little-endian bytes of `m`, given `m` and its quotients by the powers
/// of 256.
proof fn lemma_magic_lanes(m: u64, v: Seq<u8>)
    requires
        v.len() == 8,
        m as int % 256 == v[0],
        (m as int / 0x100) % 256 == v[1],
        (m as int / 0x10000) % 256 == v[2],
        (m as int / 0x1000000) % 256 == v[3],
        (m as int / 0x100000000) % 256 == v[4],
        (m as int / 0x10000000000) % 256 == v[5],
        (m as int / 0x1000000000000) % 256 == v[6],
        (m as int / 0x100000000000000) % 256 == v[7],
    ensures
        spec_from_magic(m) == v,
{
    assert(spec_pow256(0) == 1);
    assert(spec_pow256(1) == 0x100);
    assert(spec_pow256(2) == 0x10000);
    assert(spec_pow256(3) == 0x1000000);
    assert(spec_pow256(4) == 0x100000000);
    assert(spec_pow256(5) == 0x10000000000);
    assert(spec_pow256(6) == 0x1000000000000);
    assert(spec_pow256(7) == 0x100000000000000);
    assert(spec_from_magic(m) =~= v);
}

/// The M slice's cycle of centers, and the slice moves of M.
#[verifier::spinoff_prover]
proof fn lemma_slice_cycle_m()
    ensures
        spec_cycle_lanes(spec_slice_cycle(Slice::M)) == seq![5u8, 1u8, 0u8, 2u8, 4u8, 3u8, 6u8, 7u8],
        spec_from_magic(spec_slice_move_magic(SliceMove::M)) == spec_compose_times(spec_ident(), seq![5u8, 1u8, 0u8, 2u8, 4u8, 3u8, 6u8, 7u8], 1),
        spec_from_magic(spec_slice_move_magic(SliceMove::M2)) == spec_compose_times(spec_ident(), seq![5u8, 1u8, 0u8, 2u8, 4u8, 3u8, 6u8, 7u8], 2),
        spec_from_magic(spec_slice_move_magic(SliceMove::M3)) == spec_compose_times(spec_ident(), seq![5u8, 1u8, 0u8, 2u8, 4u8, 3u8, 6u8, 7u8], 3),
{
    let c = spec_slice_cycle(Slice::M);
    reveal_with_fuel(spec_cycle_slot, 5);
    assert(spec_cycle_lanes(c) =~= seq![5u8, 1u8, 0u8, 2u8, 4u8, 3u8, 6u8, 7u8]);
    let k = seq![5u8, 1u8, 0u8, 2u8, 4u8, 3u8, 6u8, 7u8];
    reveal_with_fuel(spec_compose_times, 4);
    assert(spec_compose_times(spec_ident(), k, 1) =~= seq![5u8, 1u8, 0u8, 2u8, 4u8, 3u8, 6u8, 7u8]);
    assert(spec_compose_times(spec_ident(), k, 2) =~= seq![3u8, 1u8, 5u8, 0u8, 4u8, 2u8, 6u8, 7u8]);
    assert(spec_compose_times(spec_ident(), k, 3) =~= seq![2u8, 1u8, 3u8, 5u8, 4u8, 0u8, 6u8, 7u8]);
    lemma_magic_lanes(0x0706030402000105, seq![5u8, 1u8, 0u8, 2u8, 4u8, 3u8, 6u8, 7u8]);
    lemma_magic_lanes(0x0706020400050103, seq![3u8, 1u8, 5u8, 0u8, 4u8, 2u8, 6u8, 7u8]);
    lemma_magic_lanes(0x0706000405030102, seq![2u8, 1u8, 3u8, 5u8, 4u8, 0u8, 6u8, 7u8]);
}

/// The E slice's cycle of centers, and the slice moves of E.
#[verifier::spinoff_prover]
proof fn lemma_slice_cycle_e()
    ensures
        spec_cycle_lanes(spec_slice_cycle(Slice::E)) == seq![0u8, 2u8, 4u8, 3u8, 5u8, 1u8, 6u8, 7u8],
        spec_from_magic(spec_slice_move_magic(SliceMove::E)) == spec_compose_times(spec_ident(), seq![0u8, 2u8, 4u8, 3u8, 5u8, 1u8, 6u8, 7u8], 1),
        spec_from_magic(spec_slice_move_magic(SliceMove::E2)) == spec_compose_times(spec_ident(), seq![0u8, 2u8, 4u8, 3u8, 5u8, 1u8, 6u8, 7u8], 2),
        spec_from_magic(spec_slice_move_magic(SliceMove::E3)) == spec_compose_times(spec_ident(), seq![0u8, 2u8, 4u8, 3u8, 5u8, 1u8, 6u8, 7u8], 3),
{
    let c = spec_slice_cycle(Slice::E);
    reveal_with_fuel(spec_cycle_slot, 5);
    assert(spec_cycle_lanes(c) =~= seq![0u8, 2u8, 4u8, 3u8, 5u8, 1u8, 6u8, 7u8]);
    let k = seq![0u8, 2u8, 4u8, 3u8, 5u8, 1u8, 6u8, 7u8];
    reveal_with_fuel(spec_compose_times, 4);
    assert(spec_compose_times(spec_ident(), k, 1) =~= seq![0u8, 2u8, 4u8, 3u8, 5u8, 1u8, 6u8, 7u8]);
    assert(spec_compose_times(spec_ident(), k, 2) =~= seq![0u8, 4u8, 5u8, 3u8, 1u8, 2u8, 6u8, 7u8]);
    assert(spec_compose_times(spec_ident(), k, 3) =~= seq![0u8, 5u8, 1u8, 3u8, 2u8, 4u8, 6u8, 7u8]);
    lemma_magic_lanes(0x0706010503040200, seq![0u8, 2u8, 4u8, 3u8, 5u8, 1u8, 6u8, 7u8]);
    lemma_magic_lanes(0x0706020103050400, seq![0u8, 4u8, 5u8, 3u8, 1u8, 2u8, 6u8, 7u8]);
    lemma_magic_lanes(0x0706040203010500, seq![0u8, 5u8, 1u8, 3u8, 2u8, 4u8, 6u8, 7u8]);
}

/// The S slice's cycle of centers, and the slice moves of S.
#[verifier::spinoff_prover]
proof fn lemma_slice_cycle_s()
    ensures
        spec_cycle_lanes(spec_slice_cycle(Slice::S)) == seq![4u8, 0u8, 2u8, 1u8, 3u8, 5u8, 6u8, 7u8],
        spec_from_magic(spec_slice_move_magic(SliceMove::S)) == spec_compose_times(spec_ident(), seq![4u8, 0u8, 2u8, 1u8, 3u8, 5u8, 6u8, 7u8], 1),
        spec_from_magic(spec_slice_move_magic(SliceMove::S2)) == spec_compose_times(spec_ident(), seq![4u8, 0u8, 2u8, 1u8, 3u8, 5u8, 6u8, 7u8], 2),
        spec_from_magic(spec_slice_move_magic(SliceMove::S3)) == spec_compose_times(spec_ident(), seq![4u8, 0u8, 2u8, 1u8, 3u8, 5u8, 6u8, 7u8], 3),
{
    let c = spec_slice_cycle(Slice::S);
    reveal_with_fuel(spec_cycle_slot, 5);
    assert(spec_cycle_lanes(c) =~= seq![4u8, 0u8, 2u8, 1u8, 3u8, 5u8, 6u8, 7u8]);
    let k = seq![4u8, 0u8, 2u8, 1u8, 3u8, 5u8, 6u8, 7u8];
    reveal_with_fuel(spec_compose_times, 4);
    assert(spec_compose_times(spec_ident(), k, 1) =~= seq![4u8, 0u8, 2u8, 1u8, 3u8, 5u8, 6u8, 7u8]);
    assert(spec_compose_times(spec_ident(), k, 2) =~= seq![3u8, 4u8, 2u8, 0u8, 1u8, 5u8, 6u8, 7u8]);
    assert(spec_compose_times(spec_ident(), k, 3) =~= seq![1u8, 3u8, 2u8, 4u8, 0u8, 5u8, 6u8, 7u8]);
    lemma_magic_lanes(0x0706050301020004, seq![4u8, 0u8, 2u8, 1u8, 3u8, 5u8, 6u8, 7u8]);
    lemma_magic_lanes(0x0706050100020403, seq![3u8, 4u8, 2u8, 0u8, 1u8, 5u8, 6u8, 7u8]);
    lemma_magic_lanes(0x0706050004020301, seq![1u8, 3u8, 2u8, 4u8, 0u8, 5u8, 6u8, 7u8]);
}

/// A slice move turns the centers as the slice's cycle does, once for a quarter turn,
/// twice for a half turn, and three times for a turn the other way.
pub proof fn lemma_slice_move_cycles(m: SliceMove)
    ensures
        spec_from_magic(spec_slice_move_magic(m)) == spec_compose_times(spec_ident(),
            spec_cycle_lanes(spec_slice_cycle(spec_slice_of(m))), (m as u8) % 3 + 1),
{
    match m {
        SliceMove::M | SliceMove::M2 | SliceMove::M3 => lemma_slice_cycle_m(),
        SliceMove::E | SliceMove::E2 | SliceMove::E3 => lemma_slice_cycle_e(),
        SliceMove::S | SliceMove::S2 | SliceMove::S3 => lemma_slice_cycle_s(),
    }
}


/// Composition of centers whose lanes name slots is associative.
pub proof fn lemma_compose_assoc(a: Seq<u8>, b: Seq<u8>, c: Seq<u8>)
    requires
        wf(a),
        wf(b),
        wf(c),
    ensures
        spec_compose(spec_compose(a, b), c) == spec_compose(a, spec_compose(b, c)),
{
    assert(spec_compose(spec_compose(a, b), c) =~= spec_compose(a, spec_compose(b, c)));
}

/// The solved centers are an identity for composition.
pub proof fn lemma_compose_ident(a: Seq<u8>)
    requires
        wf(a),
    ensures
        spec_compose(spec_ident(), a) == a,
        spec_compose(a, spec_ident()) == a,
{
    assert(spec_compose(spec_ident(), a) =~= a);
    assert(spec_compose(a, spec_ident()) =~= a);
}

/// Composition keeps lanes naming slots.
pub proof fn lemma_compose_wf(a: Seq<u8>, b: Seq<u8>)
    requires
        wf(a),
        wf(b),
    ensures
        wf(spec_compose(a, b)),
{
}

impl Centers {
    /// The solved centers.
    pub fn new() -> (r: Centers)
        ensures
            r.0@ == spec_ident(),
    {
        let r = Centers(CENTERS_IDENT);
        assert(r.0@ =~= spec_ident());
        r
    }

    /// Compose: the centers of `self` followed by those of `rhs`.
    pub fn compose(self, rhs: Self) -> (r: Centers)
        ensures
            r.0@ == spec_compose(self.0@, rhs.0@),
    {
        Centers(compose(self.0, rhs.0))
    }

    /// The little-endian number formed by the lanes.
    pub fn magic(self) -> (r: u64)
        ensures
            r == spec_magic(self.0@),
    {
        let a = self.0;
        (a[0] as u64) + (a[1] as u64) * 0x100 + (a[2] as u64) * 0x10000 + (a[3] as u64) * 0x1000000
            + (a[4] as u64) * 0x100000000 + (a[5] as u64) * 0x10000000000
            + (a[6] as u64) * 0x1000000000000 + (a[7] as u64) * 0x100000000000000
    }

    /// The centers whose lanes are the little-endian bytes of `m`.
    pub fn from_magic(m: u64) -> (r: Centers)
        ensures
            r.0@ == spec_from_magic(m),
    {
        let r = Centers([
            (m % 0x100) as u8,
            ((m / 0x100) % 0x100) as u8,
            ((m / 0x10000) % 0x100) as u8,
            ((m / 0x1000000) % 0x100) as u8,
            ((m / 0x100000000) % 0x100) as u8,
            ((m / 0x10000000000) % 0x100) as u8,
            ((m / 0x1000000000000) % 0x100) as u8,
            ((m / 0x100000000000000) % 0x100) as u8,
        ]);
        assert(r.0@ =~= spec_from_magic(m));
        r
    }

    /// A cycle of centers. The first slot in the cycle is sent to the second slot in the
    /// cycle, and so on with the last slot in the cycle being sent to the first slot in the
    /// cycle.
    pub fn cycle(cycle: &[Center]) -> (r: Centers)
        ensures
            r.0@ == spec_cycle_lanes(cycle@),
    {
        let mut xp = CENTERS_IDENT;
        let n = cycle.len();
        let mut i: usize = 0;
        while i < n
            invariant
                n == cycle@.len(),
                i <= n,
                forall|s: int| 0 <= s < 8 ==> #[trigger] xp[s] as int == spec_cycle_slot(cycle@, i as int, s),
            decreases n - i,
        {
            let src = cycle[i] as u8;
            let dst = cycle[(i + 1) % n] as usize;
            proof {
                lemma_center_number(cycle@[i as int]);
                lemma_center_number(cycle@[(i as int + 1) % (n as int)]);
            }
            xp[dst] = src;
            proof {
                assert forall|s: int| 0 <= s < 8 implies #[trigger] xp[s] as int == spec_cycle_slot(cycle@, i as int + 1, s) by {
                    lemma_cycle_slot_bound(cycle@, i as int, s);
                }
            }
            i += 1;
        }
        let r = Centers(xp);
        assert(r.0@ =~= spec_cycle_lanes(cycle@)) by {
            assert forall|s: int| 0 <= s < 8 implies #[trigger] r.0@[s] == spec_cycle_lanes(cycle@)[s] by {
                lemma_cycle_slot_bound(cycle@, n as int, s);
            }
        }
        r
    }

    /// The centers after slice move `m` from solved: the slice's cycle of centers, once
    /// for a quarter turn, twice for a half turn and three times for a turn the other way.
    pub fn slice_move(m: SliceMove) -> (r: Centers)
        ensures
            r.0@ == spec_from_magic(spec_slice_move_magic(m)),
            r.0@ == spec_compose_times(spec_ident(), spec_cycle_lanes(spec_slice_cycle(spec_slice_of(m))), (m as u8) % 3 + 1),
    {
        proof {
            lemma_slice_move_cycles(m);
        }
        match m {
            SliceMove::M => Centers::from_magic(0x0706030402000105),
            SliceMove::M2 => Centers::from_magic(0x0706020400050103),
            SliceMove::M3 => Centers::from_magic(0x0706000405030102),
            SliceMove::E => Centers::from_magic(0x0706010503040200),
            SliceMove::E2 => Centers::from_magic(0x0706020103050400),
            SliceMove::E3 => Centers::from_magic(0x0706040203010500),
            SliceMove::S => Centers::from_magic(0x0706050301020004),
            SliceMove::S2 => Centers::from_magic(0x0706050100020403),
            SliceMove::S3 => Centers::from_magic(0x0706050004020301),
        }
    }

    /// The centers of `self` after slice move `m`.
    pub fn apply_slice_move(self, m: SliceMove) -> (r: Centers)
        ensures
            r.0@ == spec_compose(self.0@, spec_from_magic(spec_slice_move_magic(m))),
    {
        self.compose(Self::slice_move(m))
    }

    /// The centers after rotation `r` from solved.
    pub fn rotation(r: Rotation) -> (c: Centers)
        ensures
            c.0@ == spec_from_magic(spec_slice_move_magic(spec_rotation_slice(r))),
    {
        match r {
            Rotation::X => Self::slice_move(SliceMove::M3),
            Rotation::X2 => Self::slice_move(SliceMove::M2),
            Rotation::X3 => Self::slice_move(SliceMove::M),
            Rotation::Y => Self::slice_move(SliceMove::E3),
            Rotation::Y2 => Self::slice_move(SliceMove::E2),
            Rotation::Y3 => Self::slice_move(SliceMove::E),
            Rotation::Z => Self::slice_move(SliceMove::S),
            Rotation::Z2 => Self::slice_move(SliceMove::S2),
            Rotation::Z3 => Self::slice_move(SliceMove::S3),
        }
    }

    /// The centers of `self` after rotation `r`.
    pub fn apply_rotation(self, r: Rotation) -> (c: Centers)
        ensures
            c.0@ == spec_compose(self.0@, spec_from_magic(spec_slice_move_magic(spec_rotation_slice(r)))),
    {
        self.compose(Self::rotation(r))
    }
}

/// A center's number is below 6.
proof fn lemma_center_number(c: Center)
    ensures
        (c as u8) < 6,
{
}

/// The piece a cycle leaves in a slot is a slot number.
proof fn lemma_cycle_slot_bound(c: Seq<Center>, k: int, s: int)
    requires
        0 <= s < 8,
    ensures
        0 <= spec_cycle_slot(c, k, s) < 8,
    decreases k,
{
    if k > 0 {
        lemma_center_number(c[k - 1]);
        lemma_cycle_slot_bound(c, k - 1, s);
    }
}

impl Default for Centers {
    fn default() -> (r: Centers)
        ensures
            r.0@ == spec_ident(),
    {
        Centers::new()
    }
}

impl core::ops::Add<Centers> for Centers {
    type Output = Centers;

    fn add(self, rhs: Centers) -> (r: Centers)
        ensures
            r.0@ == spec_compose(self.0@, rhs.0@),
    {
        self.compose(rhs)
    }
}

impl vstd::std_specs::ops::AddSpecImpl<Centers> for Centers {
    open spec fn obeys_add_spec() -> bool {
        false
    }

    open spec fn add_req(self, rhs: Centers) -> bool {
        true
    }

    open spec fn add_spec(self, rhs: Centers) -> Centers {
        arbitrary()
    }
}

} // verus!
