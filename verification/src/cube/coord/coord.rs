use vstd::prelude::*;
use crate::cube::cube::{Cube, spec_conjugate_lanes};
use crate::cube::set::{Set64, SetElement};
use crate::cube::sym::{Sym, SymTable, spec_sym_from, spec_sym_inverse, lemma_sym_number};

verus! {

/// Description of a coordinate which maps to a (right) coset of the cube.
pub trait Coord {
    /// The number of values of the coordinate.
    spec fn spec_n_values() -> int;

    /// The coordinate of the cube with the given edge and corner lanes.
    spec fn spec_index(edges: Seq<u8>, corners: Seq<u8>) -> int;

    /// The edge and corner lanes of the cube that `unindex` gives for `coord`.
    spec fn spec_unindex(coord: int) -> (Seq<u8>, Seq<u8>);

    /// The name of the coordinate.
    spec fn spec_name() -> Seq<char>;

    /// The symmetries that the coordinate respects.
    spec fn spec_syms() -> Seq<Sym>;

    /// Name of the coordinate, used for debugging purposes.
    fn name() -> (r: &'static str)
        ensures
            r@ == Self::spec_name();

    /// The number of values of the coordinate.
    fn n_values() -> (r: usize)
        ensures
            r as int == Self::spec_n_values(),
            1 <= r <= 4096;

    /// Listing of symmetries which are applicable to the coordinate, i.e. symmetries `S`
    /// which have the following property: if `x`, `y` are cubes with the same coordinate,
    /// then `sxs'`, `sys'` also have the same coordinate for all `s` in `S`.
    fn syms() -> (r: Vec<Sym>)
        ensures
            r@ == Self::spec_syms();

    /// Inspect a cube and produce a coordinate associated with it.
    fn index(c: Cube) -> (r: usize)
        ensures
            r as int == Self::spec_index(c.edges.0@, c.corners.0@);

    /// Given a coordinate, produce a cube which has that coordinate when `index` is called
    /// on it.
    fn unindex(coord: usize) -> (r: Cube)
        requires
            (coord as int) < Self::spec_n_values(),
        ensures
            (r.edges.0@, r.corners.0@) == Self::spec_unindex(coord as int),
            Self::spec_index(r.edges.0@, r.corners.0@) == coord;
}

/// The coordinate of the cube that `unindex` gives for `coord`, brought over by `s` as
/// `canonicalize` brings a cube over: conjugated, or left as it is for the identity.
pub open spec fn spec_conjugated_index<C: Coord>(coord: int, s: Sym) -> int {
    let l = C::spec_unindex(coord);
    let m = spec_canonical_lanes(l.0, l.1, s);
    C::spec_index(m.0, m.1)
}

/// The lanes of a cube brought to the representative of its class by symmetry `s`:
/// conjugated by `s`, or left as they are when `s` is the identity.
pub open spec fn spec_canonical_lanes(edges: Seq<u8>, corners: Seq<u8>, s: Sym) -> (Seq<u8>, Seq<u8>) {
    if s == Sym::UF {
        (edges, corners)
    } else {
        spec_conjugate_lanes(edges, corners, s)
    }
}

/// The cube `c` brought to its class representative by the symmetry recorded for its
/// coordinate `x`.
pub(crate) fn canonical_of(canon: &Vec<Sym>, syms: &SymTable, c: Cube, x: usize) -> (r: Cube)
    requires
        syms.wf(),
        x < canon@.len(),
    ensures
        (r.edges.0@, r.corners.0@) == spec_canonical_lanes(c.edges.0@, c.corners.0@, canon@[x as int]),
{
    let s = canon[x];
    if s == Sym::UF {
        c
    } else {
        syms.conjugate(c, s)
    }
}

/// The entry of `dist` for class `cls[y]` and value `z` of a second coordinate with `nc`
/// values.
pub(crate) fn class_entry(cls: &Vec<usize>, dist: &Vec<u8>, n_classes: usize, nc: usize, y: usize, z: usize) -> (r: usize)
    requires
        y < cls@.len(),
        cls@[y as int] < n_classes,
        z < nc,
        dist@.len() == n_classes * nc,
    ensures
        r == dist@[cls@[y as int] * nc + z],
{
    let k = cls[y];
    let len = dist.len();
    assert(k * nc + z < len && k * nc <= len) by (nonlinear_arith)
        requires
            k < n_classes,
            z < nc,
            len == n_classes * nc,
    ;
    dist[k * nc + z] as usize
}

/// Symmetry information about a coordinate `C`.
pub struct CoordSyms<C: Coord> {
    /// For each coordinate, the conjugacy class it belongs to.
    pub(crate) coord_cls: Vec<usize>,
    /// For each coordinate, a symmetry which brings the coordinate back to the canonical
    /// representative via conjugation.
    pub(crate) coord_canonicalizer: Vec<Sym>,
    /// For each conjugacy class, the coordinate which is the canonical representative for
    /// that class.
    pub(crate) class_rep: Vec<usize>,
    /// For each conjugacy class, the set of self-symmetries for that class' canonical
    /// representative.
    pub(crate) class_ssym: Vec<Set64<Sym>>,
    pub(crate) syms: SymTable,
    pub(crate) _c: core::marker::PhantomData<C>,
}

impl<C: Coord> CoordSyms<C> {
    /// The number of values of the coordinate.
    pub closed spec fn n_values(&self) -> int {
        self.coord_cls@.len() as int
    }

    /// The number of conjugacy classes.
    pub closed spec fn spec_n_classes(&self) -> int {
        self.class_rep@.len() as int
    }

    /// The class of coordinate `x`.
    pub closed spec fn class_of(&self, x: int) -> int {
        self.coord_cls@[x] as int
    }

    /// The symmetry recorded for coordinate `x`.
    pub closed spec fn canonicalizer_of(&self, x: int) -> Sym {
        self.coord_canonicalizer@[x]
    }

    /// The representative of class `k`.
    pub closed spec fn rep_of(&self, k: int) -> int {
        self.class_rep@[k] as int
    }

    /// The numbers of the self-symmetries of the representative of class `k`.
    pub closed spec fn self_syms_of(&self, k: int) -> Set<int> {
        self.class_ssym@[k].view()
    }

    /// The invariant of the symmetry information: every coordinate has a class and a
    /// recorded symmetry; classes have increasing representatives; every self-symmetry
    /// listed for a class fixes its representative, and every symmetry of the coordinate
    /// that fixes it is listed; and every coordinate is reached from the representative of its class
    /// by the identity or a symmetry of the coordinate, whose inverse it records.
    pub closed spec fn wf(&self) -> bool {
        &&& self.n_values() == C::spec_n_values()
        &&& self.coord_canonicalizer@.len() == self.n_values()
        &&& self.class_ssym@.len() == self.spec_n_classes()
        &&& self.syms.wf()
        &&& self.n_values() >= 1 ==> self.spec_n_classes() >= 1
        &&& forall|x: int| 0 <= x < self.n_values() ==> #[trigger] self.class_of(x) < self.spec_n_classes()
        &&& forall|k: int| 0 <= k < self.spec_n_classes() ==> 0 <= #[trigger] self.rep_of(k) < self.n_values()
        &&& forall|k: int, j: int| 0 <= k < j < self.spec_n_classes() ==> #[trigger] self.rep_of(k) < #[trigger] self.rep_of(j)
        &&& forall|k: int, x: int| 0 <= k < self.spec_n_classes() && #[trigger] self.self_syms_of(k).contains(x) ==>
            0 <= x < 48 && spec_conjugated_index::<C>(self.rep_of(k), spec_sym_from(x)) == self.rep_of(k)
        &&& forall|x: int| 0 <= x < self.n_values() ==> #[trigger] self.reached(x)
        &&& forall|k: int, s: Sym| 0 <= k < self.spec_n_classes() && C::spec_syms().contains(s)
            && #[trigger] spec_conjugated_index::<C>(self.rep_of(k), s) == self.rep_of(k)
            ==> self.self_syms_of(k).contains((s as u8) as int)
    }

    /// Coordinate `x` was reached from the representative of its class by the identity or
    /// a symmetry of the coordinate, whose inverse is recorded.
    pub open spec fn reached(&self, x: int) -> bool {
        exists|s: Sym| (s == Sym::UF || C::spec_syms().contains(s))
            && spec_conjugated_index::<C>(self.rep_of(self.class_of(x)), s) == x
            && #[trigger] spec_sym_inverse(s) == self.canonicalizer_of(x)
    }
}

impl<C: Coord> CoordSyms<C> {
    /// Each self-symmetry listed for a coordinate's class brings the class representative
    /// back to itself.
    pub proof fn lemma_self_syms_fix_rep(&self, x: int)
        requires
            self.wf(),
            0 <= x < self.n_values(),
            self.rep_of(self.class_of(x)) == x,
        ensures
            forall|s: int| #[trigger] self.self_syms_of(self.class_of(x)).contains(s) ==>
                0 <= s < 48 && spec_conjugated_index::<C>(x, spec_sym_from(s)) == x,
    {
        let k = self.class_of(x);
        assert(k < self.spec_n_classes());
        assert forall|s: int| #[trigger] self.self_syms_of(k).contains(s) implies
            0 <= s < 48 && spec_conjugated_index::<C>(x, spec_sym_from(s)) == x by {
            assert(self.self_syms_of(k).contains(s));
        }
    }

    /// Representatives increase from 0, so class `k` has a representative of at least `k`.
    proof fn lemma_rep_at_least(&self, k: int)
        requires
            self.wf(),
            0 <= k < self.spec_n_classes(),
        ensures
            self.rep_of(k) >= k,
        decreases k,
    {
        if k > 0 {
            self.lemma_rep_at_least(k - 1);
            assert(self.rep_of(k - 1) < self.rep_of(k));
        }
    }

    /// A well-formed table has an entry for each value of the coordinate, and a class as
    /// soon as there is a value.
    pub proof fn lemma_wf_sizes(&self)
        requires
            self.wf(),
        ensures
            self.n_values() == C::spec_n_values(),
            self.n_values() >= 1 ==> self.spec_n_classes() >= 1,
    {
    }

    /// The tables behind the spec functions.
    pub(crate) proof fn lemma_tables(&self)
        ensures
            self.n_values() == self.coord_cls@.len(),
            self.spec_n_classes() == self.class_rep@.len(),
            forall|x: int| #[trigger] self.class_of(x) == self.coord_cls@[x] as int,
            forall|x: int| #[trigger] self.canonicalizer_of(x) == self.coord_canonicalizer@[x],
            self.wf() ==> self.syms.wf() && self.coord_canonicalizer@.len() == self.coord_cls@.len(),
            self.wf() ==> forall|x: int| 0 <= x < self.n_values() ==> #[trigger] self.class_of(x) < self.spec_n_classes(),
    {
    }

    /// There are no more classes than values.
    pub proof fn lemma_n_classes_bound(&self)
        requires
            self.wf(),
        ensures
            self.spec_n_classes() <= self.n_values(),
    {
        if self.spec_n_classes() > 0 {
            self.lemma_rep_at_least(self.spec_n_classes() - 1);
            assert(self.rep_of(self.spec_n_classes() - 1) < self.n_values());
        }
    }
}

impl<C: Coord> CoordSyms<C> {
    /// Compute the conjugacy classes of the coordinate under its symmetries.
    pub fn new() -> (r: CoordSyms<C>)
        ensures
            r.wf(),
            r.n_values() == C::spec_n_values(),
            forall|x: int| 0 <= x < r.n_values() ==> #[trigger] r.reached(x) && r.class_of(x) < r.spec_n_classes(),
            forall|k1: int, k2: int, s: Sym| 0 <= k1 < k2 < r.spec_n_classes() && (s == Sym::UF || C::spec_syms().contains(s))
                ==> #[trigger] spec_conjugated_index::<C>(r.rep_of(k1), s) != #[trigger] r.rep_of(k2),
    {
        let n = C::n_values();
        let syms = C::syms();
        let table = SymTable::new();
        let mut canon: Vec<Option<Sym>> = Vec::new();
        let mut cls: Vec<usize> = Vec::new();
        let mut i: usize = 0;
        while i < n
            invariant
                i <= n,
                canon@.len() == i,
                cls@.len() == i,
                forall|x: int| 0 <= x < i ==> #[trigger] canon@[x] is None && cls@[x] == 0,
            decreases n - i,
        {
            canon.push(None);
            cls.push(0);
            i += 1;
        }
        let mut class_rep: Vec<usize> = Vec::new();
        let mut class_ssym: Vec<Set64<Sym>> = Vec::new();
        let mut a_coord: usize = 0;
        while a_coord < n
            invariant
                n as int == C::spec_n_values(),
                1 <= n <= 4096,
                a_coord <= n,
                table.wf(),
                canon@.len() == n,
                cls@.len() == n,
                class_rep@.len() == class_ssym@.len(),
                a_coord > 0 ==> class_rep@.len() >= 1,
                forall|k: int| 0 <= k < class_rep@.len() ==> #[trigger] class_rep@[k] < a_coord,
                forall|k: int, j: int| 0 <= k < j < class_rep@.len() ==> #[trigger] class_rep@[k] < #[trigger] class_rep@[j],
                syms@ == C::spec_syms(),
                forall|x: int| 0 <= x < a_coord ==> #[trigger] canon@[x] is Some,
                forall|k: int, s: Sym| 0 <= k < class_rep@.len() && C::spec_syms().contains(s)
                    && 0 <= #[trigger] spec_conjugated_index::<C>(class_rep@[k] as int, s) < n
                    ==> canon@[spec_conjugated_index::<C>(class_rep@[k] as int, s)] is Some,
                forall|k1: int, k2: int, s: Sym| 0 <= k1 < k2 < class_rep@.len() && (s == Sym::UF || C::spec_syms().contains(s))
                    ==> #[trigger] spec_conjugated_index::<C>(class_rep@[k1] as int, s) != #[trigger] class_rep@[k2],
                forall|kk: int| 0 <= kk < class_rep@.len() ==> spec_conjugated_index::<C>(#[trigger] class_rep@[kk] as int, Sym::UF) == class_rep@[kk],
                forall|x: int| 0 <= x < n && #[trigger] canon@[x] is None ==> cls@[x] == 0,
                forall|x: int| 0 <= x < n && #[trigger] canon@[x] is Some ==> cls@[x] < class_rep@.len()
                    && exists|s: Sym| (s == Sym::UF || C::spec_syms().contains(s))
                        && spec_conjugated_index::<C>(class_rep@[cls@[x] as int] as int, s) == x
                        && #[trigger] spec_sym_inverse(s) == canon@[x]->0,
                forall|k: int, x: int| 0 <= k < class_ssym@.len() && #[trigger] class_ssym@[k].view().contains(x) ==>
                    0 <= x < 48 && spec_conjugated_index::<C>(class_rep@[k] as int, spec_sym_from(x)) == class_rep@[k],
                forall|k: int, s: Sym| 0 <= k < class_ssym@.len() && C::spec_syms().contains(s)
                    && #[trigger] spec_conjugated_index::<C>(class_rep@[k] as int, s) == class_rep@[k]
                    ==> class_ssym@[k].view().contains((s as u8) as int),
            decreases n - a_coord,
        {
            if canon[a_coord].is_some() {
                a_coord += 1;
                continue;
            }
            let a = C::unindex(a_coord);
            let k = class_rep.len();
            proof {
                assert forall|kk: int, s: Sym| 0 <= kk < k && (s == Sym::UF || C::spec_syms().contains(s))
                    implies #[trigger] spec_conjugated_index::<C>(class_rep@[kk] as int, s) != a_coord by {
                    let b = spec_conjugated_index::<C>(class_rep@[kk] as int, s);
                    if s == Sym::UF {
                        assert(b == class_rep@[kk]);
                        assert(class_rep@[kk] < a_coord);
                    } else if 0 <= b < n {
                        assert(canon@[b] is Some);
                    }
                }
            }
            let mut ssyms: Set64<Sym> = Set64::new();
            let m = syms.len();
            let mut j: usize = 0;
            while j < m
                invariant
                    m == syms@.len(),
                    j <= m,
                    n as int == C::spec_n_values(),
                    a_coord < n,
                    table.wf(),
                    (a.edges.0@, a.corners.0@) == C::spec_unindex(a_coord as int),
                    k == class_rep@.len(),
                    canon@.len() == n,
                    cls@.len() == n,
                    forall|x: int| 0 <= x < n && #[trigger] canon@[x] is None ==> cls@[x] == 0,
                    syms@ == C::spec_syms(),
                    forall|x: int| 0 <= x < a_coord ==> #[trigger] canon@[x] is Some,
                    forall|kk: int, s: Sym| 0 <= kk < class_rep@.len() && C::spec_syms().contains(s)
                        && 0 <= #[trigger] spec_conjugated_index::<C>(class_rep@[kk] as int, s) < n
                        ==> canon@[spec_conjugated_index::<C>(class_rep@[kk] as int, s)] is Some,
                    forall|k1: int, k2: int, s: Sym| 0 <= k1 < k2 < class_rep@.len() && (s == Sym::UF || C::spec_syms().contains(s))
                        ==> #[trigger] spec_conjugated_index::<C>(class_rep@[k1] as int, s) != #[trigger] class_rep@[k2],
                    forall|kk: int, s: Sym| 0 <= kk < k && (s == Sym::UF || C::spec_syms().contains(s))
                        ==> #[trigger] spec_conjugated_index::<C>(class_rep@[kk] as int, s) != a_coord,
                    forall|kk: int| 0 <= kk < class_rep@.len() ==> spec_conjugated_index::<C>(#[trigger] class_rep@[kk] as int, Sym::UF) == class_rep@[kk],
                    forall|t: int| 0 <= t < j && 0 <= #[trigger] spec_conjugated_index::<C>(a_coord as int, syms@[t]) < n
                        ==> canon@[spec_conjugated_index::<C>(a_coord as int, syms@[t])] is Some,
                    forall|x: int| 0 <= x < n && #[trigger] canon@[x] is Some ==>
                        (cls@[x] < k && exists|s: Sym| (s == Sym::UF || C::spec_syms().contains(s))
                            && spec_conjugated_index::<C>(class_rep@[cls@[x] as int] as int, s) == x
                            && #[trigger] spec_sym_inverse(s) == canon@[x]->0)
                        || (cls@[x] == k && exists|s: Sym| (s == Sym::UF || C::spec_syms().contains(s))
                            && spec_conjugated_index::<C>(a_coord as int, s) == x
                            && #[trigger] spec_sym_inverse(s) == canon@[x]->0),
                    forall|x: int| #[trigger] ssyms.view().contains(x) ==>
                        0 <= x < 48 && spec_conjugated_index::<C>(a_coord as int, spec_sym_from(x)) == a_coord,
                    forall|t: int| 0 <= t < j && #[trigger] spec_conjugated_index::<C>(a_coord as int, syms@[t]) == a_coord
                        ==> ssyms.view().contains((syms@[t] as u8) as int),
                decreases m - j,
            {
                let sym = syms[j];
                let b = if sym == Sym::UF { a } else { table.conjugate(a, sym) };
                let b_coord = C::index(b);
                proof {
                    assert(spec_conjugated_index::<C>(a_coord as int, sym) == b_coord);
                    assert(C::spec_syms().contains(sym)) by {
                        assert(syms@[j as int] == sym);
                    }
                    lemma_sym_number(sym);
                }
                if b_coord < n {
                    let inv = table.inverse(sym);
                    canon.set(b_coord, Some(inv));
                    cls.set(b_coord, k);
                    proof {
                        assert(canon@[b_coord as int]->0 == spec_sym_inverse(sym));
                    }
                }
                if a_coord == b_coord {
                    ssyms.insert(&sym);
                }
                j += 1;
            }
            if canon[a_coord].is_none() {
                let inv = table.inverse(Sym::UF);
                canon.set(a_coord, Some(inv));
                cls.set(a_coord, k);
                proof {
                    assert(spec_conjugated_index::<C>(a_coord as int, Sym::UF) == a_coord);
                }
            }
            let ghost reps0 = class_rep@;
            class_rep.push(a_coord);
            class_ssym.push(ssyms);
            proof {
                assert(class_rep@[k as int] == a_coord);
                assert forall|kk: int| 0 <= kk < k implies #[trigger] class_rep@[kk] == reps0[kk] by {}
                assert(spec_conjugated_index::<C>(a_coord as int, Sym::UF) == a_coord);
                assert forall|kk: int| 0 <= kk < class_rep@.len() implies spec_conjugated_index::<C>(#[trigger] class_rep@[kk] as int, Sym::UF) == class_rep@[kk] by {
                    if kk < k {
                        assert(class_rep@[kk] == reps0[kk]);
                    }
                }
                assert forall|kk: int, s: Sym| 0 <= kk < class_rep@.len() && C::spec_syms().contains(s)
                    && 0 <= #[trigger] spec_conjugated_index::<C>(class_rep@[kk] as int, s) < n
                    implies canon@[spec_conjugated_index::<C>(class_rep@[kk] as int, s)] is Some by {
                    if kk == k {
                        let t = choose|t: int| 0 <= t < syms@.len() && syms@[t] == s;
                        assert(spec_conjugated_index::<C>(a_coord as int, syms@[t]) == spec_conjugated_index::<C>(class_rep@[kk] as int, s));
                    } else {
                        assert(class_rep@[kk] == reps0[kk]);
                    }
                }
                assert forall|k1: int, k2: int, s: Sym| 0 <= k1 < k2 < class_rep@.len() && (s == Sym::UF || C::spec_syms().contains(s))
                    implies #[trigger] spec_conjugated_index::<C>(class_rep@[k1] as int, s) != #[trigger] class_rep@[k2] by {
                    assert(class_rep@[k1] == reps0[k1]);
                    if k2 < k {
                        assert(class_rep@[k2] == reps0[k2]);
                    }
                }
                assert forall|x: int| 0 <= x < n && #[trigger] canon@[x] is Some implies cls@[x] < class_rep@.len()
                    && exists|s: Sym| spec_conjugated_index::<C>(class_rep@[cls@[x] as int] as int, s) == x
                        && #[trigger] spec_sym_inverse(s) == canon@[x]->0 by {
                    if cls@[x] == k {
                        let s = choose|s: Sym| (s == Sym::UF || C::spec_syms().contains(s))
                            && spec_conjugated_index::<C>(a_coord as int, s) == x
                            && #[trigger] spec_sym_inverse(s) == canon@[x]->0;
                        assert(spec_conjugated_index::<C>(class_rep@[cls@[x] as int] as int, s) == x);
                    } else {
                        let s = choose|s: Sym| (s == Sym::UF || C::spec_syms().contains(s))
                            && spec_conjugated_index::<C>(class_rep@[cls@[x] as int] as int, s) == x
                            && #[trigger] spec_sym_inverse(s) == canon@[x]->0;
                        assert(class_rep@[cls@[x] as int] == class_rep@.drop_last()[cls@[x] as int]);
                    }
                }
                assert forall|kk: int, s: Sym| 0 <= kk < class_ssym@.len() && C::spec_syms().contains(s)
                    && #[trigger] spec_conjugated_index::<C>(class_rep@[kk] as int, s) == class_rep@[kk]
                    implies class_ssym@[kk].view().contains((s as u8) as int) by {
                    if kk < k {
                        assert(class_ssym@[kk] == class_ssym@.drop_last()[kk]);
                        assert(class_rep@[kk] == class_rep@.drop_last()[kk]);
                    } else {
                        let t = choose|t: int| 0 <= t < syms@.len() && syms@[t] == s;
                        assert(spec_conjugated_index::<C>(a_coord as int, syms@[t]) == a_coord);
                    }
                }
                assert forall|kk: int, x: int| 0 <= kk < class_ssym@.len() && #[trigger] class_ssym@[kk].view().contains(x) implies
                    0 <= x < 48 && spec_conjugated_index::<C>(class_rep@[kk] as int, spec_sym_from(x)) == class_rep@[kk] by {
                    if kk < k {
                        assert(class_ssym@[kk] == class_ssym@.drop_last()[kk]);
                        assert(class_rep@[kk] == class_rep@.drop_last()[kk]);
                    }
                }
            }
            a_coord += 1;
        }
        let mut coord_canonicalizer: Vec<Sym> = Vec::new();
        let mut x: usize = 0;
        while x < n
            invariant
                x <= n,
                canon@.len() == n,
                coord_canonicalizer@.len() == x,
                forall|y: int| 0 <= y < x ==> #[trigger] coord_canonicalizer@[y] == match canon@[y] {
                    Some(s) => s,
                    None => Sym::UF,
                },
            decreases n - x,
        {
            let s = match canon[x] {
                Some(s) => s,
                None => Sym::UF,
            };
            coord_canonicalizer.push(s);
            x += 1;
        }
        let r = CoordSyms {
            coord_cls: cls,
            coord_canonicalizer,
            class_rep,
            class_ssym,
            syms: table,
            _c: core::marker::PhantomData,
        };
        proof {
            assert forall|y: int| 0 <= y < r.n_values() implies #[trigger] r.reached(y) by {
                assert(canon@[y] is Some);
                let s = choose|s: Sym| (s == Sym::UF || C::spec_syms().contains(s))
                    && spec_conjugated_index::<C>(class_rep@[cls@[y] as int] as int, s) == y
                    && #[trigger] spec_sym_inverse(s) == canon@[y]->0;
                assert(spec_sym_inverse(s) == r.canonicalizer_of(y));
            }
            assert forall|y: int| 0 <= y < r.n_values() implies #[trigger] r.class_of(y) < r.spec_n_classes() by {
                if canon@[y] is None {
                    assert(r.spec_n_classes() >= 1);
                }
            }
        }
        r
    }

    /// Number of conjugacy classes for the coordinate.
    pub fn n_classes(&self) -> (r: usize)
        ensures
            r == self.spec_n_classes(),
    {
        self.class_rep.len()
    }

    /// Symmetry which brings the coordinate to its conjugacy class representative.
    pub fn canonicalizer(&self, coord: usize) -> (r: Sym)
        requires
            self.wf(),
            coord < self.n_values(),
        ensures
            r == self.canonicalizer_of(coord as int),
    {
        self.coord_canonicalizer[coord]
    }

    /// Conjugacy class of the given coordinate.
    pub fn conjugacy_class(&self, coord: usize) -> (r: usize)
        requires
            self.wf(),
            coord < self.n_values(),
        ensures
            r == self.class_of(coord as int),
            r < self.spec_n_classes(),
    {
        assert(self.class_of(coord as int) < self.spec_n_classes());
        self.coord_cls[coord]
    }

    /// Canonicalize the given cube, applying a transformation so that coordinate is the
    /// representative of its conjugacy class. A cube whose recorded symmetry is the
    /// identity is returned as it is.
    pub fn canonicalize(&self, c: Cube) -> (r: Cube)
        requires
            self.wf(),
            C::spec_index(c.edges.0@, c.corners.0@) < self.n_values(),
        ensures
            (r.edges.0@, r.corners.0@) == spec_canonical_lanes(c.edges.0@, c.corners.0@,
                self.canonicalizer_of(C::spec_index(c.edges.0@, c.corners.0@))),
    {
        let coord = C::index(c);
        canonical_of(&self.coord_canonicalizer, &self.syms, c, coord)
    }

    /// The cube `c` conjugated by symmetry `s`, read from the table of symmetries.
    pub fn conjugate(&self, c: Cube, s: Sym) -> (r: Cube)
        requires
            self.wf(),
        ensures
            (r.edges.0@, r.corners.0@) == spec_conjugate_lanes(c.edges.0@, c.corners.0@, s),
    {
        self.syms.conjugate(c, s)
    }

    /// The self-symmetries of the representative of the class of the coordinate.
    pub fn self_syms(&self, coord: usize) -> (r: Set64<Sym>)
        requires
            self.wf(),
            coord < self.n_values(),
        ensures
            r.view() == self.self_syms_of(self.class_of(coord as int)),
    {
        assert(self.class_of(coord as int) < self.spec_n_classes());
        let cls = self.coord_cls[coord];
        self.class_ssym[cls]
    }
}

} // verus!
