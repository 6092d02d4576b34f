use vstd::prelude::*;
use crate::cube::corners::corner::Corner;
use crate::cube::edges::edge::Edge;
use crate::cube::sym::Sym;
use crate::cube::transform::mov::Move;

verus! {

/// A kind of item that a `Set64` can hold: each item is numbered below 64.
pub trait SetElement: Sized {
    /// The number of the item: the bit that stands for it.
    spec fn element_number(&self) -> int;

    /// Whether `x` is the number of an item.
    spec fn is_element_number(x: int) -> bool;

    /// The number of the item.
    fn number(&self) -> (r: u8)
        ensures
            r as int == self.element_number(),
            r < 64,
            Self::is_element_number(r as int);

    /// The item numbered `x`.
    fn from_number(x: u8) -> (r: Self)
        requires
            Self::is_element_number(x as int),
        ensures
            r.element_number() == x as int;
}

impl SetElement for Edge {
    open spec fn element_number(&self) -> int {
        (*self as u8) as int
    }

    open spec fn is_element_number(x: int) -> bool {
        0 <= x < 12
    }

    fn number(&self) -> (r: u8) {
        *self as u8
    }

    fn from_number(x: u8) -> (r: Edge) {
        Edge::from_u8(x)
    }
}

impl SetElement for Corner {
    open spec fn element_number(&self) -> int {
        (*self as u8) as int
    }

    open spec fn is_element_number(x: int) -> bool {
        0 <= x < 8
    }

    fn number(&self) -> (r: u8) {
        *self as u8
    }

    fn from_number(x: u8) -> (r: Corner) {
        Corner::from_u8(x)
    }
}

impl SetElement for Sym {
    open spec fn element_number(&self) -> int {
        (*self as u8) as int
    }

    open spec fn is_element_number(x: int) -> bool {
        0 <= x < 48
    }

    fn number(&self) -> (r: u8) {
        *self as u8
    }

    fn from_number(x: u8) -> (r: Sym) {
        Sym::from_u8(x)
    }
}

impl SetElement for Move {
    open spec fn element_number(&self) -> int {
        (*self as u8) as int
    }

    open spec fn is_element_number(x: int) -> bool {
        0 <= x < 18
    }

    fn number(&self) -> (r: u8) {
        *self as u8
    }

    fn from_number(x: u8) -> (r: Move) {
        Move::from_u8(x)
    }
}

/// A set of items numbered below 64, one bit per item.
pub struct Set64<T> {
    pub bits: u64,
    pub marker: core::marker::PhantomData<T>,
}

/// Whether bit `i` of `b` is set.
pub open spec fn bit_set(b: u64, i: int) -> bool {
    (b >> (i as u64)) & 1 == 1
}

/// The numbers of the bits set in `b`.
pub open spec fn bit_numbers(b: u64) -> Set<int> {
    Set::new(|i: int| 0 <= i < 64 && bit_set(b, i))
}

/// The number of bits set among the first `k` of `b`.
pub open spec fn spec_popcount(b: u64, k: int) -> int
    decreases k,
{
    if k <= 0 { 0 } else { spec_popcount(b, k - 1) + (if bit_set(b, k - 1) { 1int } else { 0 }) }
}

/// The numbers of the bits set among the first `k` of `b`.
pub open spec fn bit_numbers_below(b: u64, k: int) -> Set<int> {
    Set::new(|i: int| 0 <= i < k && bit_set(b, i))
}

/// The bits set among the first `k` are as many as counted.
proof fn lemma_popcount_len(b: u64, k: int)
    requires
        0 <= k,
    ensures
        bit_numbers_below(b, k).finite(),
        bit_numbers_below(b, k).len() == spec_popcount(b, k),
    decreases k,
{
    if k == 0 {
        assert(bit_numbers_below(b, 0) =~= Set::<int>::empty());
    } else {
        lemma_popcount_len(b, k - 1);
        let prev = bit_numbers_below(b, k - 1);
        if bit_set(b, k - 1) {
            assert(bit_numbers_below(b, k) =~= prev.insert(k - 1));
        } else {
            assert(bit_numbers_below(b, k) =~= prev);
        }
    }
}

/// Facts about setting, clearing and testing bit `n`, seen from bit `m`.
proof fn lemma_bits(b: u64, n: u64, m: u64)
    by (bit_vector)
    requires
        n < 64,
        m < 64,
    ensures
        ((b | (1u64 << n)) >> n) & 1 == 1,
        m != n ==> ((b | (1u64 << n)) >> m) & 1 == (b >> m) & 1,
        ((b & !(1u64 << n)) >> n) & 1 == 0,
        m != n ==> ((b & !(1u64 << n)) >> m) & 1 == (b >> m) & 1,
        ((b & (1u64 << n)) != 0) == ((b >> n) & 1 == 1),
        ((b | (1u64 << n)) != b) == ((b >> n) & 1 != 1),
        ((b & !(1u64 << n)) != b) == ((b >> n) & 1 == 1),
        (b >> n) & 1 == 1 ==> b ^ (1u64 << n) == b & !(1u64 << n),
        (b >> m) & 1 == 1 || (b >> m) & 1 == 0,
        b == 0 ==> (b >> m) & 1 == 0,
{
}

impl<T: SetElement> Set64<T> {
    /// The numbers of the items in the set.
    pub open spec fn view(&self) -> Set<int> {
        bit_numbers(self.bits)
    }

    /// The empty set.
    pub fn new() -> (r: Set64<T>)
        ensures
            r.bits == 0,
            r.view() == Set::<int>::empty(),
    {
        let r = Set64 { bits: 0, marker: core::marker::PhantomData };
        assert forall|i: int| 0 <= i < 64 implies !bit_set(0, i) by {
            lemma_bits(0, 0, i as u64);
        }
        assert(r.view() =~= Set::<int>::empty());
        r
    }

    /// The set whose bits are `bits`.
    pub fn from_u64(bits: u64) -> (r: Set64<T>)
        ensures
            r.bits == bits,
    {
        Set64 { bits, marker: core::marker::PhantomData }
    }

    /// The set of the given items.
    pub fn from_slice(items: &[T]) -> (r: Set64<T>)
        ensures
            r.view() == Set::new(|i: int| exists|k: int| 0 <= k < items@.len() && #[trigger] items@[k].element_number() == i),
    {
        let mut r = Self::new();
        let n = items.len();
        let mut k: usize = 0;
        while k < n
            invariant
                n == items@.len(),
                k <= n,
                r.view() == Set::new(|i: int| exists|j: int| 0 <= j < k && #[trigger] items@[j].element_number() == i),
            decreases n - k,
        {
            r.insert(&items[k]);
            proof {
                let s = Set::new(|i: int| exists|j: int| 0 <= j < k + 1 && #[trigger] items@[j].element_number() == i);
                assert forall|i: int| #[trigger] s.contains(i) == r.view().contains(i) by {
                    if s.contains(i) {
                        let j = choose|j: int| 0 <= j < k + 1 && #[trigger] items@[j].element_number() == i;
                        if j < k {
                            assert(exists|j2: int| 0 <= j2 < k && #[trigger] items@[j2].element_number() == i);
                        }
                    }
                    if r.view().contains(i) && i != items@[k as int].element_number() {
                        let j = choose|j: int| 0 <= j < k && #[trigger] items@[j].element_number() == i;
                        assert(0 <= j < k + 1 && items@[j].element_number() == i);
                    }
                }
                assert(r.view() =~= s);
            }
            k += 1;
        }
        r
    }

    /// The number of items in the set.
    pub fn len(&self) -> (r: usize)
        ensures
            r == spec_popcount(self.bits, 64),
            r == self.view().len(),
            self.view().finite(),
    {
        proof {
            lemma_popcount_len(self.bits, 64);
            assert(bit_numbers_below(self.bits, 64) =~= self.view());
        }
        let mut count: usize = 0;
        let mut i: u64 = 0;
        while i < 64
            invariant
                i <= 64,
                count == spec_popcount(self.bits, i as int),
                count <= i,
            decreases 64 - i,
        {
            proof {
                lemma_bits(self.bits, 0, i);
            }
            if (self.bits >> i) & 1 == 1 {
                count = count + 1;
            }
            i += 1;
        }
        count
    }

    /// Whether the set has no item.
    pub fn is_empty(&self) -> (r: bool)
        ensures
            r == (self.bits == 0),
            r == (self.view() == Set::<int>::empty()),
    {
        proof {
            if self.bits != 0 {
                lemma_nonzero_has_bit(self.bits);
                let i = choose|i: int| 0 <= i < 64 && bit_set(self.bits, i);
                assert(self.view().contains(i));
            } else {
                assert forall|i: int| 0 <= i < 64 implies !bit_set(self.bits, i) by {
                    lemma_bits(self.bits, 0, i as u64);
                }
                assert(self.view() =~= Set::<int>::empty());
            }
        }
        self.bits == 0
    }

    /// Add an item; whether it was not in the set before.
    pub fn insert(&mut self, item: &T) -> (r: bool)
        ensures
            final(self).bits == old(self).bits | (1u64 << (item.element_number() as u64)),
            final(self).view() == old(self).view().insert(item.element_number()),
            r == !old(self).view().contains(item.element_number()),
    {
        let n = item.number();
        let prev = self.bits;
        self.bits = self.bits | (1u64 << n);
        proof {
            assert forall|m: int| 0 <= m < 64 implies #[trigger] bit_set(self.bits, m) == (bit_set(prev, m) || m == n) by {
                lemma_bits(prev, n as u64, m as u64);
            }
            lemma_bits(prev, n as u64, 0);
            assert(self.view() =~= bit_numbers(prev).insert(n as int));
        }
        self.bits != prev
    }

    /// Remove an item; whether it was in the set before.
    pub fn remove(&mut self, item: &T) -> (r: bool)
        ensures
            final(self).bits == old(self).bits & !(1u64 << (item.element_number() as u64)),
            final(self).view() == old(self).view().remove(item.element_number()),
            r == old(self).view().contains(item.element_number()),
    {
        let n = item.number();
        let prev = self.bits;
        self.bits = self.bits & !(1u64 << n);
        proof {
            assert forall|m: int| 0 <= m < 64 implies #[trigger] bit_set(self.bits, m) == (bit_set(prev, m) && m != n) by {
                lemma_bits(prev, n as u64, m as u64);
            }
            lemma_bits(prev, n as u64, 0);
            assert(self.view() =~= bit_numbers(prev).remove(n as int));
        }
        self.bits != prev
    }

    /// Whether an item is in the set.
    pub fn contains(&self, item: &T) -> (r: bool)
        ensures
            r == self.view().contains(item.element_number()),
    {
        let n = item.number();
        proof {
            lemma_bits(self.bits, n as u64, 0);
        }
        (self.bits & (1u64 << n)) != 0
    }

    /// The item with the lowest number, if any.
    pub fn first(&self) -> (r: Option<T>)
        requires
            self.bits != 0 ==> T::is_element_number(vstd::std_specs::bits::u64_trailing_zeros(self.bits) as int),
        ensures
            self.bits == 0 ==> r is None,
            self.bits != 0 ==> (r matches Some(x) && x.element_number() == lowest(self.bits)),
    {
        if self.bits == 0 {
            None
        } else {
            let b = self.bits.trailing_zeros() as u8;
            proof {
                lemma_lowest(self.bits);
            }
            Some(T::from_number(b))
        }
    }

    /// Remove and return the item with the lowest number, if any.
    pub fn pop_first(&mut self) -> (r: Option<T>)
        requires
            old(self).bits != 0 ==> T::is_element_number(vstd::std_specs::bits::u64_trailing_zeros(old(self).bits) as int),
        ensures
            old(self).bits == 0 ==> r is None && final(self).bits == 0,
            old(self).bits != 0 ==> (r matches Some(x) && x.element_number() == lowest(old(self).bits)
                && final(self).view() == old(self).view().remove(x.element_number())),
    {
        if self.bits == 0 {
            None
        } else {
            let prev = self.bits;
            let b = self.bits.trailing_zeros() as u8;
            proof {
                lemma_lowest(prev);
            }
            self.bits = self.bits ^ (1u64 << b);
            proof {
                lemma_bits(prev, b as u64, 0);
                assert forall|m: int| 0 <= m < 64 implies #[trigger] bit_set(self.bits, m) == (bit_set(prev, m) && m != b) by {
                    lemma_bits(prev, b as u64, m as u64);
                }
                assert(self.view() =~= bit_numbers(prev).remove(b as int));
            }
            Some(T::from_number(b))
        }
    }
}

/// The items of a set, lowest number first.
pub struct Set64Iter<T>(pub Set64<T>);

impl<T: SetElement> Set64<T> {
    /// The items of the set, lowest number first.
    pub fn into_iter(self) -> (r: Set64Iter<T>)
        ensures
            r.0.bits == self.bits,
    {
        Set64Iter(self)
    }
}

impl<T: SetElement> Set64Iter<T> {
    /// The next item, removed from what is left, if any.
    pub fn next(&mut self) -> (r: Option<T>)
        requires
            old(self).0.bits != 0 ==> T::is_element_number(vstd::std_specs::bits::u64_trailing_zeros(old(self).0.bits) as int),
        ensures
            old(self).0.bits == 0 ==> r is None && final(self).0.bits == 0,
            old(self).0.bits != 0 ==> (r matches Some(x) && x.element_number() == lowest(old(self).0.bits)
                && final(self).0.view() == old(self).0.view().remove(x.element_number())),
    {
        if self.0.bits == 0 {
            None
        } else {
            self.0.pop_first()
        }
    }
}

/// The lowest bit set in a nonzero `b`.
pub open spec fn lowest(b: u64) -> int {
    vstd::std_specs::bits::u64_trailing_zeros(b) as int
}

/// The lowest bit set in a nonzero number is set, and no lower one is.
pub proof fn lemma_lowest(b: u64)
    requires
        b != 0,
    ensures
        0 <= lowest(b) < 64,
        bit_set(b, lowest(b)),
        forall|j: int| 0 <= j < lowest(b) ==> !#[trigger] bit_set(b, j),
{
    vstd::std_specs::bits::axiom_u64_trailing_zeros(b);
    assert forall|j: int| 0 <= j < lowest(b) implies !#[trigger] bit_set(b, j) by {
        assert((b >> (j as u64)) & 1u64 == 0u64);
    }
}

/// A nonzero number has a bit set.
proof fn lemma_nonzero_has_bit(b: u64)
    requires
        b != 0,
    ensures
        exists|i: int| 0 <= i < 64 && bit_set(b, i),
{
    lemma_lowest(b);
}

impl<T> Clone for Set64<T> {
    fn clone(&self) -> (r: Set64<T>)
        ensures
            r.bits == self.bits,
    {
        Set64 { bits: self.bits, marker: core::marker::PhantomData }
    }
}

impl<T> Copy for Set64<T> {
}

impl<T> Default for Set64<T> {
    fn default() -> (r: Set64<T>)
        ensures
            r.bits == 0,
    {
        Set64 { bits: 0, marker: core::marker::PhantomData }
    }
}

} // verus!
