use vstd::prelude::*;
use crate::cube::alg::Alg;
use crate::cube::corners::corners as corners_model;
use crate::cube::cube::Cube;
use crate::cube::edges::edges as edges_model;
use crate::cube::edges::ops as edge_ops;
use crate::cube::set::{Set64, SetElement, bit_numbers, bit_set, lemma_lowest, lowest};
use crate::cube::transform::mov::{Move, spec_canonically_succeeds};

verus! {

/// A level of the search: the moves still to try at this level (the lowest is the one
/// taken), and the cube reached by taking it.
#[derive(Clone, Copy)]
struct Frame {
    moves: Set64<Move>,
    cube: Cube,
}

/// The move numbered `x`.
pub open spec fn move_of(x: int) -> Move {
    Move::spec_from_index(x as u8)
}

/// A move's number is below 18 and names it back.
pub proof fn lemma_move_number(m: Move)
    ensures
        (m as u8) < 18,
        move_of((m as u8) as int) == m,
{
}

/// Whether a set holds move numbers only.
pub open spec fn moves_only(s: Set<int>) -> bool {
    forall|i: int| #[trigger] s.contains(i) ==> 0 <= i < 18
}

/// The numbers of the moves of `moveset` that canonically follow `m`.
pub open spec fn succ_set(moveset: Set<int>, m: Move) -> Set<int> {
    Set::new(|x: int| moveset.contains(x) && spec_canonically_succeeds(move_of(x), m))
}

/// Whether `next` is `prev` after move `m`.
pub open spec fn cube_after(prev: Cube, m: Move, next: Cube) -> bool {
    &&& next.edges.0@ == edge_ops::spec_compose(prev.edges.0@, edges_model::spec_move(m))
    &&& next.corners.0@ == corners_model::spec_compose(prev.corners.0@, corners_model::spec_move(m))
}

/// Whether `c` is `start` after the moves `ms`.
pub open spec fn cube_after_moves(start: Cube, ms: Seq<Move>, c: Cube) -> bool {
    &&& c.edges.0@ == edges_model::spec_apply_moves(start.edges.0@, ms)
    &&& c.corners.0@ == corners_model::spec_apply_moves(start.corners.0@, ms)
}

/// Whether each move of `ms` canonically follows the one before it, and all are in
/// `moveset`.
pub open spec fn canonical_in(ms: Seq<Move>, moveset: Set<int>) -> bool {
    &&& forall|k: int| 0 <= k < ms.len() ==> moveset.contains((#[trigger] ms[k] as u8) as int)
    &&& forall|k: int| 1 <= k < ms.len() ==> spec_canonically_succeeds(#[trigger] ms[k], ms[k - 1])
}

/// The numbers of the moves that may follow `path`: the moveset at the root, else the
/// moves of the moveset that canonically follow the last move of the path.
pub open spec fn children(moveset: Set<int>, path: Seq<Move>) -> Set<int> {
    if path.len() == 0 { moveset } else { succ_set(moveset, path.last()) }
}

/// `x` is the least number in `s`.
pub open spec fn is_least(x: int, s: Set<int>) -> bool {
    s.contains(x) && forall|y: int| #[trigger] s.contains(y) ==> x <= y
}

/// The move a level of the search stands for.
spec fn frame_move(f: Frame) -> Move {
    move_of(lowest(f.moves.bits))
}

/// A level with moves left, and only move numbers.
spec fn frame_ok(f: Frame) -> bool {
    f.moves.bits != 0 && moves_only(f.moves.view())
}

/// Levels past the first have moves left, and only move numbers.
spec fn frames_ok(stack: Seq<Frame>) -> bool {
    forall|k: int| 1 <= k < stack.len() ==> #[trigger] frame_ok(stack[k])
}

/// The moves that the levels of the search stand for, below the first.
spec fn stack_path(stack: Seq<Frame>) -> Seq<Move> {
    if stack.len() == 0 {
        Seq::empty()
    } else {
        Seq::new((stack.len() - 1) as nat, |k: int| frame_move(stack[k + 1]))
    }
}

/// Level `k` of a stack holds the cube of the level before after its move, which is in the
/// moveset and canonically follows the move before.
/// The numbers of the moves that may stand at level `k` of a stack: the moveset at the
/// first move, else those that canonically follow the move of the level before.
spec fn level_children(stack: Seq<Frame>, moveset: Set<int>, k: int) -> Set<int> {
    if k == 1 { moveset } else { succ_set(moveset, frame_move(stack[k - 1])) }
}

/// The numbers of `s` from `lo` on.
pub open spec fn from_least(s: Set<int>, lo: int) -> Set<int> {
    Set::new(|x: int| s.contains(x) && x >= lo)
}

spec fn level_ok(stack: Seq<Frame>, moveset: Set<int>, k: int) -> bool {
    &&& frame_ok(stack[k])
    &&& cube_after(stack[k - 1].cube, frame_move(stack[k]), stack[k].cube)
    &&& stack[k].moves.view() == from_least(level_children(stack, moveset, k), lowest(stack[k].moves.bits))
}

/// A valid stack: the first level holds the start cube, and each further level is in order.
spec fn stack_wf(stack: Seq<Frame>, start: Cube, moveset: Set<int>) -> bool {
    &&& stack.len() >= 1 ==> stack[0].cube == start
    &&& forall|k: int| 1 <= k < stack.len() ==> #[trigger] level_ok(stack, moveset, k)
}

/// A level has moves left after the one it stands for.
spec fn has_later(f: Frame) -> bool {
    f.moves.view().remove(lowest(f.moves.bits)) != Set::<int>::empty()
}

/// The numbers of the moves still to try at level `j` of the path of `stack`, after the
/// one the path takes there.
spec fn later_of(stack: Seq<Frame>, j: int) -> Set<int> {
    stack[j + 1].moves.view().remove(lowest(stack[j + 1].moves.bits))
}

/// The path of `s` is the next after that of `os` in depth-first order: at the deepest
/// level `k` of the old path with moves left, the least of them, and nothing below.
spec fn is_next_sibling(os: Seq<Frame>, s: Seq<Frame>) -> bool {
    exists|k: int| 0 <= k < stack_path(os).len()
        && stack_path(s).len() == k + 1
        && stack_path(s).take(k) == stack_path(os).take(k)
        && (stack_path(s)[k] as u8) > (stack_path(os)[k] as u8)
        && is_least((stack_path(s)[k] as u8) as int, later_of(os, k))
        && forall|j: int| k < j < stack_path(os).len() ==> #[trigger] later_of(os, j) == Set::<int>::empty()
}

/// Moving the top level of a prefix of `os` to its next move gives the next path in
/// depth-first order.
proof fn lemma_next_sibling(os: Seq<Frame>, s: Seq<Frame>, len: int, top: Frame)
    requires
        2 <= len <= os.len(),
        s == os.take(len).update(len - 1, top),
        frame_ok(os[len - 1]),
        top.moves.bits != 0,
        top.moves.view() == os[len - 1].moves.view().remove(lowest(os[len - 1].moves.bits)),
        forall|k: int| len <= k < os.len() && k >= 1 ==> !#[trigger] has_later(os[k]),
    ensures
        has_later(os[len - 1]),
        is_next_sibling(os, s),
{
    let old_top = os[len - 1];
    lemma_lowest(top.moves.bits);
    lemma_lowest(old_top.moves.bits);
    let lo = lowest(old_top.moves.bits);
    let ln = lowest(top.moves.bits);
    assert(top.moves.view().contains(ln));
    assert(ln > lo) by {
        assert(old_top.moves.view().contains(ln));
        assert(ln != lo);
        if ln < lo {
            assert(!bit_set(old_top.moves.bits, ln));
        }
    }
    let k = len - 2;
    let np = stack_path(s);
    let op = stack_path(os);
    assert(np.take(k) =~= op.take(k)) by {
        assert forall|j: int| 0 <= j < k implies np.take(k)[j] == op.take(k)[j] by {
            assert(s[j + 1] == os[j + 1]);
        }
    }
    assert(np[k] == move_of(ln));
    assert(op[k] == move_of(lo));
    assert(lo < 18 && ln < 18);
    lemma_least_of(top.moves);
    assert(top.moves.view() == later_of(os, k));
    assert forall|j: int| k < j < op.len() implies #[trigger] later_of(os, j) == Set::<int>::empty() by {
        assert(!has_later(os[j + 1]));
    }
    assert(np.len() == k + 1);
}

/// Some level of the path has moves left exactly when some level past the first of the
/// stack has.
proof fn lemma_some_later(stack: Seq<Frame>)
    ensures
        some_later(stack) <==> !(forall|j: int| 0 <= j < stack_path(stack).len()
            ==> #[trigger] later_of(stack, j) == Set::<int>::empty()),
{
    if some_later(stack) {
        let k = choose|k: int| 1 <= k < stack.len() && #[trigger] has_later(stack[k]);
        assert(later_of(stack, k - 1) != Set::<int>::empty());
    }
    if !(forall|j: int| 0 <= j < stack_path(stack).len() ==> #[trigger] later_of(stack, j) == Set::<int>::empty()) {
        let j = choose|j: int| !(0 <= j < stack_path(stack).len() ==> #[trigger] later_of(stack, j) == Set::<int>::empty());
        assert(has_later(stack[j + 1]));
    }
}

/// Some level past the first has moves left after the one it stands for.
spec fn some_later(stack: Seq<Frame>) -> bool {
    exists|k: int| 1 <= k < stack.len() && #[trigger] has_later(stack[k])
}

/// No bit is set in zero.
proof fn lemma_no_bits_in_zero()
    ensures
        bit_numbers(0u64) == Set::<int>::empty(),
{
    assert(forall|j: u64| #[trigger] ((0u64 >> j) & 1u64) == 0u64) by (bit_vector);
    assert(bit_numbers(0u64) =~= Set::<int>::empty());
}

/// The lowest bit of a set of moves is its least number, and the set is empty exactly
/// when no bit is set.
proof fn lemma_least_of(m: Set64<Move>)
    ensures
        (m.bits == 0) <==> (m.view() == Set::<int>::empty()),
        m.bits != 0 ==> is_least(lowest(m.bits), m.view()),
{
    lemma_no_bits_in_zero();
    if m.bits != 0 {
        lemma_lowest(m.bits);
        assert(m.view().contains(lowest(m.bits)));
        assert forall|y: int| #[trigger] m.view().contains(y) implies lowest(m.bits) <= y by {
            if y < lowest(m.bits) {
                assert(!bit_set(m.bits, y));
            }
        }
    }
}

/// A whole nonempty set holds exactly its numbers from its least on.
proof fn lemma_full_from_least(m: Set64<Move>)
    requires
        m.bits != 0,
    ensures
        m.view() == from_least(m.view(), lowest(m.bits)),
{
    lemma_least_of(m);
    assert(m.view() =~= from_least(m.view(), lowest(m.bits)));
}

/// Taking the least number out of the numbers of `c` from some point on leaves those
/// from the next least on.
proof fn lemma_pop_from_least(c: Set<int>, a: Set64<Move>, b: Set64<Move>)
    requires
        a.bits != 0,
        b.bits != 0,
        a.view() == from_least(c, lowest(a.bits)),
        b.view() == a.view().remove(lowest(a.bits)),
    ensures
        b.view() == from_least(c, lowest(b.bits)),
{
    lemma_least_of(a);
    lemma_least_of(b);
    let lo = lowest(a.bits);
    let ln = lowest(b.bits);
    assert(ln > lo) by {
        assert(a.view().contains(ln));
    }
    assert forall|x: int| #[trigger] b.view().contains(x) <==> from_least(c, ln).contains(x) by {
        if b.view().contains(x) {
            assert(a.view().contains(x));
        }
        if from_least(c, ln).contains(x) {
            assert(a.view().contains(x));
        }
    }
    assert(b.view() =~= from_least(c, ln));
}

/// The levels of a valid stack are in order.
proof fn lemma_stack_frames(stack: Seq<Frame>, start: Cube, moveset: Set<int>)
    requires
        stack_wf(stack, start, moveset),
    ensures
        frames_ok(stack),
{
    assert forall|k: int| 1 <= k < stack.len() implies #[trigger] frame_ok(stack[k]) by {
        assert(level_ok(stack, moveset, k));
    }
}

/// A stack with one level more, in order, is valid.
proof fn lemma_stack_push(stack: Seq<Frame>, start: Cube, moveset: Set<int>, f: Frame)
    requires
        stack_wf(stack, start, moveset),
        stack.len() == 0 ==> f.cube == start,
        stack.len() >= 1 ==> level_ok(stack.push(f), moveset, stack.len() as int),
    ensures
        stack_wf(stack.push(f), start, moveset),
{
    let s = stack.push(f);
    assert forall|k: int| 1 <= k < s.len() implies #[trigger] level_ok(s, moveset, k) by {
        if k < stack.len() {
            assert(level_ok(stack, moveset, k));
            assert(s[k] == stack[k] && s[k - 1] == stack[k - 1]);
        }
    }
}

/// A stack with its top level replaced by one in order is valid.
proof fn lemma_stack_set_top(stack: Seq<Frame>, start: Cube, moveset: Set<int>, f: Frame)
    requires
        stack_wf(stack, start, moveset),
        stack.len() >= 2,
        level_ok(stack.update(stack.len() - 1, f), moveset, stack.len() - 1),
    ensures
        stack_wf(stack.update(stack.len() - 1, f), start, moveset),
{
    let s = stack.update(stack.len() - 1, f);
    assert forall|k: int| 1 <= k < s.len() implies #[trigger] level_ok(s, moveset, k) by {
        if k < stack.len() - 1 {
            assert(level_ok(stack, moveset, k));
            assert(s[k] == stack[k] && s[k - 1] == stack[k - 1]);
        }
    }
}

/// A valid stack without its top level is valid.
proof fn lemma_stack_pop(stack: Seq<Frame>, start: Cube, moveset: Set<int>)
    requires
        stack_wf(stack, start, moveset),
        stack.len() >= 1,
    ensures
        stack_wf(stack.drop_last(), start, moveset),
{
    let s = stack.drop_last();
    assert forall|k: int| 1 <= k < s.len() implies #[trigger] level_ok(s, moveset, k) by {
        assert(level_ok(stack, moveset, k));
        assert(s[k] == stack[k] && s[k - 1] == stack[k - 1]);
    }
}

/// The moves that the lowest of a nonempty set of move numbers stands for.
proof fn lemma_first_move(s: Set64<Move>)
    requires
        s.bits != 0,
        moves_only(s.view()),
    ensures
        0 <= lowest(s.bits) < 18,
        s.view().contains(lowest(s.bits)),
        Move::is_element_number(lowest(s.bits)),
{
    lemma_lowest(s.bits);
    assert(s.view().contains(lowest(s.bits)));
}

/// The cube at each level is the start cube after the moves of the levels up to it, and
/// these moves are canonical and in the moveset.
proof fn lemma_stack_path(stack: Seq<Frame>, start: Cube, moveset: Set<int>, k: int)
    requires
        stack_wf(stack, start, moveset),
        0 <= k < stack.len(),
    ensures
        cube_after_moves(start, stack_path(stack).take(k), stack[k].cube),
        canonical_in(stack_path(stack).take(k), moveset),
    decreases k,
{
    let p = stack_path(stack);
    if k > 0 {
        lemma_stack_path(stack, start, moveset, k - 1);
        assert(p.take(k).drop_last() =~= p.take(k - 1));
        assert(p.take(k).last() == frame_move(stack[k]));
        assert(level_ok(stack, moveset, k));
        lemma_first_move(stack[k].moves);
        let pk = p.take(k);
        assert forall|j: int| 0 <= j < pk.len() implies moveset.contains((#[trigger] pk[j] as u8) as int) by {
            if j == k - 1 {
                let x = lowest(stack[k].moves.bits);
                assert(stack[k].moves.view().contains(x));
                assert(from_least(level_children(stack, moveset, k), x).contains(x));
                assert(pk[j] == move_of(x));
                assert((move_of(x) as u8) as int == x);
                if k > 1 {
                    assert(succ_set(moveset, frame_move(stack[k - 1])).contains(x));
                }
            } else {
                assert(pk[j] == p.take(k - 1)[j]);
            }
        }
        assert forall|j: int| 1 <= j < pk.len() implies spec_canonically_succeeds(#[trigger] pk[j], pk[j - 1]) by {
            if j == k - 1 {
                let x = lowest(stack[k].moves.bits);
                assert(stack[k].moves.view().contains(x));
                assert(from_least(level_children(stack, moveset, k), x).contains(x));
                assert(succ_set(moveset, frame_move(stack[k - 1])).contains(x));
                assert(pk[j - 1] == frame_move(stack[k - 1]));
            } else {
                assert(pk[j] == p.take(k - 1)[j]);
                assert(pk[j - 1] == p.take(k - 1)[j - 1]);
            }
        }
    } else {
        assert(p.take(0) =~= Seq::<Move>::empty());
    }
}

/// A view of the moves of a search.
pub struct SearcherMoves<'a> {
    stack: &'a Vec<Frame>,
}

impl<'a> SearcherMoves<'a> {
    /// Whether the search has started (its first level is there).
    pub closed spec fn started(&self) -> bool {
        self.stack@.len() >= 1
    }

    /// Whether the levels are in order.
    pub closed spec fn wf(&self) -> bool {
        frames_ok(self.stack@)
    }

    /// The moves taken so far.
    pub closed spec fn path(&self) -> Seq<Move> {
        stack_path(self.stack@)
    }

    /// The number of moves taken so far.
    pub fn len(&self) -> (r: usize)
        requires
            self.started(),
        ensures
            r == self.path().len(),
    {
        self.stack.len() - 1
    }

    /// The move at `index`, if there is one.
    pub fn get(&self, index: usize) -> (r: Option<Move>)
        requires
            self.wf(),
        ensures
            index < self.path().len() ==> r == Some(self.path()[index as int]),
            index >= self.path().len() ==> r is None,
    {
        if index >= self.stack.len() || index + 1 >= self.stack.len() {
            return None;
        }
        let frame = &self.stack[index + 1];
        proof {
            assert(frame_ok(self.stack@[index + 1]));
            lemma_first_move(frame.moves);
        }
        let m = frame.moves.first();
        match m {
            Some(x) => {
                proof {
                    lemma_move_number(x);
                }
                Some(x)
            },
            None => None,
        }
    }

    /// The move at `index`.
    pub fn index(&self, index: usize) -> (r: Move)
        requires
            self.wf(),
            index < self.path().len(),
        ensures
            r == self.path()[index as int],
    {
        match self.get(index) {
            Some(m) => m,
            None => Move::U,
        }
    }

    /// The moves taken so far.
    pub fn alg(&self) -> (r: Alg)
        requires
            self.wf(),
        ensures
            r.0@ == self.path(),
    {
        let mut v: Vec<Move> = Vec::new();
        let n = self.stack.len();
        let mut k: usize = 1;
        while k < n
            invariant
                n == self.stack@.len(),
                1 <= k,
                k <= n || k == 1,
                frames_ok(self.stack@),
                v@ == self.path().take(k as int - 1),
            decreases n - k,
        {
            let m = self.index(k - 1);
            proof {
                assert(self.path().take(k as int) =~= self.path().take(k as int - 1).push(m));
            }
            v.push(m);
            k += 1;
        }
        proof {
            if n >= 1 {
                assert(self.path().take(n as int - 1) =~= self.path());
            } else {
                assert(k == 1);
                assert(self.path().take(0) =~= Seq::<Move>::empty());
                assert(self.path() =~= Seq::<Move>::empty());
            }
        }
        Alg(v)
    }
}

/// A depth-first search over canonical move sequences from a start cube. Each call of
/// `next` yields the cube at the next node; `prune` skips the children of the node last
/// yielded.
#[derive(Clone)]
pub struct Searcher {
    stack: Vec<Frame>,
    succs: [Set64<Move>; 18],
    moveset: Set64<Move>,
    start: Cube,
    pruned: bool,
}

impl Searcher {
    /// The invariant of the search.
    pub closed spec fn wf(&self) -> bool {
        &&& moves_only(self.moveset.view())
        &&& forall|i: int| 0 <= i < 18 ==> (#[trigger] self.succs[i]).view() == succ_set(self.moveset.view(), move_of(i))
        &&& stack_wf(self.stack@, self.start, self.moveset.view())
    }

    /// The cube the search starts from.
    pub closed spec fn start_cube(&self) -> Cube {
        self.start
    }

    /// The numbers of the moves the search may take.
    pub closed spec fn move_numbers(&self) -> Set<int> {
        self.moveset.view()
    }

    /// The moves taken to the node last yielded.
    pub closed spec fn path(&self) -> Seq<Move> {
        stack_path(self.stack@)
    }

    /// Whether a node has been yielded and not left.
    pub closed spec fn started(&self) -> bool {
        self.stack@.len() >= 1
    }

    /// Whether the children of the node last yielded are skipped.
    pub closed spec fn is_pruned(&self) -> bool {
        self.pruned
    }

    /// The numbers of the moves still to try at level `j` of the path, after the one the
    /// path takes there.
    pub closed spec fn later_moves(&self, j: int) -> Set<int> {
        later_of(self.stack@, j)
    }

    /// At each level of the path, the moves still to try are exactly those that may follow
    /// the path up to that level and come after the move the path takes there; so the
    /// search meets the canonical sequences in order, each once.
    pub proof fn lemma_later_moves(&self)
        requires
            self.wf(),
        ensures
            forall|j: int| 0 <= j < self.path().len() ==> #[trigger] self.later_moves(j)
                == Set::new(|x: int| children(self.move_numbers(), self.path().take(j)).contains(x)
                    && x > (self.path()[j] as u8) as int),
    {
        let st = self.stack@;
        let ms = self.moveset.view();
        let p = stack_path(st);
        assert forall|j: int| 0 <= j < p.len() implies #[trigger] self.later_moves(j)
            == Set::new(|x: int| children(ms, p.take(j)).contains(x) && x > (p[j] as u8) as int) by {
            let k = j + 1;
            assert(level_ok(st, ms, k));
            lemma_first_move(st[k].moves);
            let lo = lowest(st[k].moves.bits);
            assert(p[j] == move_of(lo));
            assert((move_of(lo) as u8) as int == lo);
            if k == 1 {
                assert(p.take(j) =~= Seq::<Move>::empty());
                assert(children(ms, p.take(j)) == ms);
            } else {
                assert(p.take(j).last() == frame_move(st[k - 1]));
                assert(children(ms, p.take(j)) == succ_set(ms, frame_move(st[k - 1])));
            }
            assert(level_children(st, ms, k) == children(ms, p.take(j)));
            assert(self.later_moves(j) =~= Set::new(|x: int| children(ms, p.take(j)).contains(x) && x > (p[j] as u8) as int));
        }
    }

    /// A search from `start` that may take the moves `moveset`.
    pub fn new(start: Cube, moveset: &[Move]) -> (r: Searcher)
        ensures
            r.wf(),
            r.start_cube() == start,
            r.move_numbers() == Set::new(|i: int| exists|k: int| 0 <= k < moveset@.len() && #[trigger] moveset@[k].element_number() == i),
            !r.started(),
            !r.is_pruned(),
    {
        let set = Set64::from_slice(moveset);
        proof {
            assert forall|i: int| #[trigger] set.view().contains(i) implies 0 <= i < 18 by {
                let k = choose|k: int| 0 <= k < moveset@.len() && #[trigger] moveset@[k].element_number() == i;
                lemma_move_number(moveset@[k]);
            }
        }
        Self::with_moves(start, set)
    }

    /// A search from `start` that may take the moves of `moveset`.
    fn with_moves(start: Cube, moveset: Set64<Move>) -> (r: Searcher)
        requires
            moves_only(moveset.view()),
        ensures
            r.wf(),
            r.start_cube() == start,
            r.move_numbers() == moveset.view(),
            !r.started(),
            !r.is_pruned(),
    {
        let mut succs: [Set64<Move>; 18] = [Set64::new(); 18];
        let mut i: usize = 0;
        while i < 18
            invariant
                i <= 18,
                moves_only(moveset.view()),
                forall|j: int| 0 <= j < i ==> (#[trigger] succs[j]).view() == succ_set(moveset.view(), move_of(j)),
            decreases 18 - i,
        {
            let prev = Move::from_u8(i as u8);
            let mut s: Set64<Move> = Set64::new();
            let mut x: usize = 0;
            while x < 18
                invariant
                    x <= 18,
                    i < 18,
                    prev == move_of(i as int),
                    s.view() == Set::new(|y: int| 0 <= y < x && moveset.view().contains(y)
                        && spec_canonically_succeeds(move_of(y), prev)),
                decreases 18 - x,
            {
                let next = Move::from_u8(x as u8);
                if moveset.contains(&next) && next.canonically_succeeds(prev) {
                    s.insert(&next);
                }
                proof {
                    assert(s.view() =~= Set::new(|y: int| 0 <= y < x + 1 && moveset.view().contains(y)
                        && spec_canonically_succeeds(move_of(y), prev)));
                }
                x += 1;
            }
            proof {
                assert(s.view() =~= succ_set(moveset.view(), prev));
            }
            succs[i] = s;
            i += 1;
        }
        Searcher { start, moveset, stack: Vec::new(), succs, pruned: false }
    }

    /// The moves taken to the node last yielded.
    pub fn moves(&self) -> (r: SearcherMoves<'_>)
        requires
            self.wf(),
        ensures
            r.wf(),
            r.path() == self.path(),
            r.started() == self.started(),
    {
        proof {
            lemma_stack_frames(self.stack@, self.start, self.moveset.view());
        }
        SearcherMoves { stack: &self.stack }
    }

    /// Skip the children of the node last yielded.
    pub fn prune(&mut self)
        ensures
            final(self).is_pruned(),
            final(self).wf() == old(self).wf(),
            final(self).path() == old(self).path(),
            final(self).started() == old(self).started(),
            final(self).start_cube() == old(self).start_cube(),
            final(self).move_numbers() == old(self).move_numbers(),
    {
        self.pruned = true;
        assert(self.stack@ == old(self).stack@);
        assert(self.succs == old(self).succs);
        assert(self.moveset == old(self).moveset);
        assert(self.start == old(self).start);
    }

    /// Start the search over.
    pub fn reset(&mut self)
        requires
            old(self).wf(),
        ensures
            final(self).wf(),
            final(self).start_cube() == old(self).start_cube(),
            final(self).move_numbers() == old(self).move_numbers(),
            !final(self).started(),
            !final(self).is_pruned(),
    {
        *self = Searcher::with_moves(self.start, self.moveset);
    }

    /// The cube at the next node of the search, if any is left. Every cube yielded is the
    /// start cube after the moves of `path`, a canonical sequence of moves of the moveset.
    pub fn next(&mut self) -> (r: Option<Cube>)
        requires
            old(self).wf(),
        ensures
            final(self).wf(),
            !final(self).is_pruned(),
            final(self).start_cube() == old(self).start_cube(),
            final(self).move_numbers() == old(self).move_numbers(),
            r matches Some(c) ==> final(self).started() && cube_after_moves(final(self).start_cube(), final(self).path(), c)
                && canonical_in(final(self).path(), final(self).move_numbers()),
            !old(self).is_pruned() && !old(self).started() ==> r == Some(old(self).start_cube()) && final(self).path().len() == 0,
            !old(self).is_pruned() && old(self).started() ==>
                ((r is Some) <==> children(old(self).move_numbers(), old(self).path()) != Set::<int>::empty()),
            !old(self).is_pruned() && old(self).started() && r is Some ==>
                final(self).path().drop_last() == old(self).path()
                && final(self).path().len() == old(self).path().len() + 1
                && is_least((final(self).path().last() as u8) as int, children(old(self).move_numbers(), old(self).path())),
            old(self).is_pruned() ==> ((r is None) <==> forall|j: int| 0 <= j < old(self).path().len()
                ==> #[trigger] old(self).later_moves(j) == Set::<int>::empty()),
            old(self).is_pruned() && r is None ==> final(self).path().len() == 0,
            old(self).is_pruned() && r is Some ==> exists|k: int| 0 <= k < old(self).path().len()
                && final(self).path().len() == k + 1
                && final(self).path().take(k) == old(self).path().take(k)
                && is_least((final(self).path()[k] as u8) as int, old(self).later_moves(k))
                && forall|j: int| k < j < old(self).path().len() ==> #[trigger] old(self).later_moves(j) == Set::<int>::empty(),
    {
        proof {
            lemma_stack_frames(self.stack@, self.start, self.moveset.view());
        }
        if !self.pruned {
            return self.descend();
        }
        self.pruned = false;
        let ghost os = self.stack@;
        proof {
            assert(os == old(self).stack@);
            assert forall|j: int| #[trigger] old(self).later_moves(j) == later_of(os, j) by {}
            assert(old(self).path() == stack_path(os));
            lemma_some_later(os);
        }
        let r = self.advance();
        proof {
            assert(self.path() == stack_path(self.stack@));
            if r is Some {
                assert(is_next_sibling(os, self.stack@));
                let k = choose|k: int| 0 <= k < stack_path(os).len()
                    && stack_path(self.stack@).len() == k + 1
                    && stack_path(self.stack@).take(k) == stack_path(os).take(k)
                    && (stack_path(self.stack@)[k] as u8) > (stack_path(os)[k] as u8)
                    && is_least((stack_path(self.stack@)[k] as u8) as int, later_of(os, k))
                    && forall|j: int| k < j < stack_path(os).len() ==> #[trigger] later_of(os, j) == Set::<int>::empty();
                assert(later_of(os, k) == old(self).later_moves(k));
                assert forall|j: int| k < j < old(self).path().len() implies #[trigger] old(self).later_moves(j) == Set::<int>::empty() by {
                    assert(later_of(os, j) == old(self).later_moves(j));
                }
            } else {
                assert forall|j: int| 0 <= j < old(self).path().len() implies #[trigger] old(self).later_moves(j) == Set::<int>::empty() by {
                    assert(later_of(os, j) == old(self).later_moves(j));
                }
            }
            if forall|j: int| 0 <= j < old(self).path().len() ==> #[trigger] old(self).later_moves(j) == Set::<int>::empty() {
                assert forall|j: int| 0 <= j < stack_path(os).len() implies #[trigger] later_of(os, j) == Set::<int>::empty() by {
                    assert(later_of(os, j) == old(self).later_moves(j));
                }
            }
        }
        r
    }

    /// Go one level deeper: to the first move that may follow.
    fn descend(&mut self) -> (r: Option<Cube>)
        requires
            old(self).wf(),
            !old(self).pruned,
        ensures
            final(self).wf(),
            !final(self).pruned,
            final(self).start == old(self).start,
            final(self).moveset == old(self).moveset,
            r matches Some(c) ==> final(self).started() && cube_after_moves(final(self).start, final(self).path(), c)
                && canonical_in(final(self).path(), final(self).moveset.view()),
            !old(self).started() ==> r == Some(old(self).start) && final(self).path().len() == 0,
            old(self).started() ==> ((r is Some) <==> children(old(self).moveset.view(), old(self).path()) != Set::<int>::empty()),
            old(self).started() && r is Some ==>
                final(self).path().drop_last() == old(self).path()
                && final(self).path().len() == old(self).path().len() + 1
                && is_least((final(self).path().last() as u8) as int, children(old(self).moveset.view(), old(self).path())),
    {
        let len = self.stack.len();
        let frame = if len == 0 {
            Frame { moves: Set64::new(), cube: self.start }
        } else if len == 1 {
            proof {
                if self.moveset.bits != 0 {
                    lemma_first_move(self.moveset);
                }
                lemma_least_of(self.moveset);
                assert(stack_path(self.stack@).len() == 0);
            }
            let m = match self.moveset.first() {
                Some(m) => m,
                None => return None,
            };
            proof {
                lemma_move_number(m);
            }
            Frame { moves: self.moveset, cube: self.stack[0].cube.apply_move(m) }
        } else {
            let top = self.stack[len - 1];
            proof {
                assert(self.stack@[len - 1] == top);
                assert(level_ok(self.stack@, self.moveset.view(), len - 1));
                lemma_first_move(top.moves);
            }
            let t = match top.moves.first() {
                Some(t) => t,
                None => return None,
            };
            proof {
                lemma_move_number(t);
            }
            let moves = self.succs[t as usize];
            proof {
                assert(moves.view() == succ_set(self.moveset.view(), move_of(t as int)));
                assert(moves_only(moves.view()));
                let p = stack_path(self.stack@);
                assert(p.last() == frame_move(self.stack@[len - 1]));
                assert(move_of(t as int) == p.last());
                assert(children(self.moveset.view(), p) == moves.view());
            }
            proof {
                if moves.bits != 0 {
                    lemma_first_move(moves);
                }
                lemma_least_of(moves);
            }
            let m = match moves.first() {
                Some(m) => m,
                None => return None,
            };
            proof {
                lemma_move_number(m);
            }
            Frame { moves, cube: top.cube.apply_move(m) }
        };
        let cube = frame.cube;
        let ghost old_stack = self.stack@;
        self.stack.push(frame);
        proof {
            assert(self.stack@ == old_stack.push(frame));
            if len >= 1 {
                assert(self.stack@[len as int - 1] == old_stack[len as int - 1]);
                lemma_full_from_least(frame.moves);
                assert(frame.moves.view() == level_children(self.stack@, self.moveset.view(), len as int));
                assert(level_ok(self.stack@, self.moveset.view(), len as int));
            }
            lemma_stack_push(old_stack, self.start, self.moveset.view(), frame);
            let s = self.stack@;
            lemma_stack_path(s, self.start, self.moveset.view(), s.len() - 1);
            assert(stack_path(s).take(s.len() - 1) =~= stack_path(s));
            if len >= 1 {
                assert(stack_path(s).drop_last() =~= stack_path(old_stack));
                assert(stack_path(s).last() == frame_move(frame));
            }
        }
        Some(cube)
    }

    /// Leave the current node for the next one at its level, or above if its level is done.
    #[verifier::rlimit(100)]
    fn advance(&mut self) -> (r: Option<Cube>)
        requires
            old(self).wf(),
            !old(self).pruned,
        ensures
            final(self).wf(),
            !final(self).pruned,
            final(self).start == old(self).start,
            final(self).moveset == old(self).moveset,
            r matches Some(c) ==> final(self).started() && cube_after_moves(final(self).start, final(self).path(), c)
                && canonical_in(final(self).path(), final(self).moveset.view()),
            r is None <==> !some_later(old(self).stack@),
            r is None ==> final(self).path().len() == 0,
            r is Some ==> is_next_sibling(old(self).stack@, final(self).stack@),
    {
        loop
            invariant
                self.wf(),
                !self.pruned,
                self.start == old(self).start,
                self.moveset == old(self).moveset,
                self.stack@.len() <= old(self).stack@.len(),
                self.stack@ == old(self).stack@.take(self.stack@.len() as int),
                forall|k: int| self.stack@.len() <= k < old(self).stack@.len() && k >= 1 ==> !#[trigger] has_later(old(self).stack@[k]),
            decreases self.stack@.len(),
        {
            let len = self.stack.len();
            if len < 2 {
                proof {
                    assert(!some_later(old(self).stack@));
                    assert(stack_path(self.stack@).len() == 0);
                }
                return None;
            }
            let mut top = self.stack[len - 1];
            proof {
                assert(self.stack@[len - 1] == top);
                assert(level_ok(self.stack@, self.moveset.view(), len - 1));
                lemma_first_move(top.moves);
            }
            let ghost old_top = top;
            top.moves.pop_first();
            proof {
                assert(top.moves.view().subset_of(old_top.moves.view()));
                if top.moves.bits != 0 {
                    lemma_first_move(top.moves);
                }
            }
            match top.moves.first() {
                None => {
                    let ghost old_stack = self.stack@;
                    self.stack.pop();
                    proof {
                        assert(self.stack@ == old_stack.drop_last());
                        lemma_stack_pop(old_stack, self.start, self.moveset.view());
                        lemma_no_bits_in_zero();
                        assert(old_top == old(self).stack@[len - 1]);
                        assert(!has_later(old(self).stack@[len - 1]));
                        assert(self.stack@ =~= old(self).stack@.take(self.stack@.len() as int));
                    }
                },
                Some(m) => {
                    proof {
                        lemma_move_number(m);
                    }
                    let prev = self.stack[len - 2];
                    top.cube = prev.cube.apply_move(m);
                    let ghost old_stack = self.stack@;
                    self.stack.set(len - 1, top);
                    proof {
                        assert(self.stack@ == old_stack.update(len - 1, top));
                        let s = self.stack@;
                        assert(s[len - 2] == prev);
                        assert(old_stack[len - 2] == prev);
                        assert(level_ok(old_stack, self.moveset.view(), len - 1));
                        assert(level_children(s, self.moveset.view(), len - 1) == level_children(old_stack, self.moveset.view(), len - 1));
                        lemma_pop_from_least(level_children(old_stack, self.moveset.view(), len - 1), old_top.moves, top.moves);
                        assert(level_ok(s, self.moveset.view(), len - 1));
                        lemma_stack_set_top(old_stack, self.start, self.moveset.view(), top);
                        lemma_stack_path(s, self.start, self.moveset.view(), s.len() - 1);
                        assert(stack_path(s).take(s.len() - 1) =~= stack_path(s));
                        let os = old(self).stack@;
                        assert(old_top == os[len - 1]);
                        assert(os.take(len as int).update(len - 1, top) =~= s);
                        lemma_next_sibling(os, s, len as int, top);
                        assert(some_later(os));
                    }
                    return Some(top.cube);
                },
            }
        }
    }
}

impl Default for Searcher {
    fn default() -> (r: Searcher)
        ensures
            r.wf(),
            !r.started(),
            !r.is_pruned(),
    {
        Searcher::new(Cube::new(), &Move::all())
    }
}

/// Nineteen to the power `e`, and 1 below 0.
pub open spec fn pow19(e: int) -> int
    decreases e,
{
    if e <= 0 { 1 } else { 19 * pow19(e - 1) }
}

/// The place of a path of at most `n` moves in depth-first order among such paths: its
/// moves, each numbered one more than its own number, as the digits in base 19 of an
/// `n`-digit number, the first move the highest digit and missing moves 0.
pub open spec fn path_code(p: Seq<Move>, n: int) -> int
    decreases p.len(),
{
    if p.len() == 0 {
        0
    } else {
        path_code(p.drop_last(), n) + ((p.last() as u8) + 1) * pow19(n - p.len())
    }
}

proof fn lemma_pow19_step(e: int)
    requires
        e >= 0,
    ensures
        pow19(e) >= 1,
        pow19(e + 1) == 19 * pow19(e),
    decreases e,
{
    if e > 0 {
        lemma_pow19_step(e - 1);
    }
}

/// The moves after level `j` of a path of at most `n` moves add less than one step at
/// level `j`.
proof fn lemma_code_tail(p: Seq<Move>, n: int, j: int)
    requires
        0 <= j <= p.len() <= n,
    ensures
        path_code(p, n) + pow19(n - p.len()) <= path_code(p.take(j), n) + pow19(n - j),
    decreases p.len() - j,
{
    if j < p.len() {
        let q = p.drop_last();
        assert(q.take(j) =~= p.take(j));
        lemma_code_tail(q, n, j);
        lemma_pow19_step(n - p.len());
        lemma_move_number(p.last());
        let w = pow19(n - p.len());
        let x = (p.last() as u8) as int;
        assert((x + 1) * w + w <= 19 * w) by (nonlinear_arith)
            requires
                0 <= x < 18,
                w >= 1,
        ;
    } else {
        assert(p.take(j) =~= p);
    }
}

/// Taking one more move adds to the code.
proof fn lemma_code_push(p: Seq<Move>, n: int, m: Move)
    requires
        p.len() < n,
    ensures
        path_code(p.push(m), n) > path_code(p, n),
{
    assert(p.push(m).drop_last() =~= p);
    lemma_pow19_step(n - p.len() - 1);
    let w = pow19(n - p.len() - 1);
    let x = (m as u8) as int;
    assert((x + 1) * w >= 1) by (nonlinear_arith)
        requires
            x >= 0,
            w >= 1,
    ;
}

/// Moving to a later move at level `k`, and dropping the levels below, adds to the code.
proof fn lemma_code_sibling(p: Seq<Move>, q: Seq<Move>, n: int, k: int)
    requires
        0 <= k < p.len() <= n,
        q.len() == k + 1,
        q.take(k) == p.take(k),
        (q[k] as u8) > (p[k] as u8),
    ensures
        path_code(q, n) > path_code(p, n),
{
    lemma_code_tail(p, n, k + 1);
    lemma_pow19_step(n - p.len());
    lemma_pow19_step(n - k - 1);
    let pk = p.take(k + 1);
    assert(pk.drop_last() =~= p.take(k));
    assert(q.drop_last() =~= q.take(k));
    assert(pk.last() == p[k]);
    let w = pow19(n - k - 1);
    let a = (p[k] as u8) as int;
    let b = (q[k] as u8) as int;
    assert((a + 1) * w + w <= (b + 1) * w) by (nonlinear_arith)
        requires
            a + 1 <= b,
            w >= 1,
    ;
}

/// A path of at most `n` moves has a code below nineteen to the `n`.
proof fn lemma_code_bound(p: Seq<Move>, n: int)
    requires
        p.len() <= n,
    ensures
        0 <= path_code(p, n) < pow19(n),
{
    lemma_code_tail(p, n, 0);
    assert(p.take(0) =~= Seq::<Move>::empty());
    lemma_pow19_step(n - p.len());
    lemma_code_nonneg(p, n);
}

proof fn lemma_code_nonneg(p: Seq<Move>, n: int)
    ensures
        path_code(p, n) >= 0,
    decreases p.len(),
{
    if p.len() > 0 {
        lemma_code_nonneg(p.drop_last(), n);
        lemma_pow19_nonneg(n - p.len());
        let w = pow19(n - p.len());
        let x = (p.last() as u8) as int;
        assert((x + 1) * w >= 0) by (nonlinear_arith)
            requires
                x >= 0,
                w >= 0,
        ;
    }
}

proof fn lemma_pow19_nonneg(e: int)
    ensures
        pow19(e) >= 1,
    decreases e,
{
    if e > 0 {
        lemma_pow19_nonneg(e - 1);
    }
}

/// A search that yields nodes in order of depth: a depth-first search to depth `n`,
/// repeated with `n` one larger when it runs out.
pub struct IDASearcher {
    pub n: usize,
    pub searcher: Searcher,
}

impl IDASearcher {
    /// The invariant of an iterative-deepening search: a valid search whose path is no
    /// longer than the depth, and whose children are skipped once the path reaches it.
    pub open spec fn ida_ok(&self) -> bool {
        &&& self.searcher.wf()
        &&& self.searcher.started() ==> self.searcher.path().len() <= self.n
        &&& self.searcher.started() && self.searcher.path().len() == self.n ==> self.searcher.is_pruned()
    }

    /// A measure of what is left of the search at the current depth: how far the code of
    /// the path is below nineteen to the depth once the search has started, and more than
    /// any such before it starts.
    pub open spec fn progress(&self) -> int {
        if self.searcher.started() {
            pow19(self.n as int) - path_code(self.searcher.path(), self.n as int)
        } else {
            pow19(self.n as int) + 1
        }
    }

    /// An iterative-deepening search from `start` over all moves.
    pub fn new(start: Cube) -> (r: IDASearcher)
        ensures
            r.n == 0,
            r.ida_ok(),
            r.searcher.start_cube() == start,
            !r.searcher.started(),
    {
        IDASearcher { n: 0, searcher: Searcher::new(start, &Move::all()) }
    }

    /// An iterative-deepening search from `start` over the moves `moveset`.
    pub fn new_with_moveset(start: Cube, moveset: &[Move]) -> (r: IDASearcher)
        ensures
            r.n == 0,
            r.ida_ok(),
            r.searcher.start_cube() == start,
            r.searcher.move_numbers() == Set::new(|i: int| exists|k: int| 0 <= k < moveset@.len() && #[trigger] moveset@[k].element_number() == i),
            !r.searcher.started(),
    {
        IDASearcher { n: 0, searcher: Searcher::new(start, moveset) }
    }

    /// The moves taken to the node last yielded.
    pub fn moves(&self) -> (r: SearcherMoves<'_>)
        requires
            self.searcher.wf(),
        ensures
            r.wf(),
            r.path() == self.searcher.path(),
            r.started() == self.searcher.started(),
    {
        self.searcher.moves()
    }

    /// Skip the children of the node last yielded.
    pub fn prune(&mut self)
        ensures
            final(self).searcher.is_pruned(),
            final(self).n == old(self).n,
            final(self).searcher.wf() == old(self).searcher.wf(),
            final(self).searcher.path() == old(self).searcher.path(),
            final(self).searcher.started() == old(self).searcher.started(),
            final(self).searcher.start_cube() == old(self).searcher.start_cube(),
            final(self).searcher.move_numbers() == old(self).searcher.move_numbers(),
    {
        self.searcher.prune();
    }

    /// Whether the node last yielded is at the current depth.
    pub fn is_frontier(&self) -> (r: bool)
        requires
            self.searcher.wf(),
            self.searcher.started(),
        ensures
            r == (self.searcher.path().len() == self.n),
    {
        self.searcher.moves().len() == self.n
    }

    /// The cube at the next node: the next one of the current depth-first search, which is
    /// then pruned at depth `n`; or, when that runs out, the start of a new search one
    /// deeper. At the same depth the path comes later in depth-first order than the one
    /// before, so no node is met twice.
    pub fn next(&mut self) -> (r: Option<Cube>)
        requires
            old(self).searcher.wf(),
            old(self).n < usize::MAX,
        ensures
            final(self).searcher.wf(),
            final(self).searcher.start_cube() == old(self).searcher.start_cube(),
            final(self).searcher.move_numbers() == old(self).searcher.move_numbers(),
            final(self).n == old(self).n || final(self).n == old(self).n + 1,
            r is Some,
            r matches Some(c) ==> final(self).searcher.started()
                && cube_after_moves(final(self).searcher.start_cube(), final(self).searcher.path(), c)
                && canonical_in(final(self).searcher.path(), final(self).searcher.move_numbers()),
            final(self).n == old(self).n + 1 ==> r == Some(old(self).searcher.start_cube())
                && final(self).searcher.path().len() == 0,
            old(self).ida_ok() ==> final(self).ida_ok(),
            old(self).ida_ok() && final(self).n == old(self).n ==> final(self).progress() < old(self).progress(),
            old(self).ida_ok() && final(self).n == old(self).n && old(self).searcher.started() ==>
                path_code(final(self).searcher.path(), final(self).n as int)
                    > path_code(old(self).searcher.path(), old(self).n as int),
    {
        let ghost o = *self;
        if let Some(c) = self.searcher.next() {
            proof {
                if o.ida_ok() {
                    self.lemma_step_forward(o);
                }
            }
            if self.searcher.moves().len() == self.n {
                self.searcher.prune();
            }
            Some(c)
        } else {
            self.n += 1;
            self.searcher.reset();
            self.searcher.next()
        }
    }

    /// One step of the search at a fixed depth keeps the path within the depth and moves
    /// it later in depth-first order.
    proof fn lemma_step_forward(&self, o: IDASearcher)
        requires
            o.ida_ok(),
            self.n == o.n,
            self.searcher.wf(),
            self.searcher.started(),
            o.searcher.wf(),
            !o.searcher.is_pruned() && !o.searcher.started() ==> self.searcher.path().len() == 0,
            !o.searcher.is_pruned() && o.searcher.started() ==>
                self.searcher.path().drop_last() == o.searcher.path()
                && self.searcher.path().len() == o.searcher.path().len() + 1,
            o.searcher.is_pruned() ==> exists|k: int| 0 <= k < o.searcher.path().len()
                && self.searcher.path().len() == k + 1
                && self.searcher.path().take(k) == o.searcher.path().take(k)
                && is_least((self.searcher.path()[k] as u8) as int, o.searcher.later_moves(k)),
        ensures
            self.searcher.path().len() <= self.n,
            o.searcher.started() ==> path_code(self.searcher.path(), self.n as int)
                > path_code(o.searcher.path(), o.n as int),
            self.searcher.path().len() <= self.n ==> 0 <= path_code(self.searcher.path(), self.n as int) < pow19(self.n as int),
    {
        let n = self.n as int;
        let p = o.searcher.path();
        let q = self.searcher.path();
        if o.searcher.is_pruned() {
            assert(o.searcher.started()) by {
                let k = choose|k: int| 0 <= k < o.searcher.path().len()
                    && self.searcher.path().len() == k + 1
                    && self.searcher.path().take(k) == o.searcher.path().take(k)
                    && is_least((self.searcher.path()[k] as u8) as int, o.searcher.later_moves(k));
                assert(p.len() > 0);
                assert(o.searcher.path().len() > 0);
            }
            let k = choose|k: int| 0 <= k < o.searcher.path().len()
                && self.searcher.path().len() == k + 1
                && self.searcher.path().take(k) == o.searcher.path().take(k)
                && is_least((self.searcher.path()[k] as u8) as int, o.searcher.later_moves(k));
            o.searcher.lemma_later_moves();
            assert(o.searcher.later_moves(k).contains((q[k] as u8) as int));
            lemma_code_sibling(p, q, n, k);
        } else if o.searcher.started() {
            assert(p.len() < n);
            assert(q =~= p.push(q.last()));
            lemma_code_push(p, n, q.last());
        }
        lemma_code_bound(q, n);
    }

    /// The cube at the next node at the current depth, found by going on through the
    /// search as `next` does; the depth grows when a search at one depth runs out. Gives
    /// `None` only when the depth has reached `usize::MAX`. At the depth it started at, the
    /// node found comes later in depth-first order than the one before.
    pub fn next_frontier(&mut self) -> (r: Option<Cube>)
        requires
            old(self).ida_ok(),
        ensures
            final(self).ida_ok(),
            final(self).searcher.start_cube() == old(self).searcher.start_cube(),
            final(self).searcher.move_numbers() == old(self).searcher.move_numbers(),
            final(self).n >= old(self).n,
            r is None ==> final(self).n == usize::MAX,
            r matches Some(c) ==> final(self).searcher.started()
                && final(self).searcher.path().len() == final(self).n
                && cube_after_moves(final(self).searcher.start_cube(), final(self).searcher.path(), c)
                && canonical_in(final(self).searcher.path(), final(self).searcher.move_numbers()),
            r is Some && final(self).n == old(self).n && old(self).searcher.started() ==>
                path_code(final(self).searcher.path(), final(self).n as int)
                    > path_code(old(self).searcher.path(), old(self).n as int),
    {
        while self.n < usize::MAX
            invariant
                self.ida_ok(),
                self.searcher.start_cube() == old(self).searcher.start_cube(),
                self.searcher.move_numbers() == old(self).searcher.move_numbers(),
                self.n >= old(self).n,
                self.n == old(self).n && old(self).searcher.started() ==> self.searcher.started()
                    && path_code(self.searcher.path(), self.n as int) >= path_code(old(self).searcher.path(), old(self).n as int),
            decreases usize::MAX - self.n, self.progress(),
        {
            let ghost before = *self;
            let c = self.next().unwrap();
            proof {
                if self.n == before.n {
                    assert(self.progress() < before.progress());
                    if self.searcher.started() {
                        lemma_code_bound(self.searcher.path(), self.n as int);
                    }
                }
            }
            if self.is_frontier() {
                return Some(c);
            }
        }
        None
    }
}

impl Default for IDASearcher {
    fn default() -> (r: IDASearcher)
        ensures
            r.n == 0,
            r.ida_ok(),
            !r.searcher.started(),
    {
        IDASearcher { n: 0, searcher: Searcher::default() }
    }
}

} // verus!
