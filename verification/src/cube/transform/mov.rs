use vstd::prelude::*;
use vstd::string::*;
use crate::cube::axis::Axis;
use crate::cube::direction::{Direction, spec_direction};
use crate::cube::face::{Face, spec_face_axis, spec_face_move};

verus! {

/// A face turn.
#[derive(Clone, Copy, Debug, PartialEq, Eq, Structural, PartialOrd, Ord, Hash)]
pub enum Move {
    U,
    U2,
    U3,
    D,
    D2,
    D3,
    F,
    F2,
    F3,
    B,
    B2,
    B3,
    R,
    R2,
    R3,
    L,
    L2,
    L3,
}

/// The letter of a face, upper case.
pub open spec fn spec_face_letter(f: Face) -> char {
    match f {
        Face::U => 'U',
        Face::D => 'D',
        Face::F => 'F',
        Face::B => 'B',
        Face::R => 'R',
        Face::L => 'L',
    }
}

/// The upper-case face letter, if `c` is one.
pub open spec fn spec_face_of_upper(c: char) -> Option<Face> {
    if c == 'U' {
        Some(Face::U)
    } else if c == 'D' {
        Some(Face::D)
    } else if c == 'F' {
        Some(Face::F)
    } else if c == 'B' {
        Some(Face::B)
    } else if c == 'R' {
        Some(Face::R)
    } else if c == 'L' {
        Some(Face::L)
    } else {
        None
    }
}

/// The standard notation of a move: the face letter, then nothing for a
/// clockwise quarter turn, `2` for a half turn, `'` for a counterclockwise turn.
pub open spec fn spec_move_name(m: Move) -> Seq<char> {
    let f = spec_face_letter(m.spec_face());
    let k = (m as u8) % 3;
    if k == 0 {
        seq![f]
    } else if k == 1 {
        seq![f, '2']
    } else {
        seq![f, '\'']
    }
}

/// The move written by `s` in standard notation, if any.
pub open spec fn spec_parse_move(s: Seq<char>) -> Option<Move> {
    if s.len() == 1 {
        match spec_face_of_upper(s[0]) {
            Some(f) => Some(spec_face_move(f, 1)),
            None => None,
        }
    } else if s.len() == 2 && (s[1] == '2' || s[1] == '\'') {
        match spec_face_of_upper(s[0]) {
            Some(f) => Some(spec_face_move(f, if s[1] == '2' { 2 } else { 3 })),
            None => None,
        }
    } else {
        None
    }
}

/// Two moves of the same face, which merge into one move or none.
pub open spec fn spec_cancels(a: Move, b: Move) -> bool {
    (a as u8) / 3 == (b as u8) / 3
}

/// Two moves on the same axis, which commute.
pub open spec fn spec_commutes(a: Move, b: Move) -> bool {
    (a as u8) / 6 == (b as u8) / 6
}

/// The canonical order of a search: `next` may follow `prev` unless they are on
/// one axis and `next` is not a later face of that axis.
pub open spec fn spec_canonically_succeeds(next: Move, prev: Move) -> bool {
    !spec_commutes(next, prev) || (!spec_cancels(next, prev) && (next as u8) > (prev as u8))
}

/// The sum of two moves of one face, or `None` where they cancel or are on
/// different faces.
pub open spec fn spec_move_add(a: Move, b: Move) -> Option<Move> {
    if !spec_cancels(a, b) {
        None
    } else {
        let n = ((a as u8) % 3 + 1 + (b as u8) % 3 + 1) % 4;
        if n == 0 {
            None
        } else {
            Some(spec_face_move(a.spec_face(), n as int))
        }
    }
}

/// Reading the notation of a move gives the move back.
pub proof fn lemma_parse_move_name(m: Move)
    ensures
        spec_parse_move(spec_move_name(m)) == Some(m),
{
}

impl Move {
    pub open spec fn spec_from_index(x: u8) -> Move {
        if x == 0 { Move::U }
        else if x == 1 { Move::U2 }
        else if x == 2 { Move::U3 }
        else if x == 3 { Move::D }
        else if x == 4 { Move::D2 }
        else if x == 5 { Move::D3 }
        else if x == 6 { Move::F }
        else if x == 7 { Move::F2 }
        else if x == 8 { Move::F3 }
        else if x == 9 { Move::B }
        else if x == 10 { Move::B2 }
        else if x == 11 { Move::B3 }
        else if x == 12 { Move::R }
        else if x == 13 { Move::R2 }
        else if x == 14 { Move::R3 }
        else if x == 15 { Move::L }
        else if x == 16 { Move::L2 }
        else { Move::L3 }
    }

    pub open spec fn spec_face(self) -> Face {
        let f = (self as u8) / 3;
        if f == 0 { Face::U }
        else if f == 1 { Face::D }
        else if f == 2 { Face::F }
        else if f == 3 { Face::B }
        else if f == 4 { Face::R }
        else { Face::L }
    }

    pub fn all() -> (r: [Move; 18])
        ensures
            forall|i: int| 0 <= i < 18 ==> #[trigger] r[i] as u8 == i,
    {
        [
            Move::U, Move::U2, Move::U3, Move::D, Move::D2, Move::D3,
            Move::F, Move::F2, Move::F3, Move::B, Move::B2, Move::B3,
            Move::R, Move::R2, Move::R3, Move::L, Move::L2, Move::L3,
        ]
    }

    pub fn from_u8(x: u8) -> (r: Move)
        requires
            x < 18,
        ensures
            r as u8 == x,
            r == Move::spec_from_index(x),
    {
        match x {
            0 => Move::U,
            1 => Move::U2,
            2 => Move::U3,
            3 => Move::D,
            4 => Move::D2,
            5 => Move::D3,
            6 => Move::F,
            7 => Move::F2,
            8 => Move::F3,
            9 => Move::B,
            10 => Move::B2,
            11 => Move::B3,
            12 => Move::R,
            13 => Move::R2,
            14 => Move::R3,
            15 => Move::L,
            16 => Move::L2,
            _ => Move::L3,
        }
    }

    /// The moves that keep the UD domino reduction: all turns of U and D,
    /// half turns of the other faces.
    pub fn drud_moveset() -> (r: [Move; 10])
        ensures
            r@ == seq![Move::U, Move::U2, Move::U3, Move::D, Move::D2, Move::D3,
                Move::F2, Move::B2, Move::R2, Move::L2],
    {
        [Move::U, Move::U2, Move::U3, Move::D, Move::D2, Move::D3, Move::F2, Move::B2, Move::R2, Move::L2]
    }

    /// The half turns.
    pub fn htr_moveset() -> (r: [Move; 6])
        ensures
            r@ == seq![Move::U2, Move::D2, Move::F2, Move::B2, Move::R2, Move::L2],
    {
        [Move::U2, Move::D2, Move::F2, Move::B2, Move::R2, Move::L2]
    }

    /// The face that this move turns.
    pub fn face(&self) -> (r: Face)
        ensures
            r == self.spec_face(),
            r as u8 == (*self as u8) / 3,
    {
        match self {
            Move::U | Move::U2 | Move::U3 => Face::U,
            Move::D | Move::D2 | Move::D3 => Face::D,
            Move::F | Move::F2 | Move::F3 => Face::F,
            Move::B | Move::B2 | Move::B3 => Face::B,
            Move::R | Move::R2 | Move::R3 => Face::R,
            Move::L | Move::L2 | Move::L3 => Face::L,
        }
    }

    /// The axis perpendicular to the face that this move turns.
    pub fn axis(self) -> (r: Axis)
        ensures
            r == spec_face_axis(self.spec_face()),
    {
        self.face().axis()
    }

    /// The face that the move turns, and the number of clockwise turns needed on that face
    /// to achieve the move.
    pub fn decompose(&self) -> (r: (Face, i32))
        ensures
            r.0 == self.spec_face(),
            r.1 == (*self as u8) % 3 + 1,
            spec_face_move(r.0, r.1 as int) == *self,
    {
        let n: i32 = match self {
            Move::U | Move::D | Move::F | Move::B | Move::R | Move::L => 1,
            Move::U2 | Move::D2 | Move::F2 | Move::B2 | Move::R2 | Move::L2 => 2,
            Move::U3 | Move::D3 | Move::F3 | Move::B3 | Move::R3 | Move::L3 => 3,
        };
        (self.face(), n)
    }

    /// The number of clockwise quarter turns of the move, as a direction.
    pub fn direction(self) -> (r: Direction)
        ensures
            r as u8 == (self as u8) % 3 + 1,
            r == spec_direction((self as u8) % 3 + 1),
    {
        match self {
            Move::U | Move::D | Move::F | Move::B | Move::R | Move::L => Direction::Clockwise,
            Move::U2 | Move::D2 | Move::F2 | Move::B2 | Move::R2 | Move::L2 => Direction::Double,
            Move::U3 | Move::D3 | Move::F3 | Move::B3 | Move::R3 | Move::L3 => Direction::Counterclockwise,
        }
    }

    pub fn is_half_turn(&self) -> (r: bool)
        ensures
            r == ((*self as u8) % 3 == 1),
    {
        matches!(self, Move::U2 | Move::D2 | Move::F2 | Move::B2 | Move::R2 | Move::L2)
    }

    pub fn is_clockwise(&self) -> (r: bool)
        ensures
            r == ((*self as u8) % 3 == 0),
    {
        matches!(self, Move::U | Move::D | Move::F | Move::B | Move::R | Move::L)
    }

    pub fn is_clockwise_turn(&self) -> (r: bool)
        ensures
            r == ((*self as u8) % 3 == 0),
    {
        self.is_clockwise()
    }

    pub fn is_counterclockwise_turn(&self) -> (r: bool)
        ensures
            r == ((*self as u8) % 3 == 2),
    {
        matches!(self, Move::U3 | Move::D3 | Move::F3 | Move::B3 | Move::R3 | Move::L3)
    }

    pub fn is_quarter_turn(&self) -> (r: bool)
        ensures
            r == ((*self as u8) % 3 != 1),
    {
        self.is_clockwise() || self.is_counterclockwise_turn()
    }

    /// Whether the two moves turn the same face.
    pub fn cancels_with(&self, other: &Self) -> (r: bool)
        ensures
            r == spec_cancels(*self, *other),
    {
        self.face() == other.face()
    }

    /// Whether the two moves turn faces of the same axis.
    pub fn commutes_with(&self, other: &Self) -> (r: bool)
        ensures
            r == spec_commutes(*self, *other),
    {
        self.face() == other.face() || self.face() == other.face().opposite()
    }

    /// Whether `self` may follow `prev` in a canonical sequence.
    pub fn canonically_succeeds(self, prev: Self) -> (r: bool)
        ensures
            r == spec_canonically_succeeds(self, prev),
    {
        !self.commutes_with(&prev) || (!self.cancels_with(&prev) && (self as u8) > (prev as u8))
    }

    /// Whether `next` may follow `self` in a canonical sequence.
    pub fn canonically_precedes(self, next: Self) -> (r: bool)
        ensures
            r == spec_canonically_succeeds(next, self),
    {
        next.canonically_succeeds(self)
    }

    /// The standard notation of the move.
    pub fn to_str(&self) -> (r: &'static str)
        ensures
            r@ == spec_move_name(*self),
    {
        proof {
            reveal_strlit("U"); reveal_strlit("U2"); reveal_strlit("U'");
            reveal_strlit("D"); reveal_strlit("D2"); reveal_strlit("D'");
            reveal_strlit("F"); reveal_strlit("F2"); reveal_strlit("F'");
            reveal_strlit("B"); reveal_strlit("B2"); reveal_strlit("B'");
            reveal_strlit("R"); reveal_strlit("R2"); reveal_strlit("R'");
            reveal_strlit("L"); reveal_strlit("L2"); reveal_strlit("L'");
        }
        match self {
            Move::U => "U",
            Move::U2 => "U2",
            Move::U3 => "U'",
            Move::D => "D",
            Move::D2 => "D2",
            Move::D3 => "D'",
            Move::F => "F",
            Move::F2 => "F2",
            Move::F3 => "F'",
            Move::B => "B",
            Move::B2 => "B2",
            Move::B3 => "B'",
            Move::R => "R",
            Move::R2 => "R2",
            Move::R3 => "R'",
            Move::L => "L",
            Move::L2 => "L2",
            Move::L3 => "L'",
        }
    }

    /// The move written in standard notation by `s`, if any.
    pub fn parse(s: &str) -> (r: Option<Move>)
        ensures
            r == spec_parse_move(s@),
    {
        let n = s.unicode_len();
        if n == 1 {
            let c = s.get_char(0);
            match Move::face_of_upper(c) {
                Some(f) => Some(Move::face_quarter(f, 1)),
                None => None,
            }
        } else if n == 2 {
            let c1 = s.get_char(1);
            if c1 == '2' || c1 == '\'' {
                let c0 = s.get_char(0);
                match Move::face_of_upper(c0) {
                    Some(f) => Some(Move::face_quarter(f, if c1 == '2' { 2 } else { 3 })),
                    None => None,
                }
            } else {
                None
            }
        } else {
            None
        }
    }

    fn face_of_upper(c: char) -> (r: Option<Face>)
        ensures
            r == spec_face_of_upper(c),
    {
        if c == 'U' {
            Some(Face::U)
        } else if c == 'D' {
            Some(Face::D)
        } else if c == 'F' {
            Some(Face::F)
        } else if c == 'B' {
            Some(Face::B)
        } else if c == 'R' {
            Some(Face::R)
        } else if c == 'L' {
            Some(Face::L)
        } else {
            None
        }
    }

    fn face_quarter(f: Face, n: u8) -> (r: Move)
        requires
            1 <= n <= 3,
        ensures
            r == spec_face_move(f, n as int),
    {
        Move::from_u8(3 * (f as u8) + n - 1)
    }
}

impl core::convert::TryFrom<&str> for Move {
    type Error = String;

    fn try_from(value: &str) -> (r: Result<Move, String>)
        ensures
            r matches Ok(m) ==> spec_parse_move(value@) == Some(m),
            r matches Err(e) ==> spec_parse_move(value@) is None
                && e@ == "Invalid move: "@ + value@,
    {
        match Move::parse(value) {
            Some(m) => Ok(m),
            None => {
                let mut e = String::from_str("Invalid move: ");
                e.append(value);
                Err(e)
            },
        }
    }
}

impl vstd::std_specs::convert::TryFromSpecImpl<&str> for Move {
    open spec fn obeys_try_from_spec() -> bool {
        false
    }

    open spec fn try_from_spec(value: &str) -> Result<Move, String> {
        arbitrary()
    }
}

impl core::ops::Add<Move> for Move {
    type Output = Option<Move>;

    fn add(self, rhs: Move) -> (r: Option<Move>)
        ensures
            r == spec_move_add(self, rhs),
    {
        let (m1, n1) = self.decompose();
        let (m2, n2) = rhs.decompose();
        if m1 != m2 {
            return None;
        }
        let n = (n1 + n2) % 4;
        match (m1, n) {
            (Face::F, 1) => Some(Move::F),
            (Face::F, 2) => Some(Move::F2),
            (Face::F, 3) => Some(Move::F3),
            (Face::B, 1) => Some(Move::B),
            (Face::B, 2) => Some(Move::B2),
            (Face::B, 3) => Some(Move::B3),
            (Face::L, 1) => Some(Move::L),
            (Face::L, 2) => Some(Move::L2),
            (Face::L, 3) => Some(Move::L3),
            (Face::R, 1) => Some(Move::R),
            (Face::R, 2) => Some(Move::R2),
            (Face::R, 3) => Some(Move::R3),
            (Face::U, 1) => Some(Move::U),
            (Face::U, 2) => Some(Move::U2),
            (Face::U, 3) => Some(Move::U3),
            (Face::D, 1) => Some(Move::D),
            (Face::D, 2) => Some(Move::D2),
            (Face::D, 3) => Some(Move::D3),
            (_, _) => None,
        }
    }
}

impl vstd::std_specs::ops::AddSpecImpl<Move> for Move {
    open spec fn obeys_add_spec() -> bool {
        true
    }

    open spec fn add_req(self, rhs: Move) -> bool {
        true
    }

    open spec fn add_spec(self, rhs: Move) -> Option<Move> {
        spec_move_add(self, rhs)
    }
}

} // verus!
