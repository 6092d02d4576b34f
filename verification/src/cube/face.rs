use vstd::prelude::*;
use crate::cube::axis::Axis;
use vstd::string::*;
use crate::cube::direction::Direction;
use crate::cube::transform::mov::Move;

verus! {

/// A face of the cube.
#[derive(Clone, Copy, Debug, PartialEq, Eq, Structural, PartialOrd, Ord, Hash)]
pub enum Face {
    U,
    D,
    F,
    B,
    R,
    L,
}

/// The face opposite to `f`.
pub open spec fn spec_opposite(f: Face) -> Face {
    match f {
        Face::U => Face::D,
        Face::D => Face::U,
        Face::F => Face::B,
        Face::B => Face::F,
        Face::R => Face::L,
        Face::L => Face::R,
    }
}

/// The axis perpendicular to `f`.
pub open spec fn spec_face_axis(f: Face) -> Axis {
    match f {
        Face::U | Face::D => Axis::UD,
        Face::F | Face::B => Axis::FB,
        Face::R | Face::L => Axis::LR,
    }
}

/// The move turning face `f` by `n` clockwise quarter turns (`n` in 1..=3).
pub open spec fn spec_face_move(f: Face, n: int) -> Move {
    Move::spec_from_index((3 * (f as int) + n - 1) as u8)
}

/// The letter naming a face, upper case or lower case.
pub open spec fn spec_face_of_char(c: char) -> Option<Face> {
    if c == 'U' || c == 'u' {
        Some(Face::U)
    } else if c == 'D' || c == 'd' {
        Some(Face::D)
    } else if c == 'F' || c == 'f' {
        Some(Face::F)
    } else if c == 'B' || c == 'b' {
        Some(Face::B)
    } else if c == 'R' || c == 'r' {
        Some(Face::R)
    } else if c == 'L' || c == 'l' {
        Some(Face::L)
    } else {
        None
    }
}

impl Face {
    pub fn opposite(&self) -> (r: Face)
        ensures
            r == spec_opposite(*self),
    {
        match self {
            Face::U => Face::D,
            Face::D => Face::U,
            Face::F => Face::B,
            Face::B => Face::F,
            Face::R => Face::L,
            Face::L => Face::R,
        }
    }

    /// The axis perpendicular to this face.
    pub fn axis(self) -> (r: Axis)
        ensures
            r == spec_face_axis(self),
    {
        match self {
            Face::U | Face::D => Axis::UD,
            Face::F | Face::B => Axis::FB,
            Face::R | Face::L => Axis::LR,
        }
    }

    /// The move which turns this face in the given direction, or `None` for
    /// the zero direction.
    pub fn turn(self, d: Direction) -> (r: Option<Move>)
        ensures
            d == Direction::Zero ==> r is None,
            d != Direction::Zero ==> r == Some(spec_face_move(self, d as int)),
    {
        match (self, d) {
            (_, Direction::Zero) => None,
            (Face::F, Direction::Clockwise) => Some(Move::F),
            (Face::F, Direction::Double) => Some(Move::F2),
            (Face::F, Direction::Counterclockwise) => Some(Move::F3),
            (Face::B, Direction::Clockwise) => Some(Move::B),
            (Face::B, Direction::Double) => Some(Move::B2),
            (Face::B, Direction::Counterclockwise) => Some(Move::B3),
            (Face::L, Direction::Clockwise) => Some(Move::L),
            (Face::L, Direction::Double) => Some(Move::L2),
            (Face::L, Direction::Counterclockwise) => Some(Move::L3),
            (Face::R, Direction::Clockwise) => Some(Move::R),
            (Face::R, Direction::Double) => Some(Move::R2),
            (Face::R, Direction::Counterclockwise) => Some(Move::R3),
            (Face::U, Direction::Clockwise) => Some(Move::U),
            (Face::U, Direction::Double) => Some(Move::U2),
            (Face::U, Direction::Counterclockwise) => Some(Move::U3),
            (Face::D, Direction::Clockwise) => Some(Move::D),
            (Face::D, Direction::Double) => Some(Move::D2),
            (Face::D, Direction::Counterclockwise) => Some(Move::D3),
        }
    }

    pub fn from_u8(x: u8) -> (r: Face)
        requires
            x < 6,
        ensures
            r as u8 == x,
    {
        match x {
            0 => Face::U,
            1 => Face::D,
            2 => Face::F,
            3 => Face::B,
            4 => Face::R,
            _ => Face::L,
        }
    }

    /// The face named by a letter, in either case.
    pub fn from_char(c: char) -> (r: Result<Face, ()>)
        ensures
            r matches Ok(f) ==> spec_face_of_char(c) == Some(f),
            r is Err ==> spec_face_of_char(c) is None,
    {
        if c == 'U' || c == 'u' {
            Ok(Face::U)
        } else if c == 'D' || c == 'd' {
            Ok(Face::D)
        } else if c == 'F' || c == 'f' {
            Ok(Face::F)
        } else if c == 'B' || c == 'b' {
            Ok(Face::B)
        } else if c == 'R' || c == 'r' {
            Ok(Face::R)
        } else if c == 'L' || c == 'l' {
            Ok(Face::L)
        } else {
            Err(())
        }
    }
}

impl core::convert::TryFrom<char> for Face {
    type Error = ();

    fn try_from(c: char) -> (r: Result<Face, ()>)
        ensures
            r == (match spec_face_of_char(c) {
                Some(f) => Ok::<Face, ()>(f),
                None => Err(()),
            }),
    {
        match Face::from_char(c) {
            Ok(f) => Ok(f),
            Err(_) => Err(()),
        }
    }
}

impl vstd::std_specs::convert::TryFromSpecImpl<char> for Face {
    open spec fn obeys_try_from_spec() -> bool {
        true
    }

    open spec fn try_from_spec(c: char) -> Result<Face, ()> {
        match spec_face_of_char(c) {
            Some(f) => Ok(f),
            None => Err(()),
        }
    }
}

impl core::convert::TryFrom<&str> for Face {
    type Error = ();

    /// The face named by a one-letter string, in either case.
    fn try_from(s: &str) -> (r: Result<Face, ()>)
        ensures
            r == (if s@.len() == 1 {
                match spec_face_of_char(s@[0]) {
                    Some(f) => Ok::<Face, ()>(f),
                    None => Err(()),
                }
            } else {
                Err(())
            }),
    {
        if s.unicode_len() != 1 {
            return Err(());
        }
        let c = s.get_char(0);
        match Face::from_char(c) {
            Ok(f) => Ok(f),
            Err(_) => Err(()),
        }
    }
}

impl vstd::std_specs::convert::TryFromSpecImpl<&str> for Face {
    open spec fn obeys_try_from_spec() -> bool {
        false
    }

    open spec fn try_from_spec(s: &str) -> Result<Face, ()> {
        arbitrary()
    }
}

} // verus!
