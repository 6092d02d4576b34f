use vstd::prelude::*;
use crate::cube::face::{Face, spec_face_of_char};
use vstd::string::*;
use crate::cube::tetrad::Tetrad;

verus! {

/// A corner on the cube without a specified orientation. Can be used both to refer to
/// a location on the cube, or a particular piece on the cube.
///
/// The numbering puts the HTR tetrad of a corner in its lowest bit.
#[derive(Clone, Copy, Debug, PartialEq, Eq, Structural, PartialOrd, Ord, Hash)]
pub enum Corner {
    UBL,
    UBR,
    UFR,
    UFL,
    DFL,
    DFR,
    DBR,
    DBL,
}

/// The three faces of a corner, in the order of `Face`.
pub open spec fn spec_corner_faces(c: Corner) -> (Face, Face, Face) {
    match c {
        Corner::UBL => (Face::U, Face::B, Face::L),
        Corner::UBR => (Face::U, Face::B, Face::R),
        Corner::UFR => (Face::U, Face::F, Face::R),
        Corner::UFL => (Face::U, Face::F, Face::L),
        Corner::DFL => (Face::D, Face::F, Face::L),
        Corner::DFR => (Face::D, Face::F, Face::R),
        Corner::DBR => (Face::D, Face::B, Face::R),
        Corner::DBL => (Face::D, Face::B, Face::L),
    }
}

/// Three faces sorted in the order of `Face`.
pub open spec fn spec_sort3(f: (Face, Face, Face)) -> (Face, Face, Face) {
    let (a, b, c) = f;
    let (a, b) = if (a as u8) <= (b as u8) { (a, b) } else { (b, a) };
    let (b, c) = if (b as u8) <= (c as u8) { (b, c) } else { (c, b) };
    let (a, b) = if (a as u8) <= (b as u8) { (a, b) } else { (b, a) };
    (a, b, c)
}

/// The corner numbered `x`.
pub open spec fn spec_corner_from(x: int) -> Corner {
    if x == 0 { Corner::UBL }
    else if x == 1 { Corner::UBR }
    else if x == 2 { Corner::UFR }
    else if x == 3 { Corner::UFL }
    else if x == 4 { Corner::DFL }
    else if x == 5 { Corner::DFR }
    else if x == 6 { Corner::DBR }
    else { Corner::DBL }
}

/// A corner's number is below 8 and names it back.
pub proof fn lemma_corner_number(c: Corner)
    ensures
        (c as u8) < 8,
        spec_corner_from((c as u8) as int) == c,
{
}

/// The name of a corner.
pub open spec fn spec_corner_name(c: Corner) -> Seq<char> {
    match c {
        Corner::UBL => seq!['U', 'B', 'L'],
        Corner::UBR => seq!['U', 'B', 'R'],
        Corner::UFR => seq!['U', 'F', 'R'],
        Corner::UFL => seq!['U', 'F', 'L'],
        Corner::DFL => seq!['D', 'F', 'L'],
        Corner::DFR => seq!['D', 'F', 'R'],
        Corner::DBR => seq!['D', 'B', 'R'],
        Corner::DBL => seq!['D', 'B', 'L'],
    }
}

impl Corner {
    /// All corners, in the order of their numbering.
    pub fn all() -> (r: [Corner; 8])
        ensures
            forall|i: int| 0 <= i < 8 ==> #[trigger] r[i] as u8 == i,
    {
        [
            Corner::from_u8(0),
            Corner::from_u8(1),
            Corner::from_u8(2),
            Corner::from_u8(3),
            Corner::from_u8(4),
            Corner::from_u8(5),
            Corner::from_u8(6),
            Corner::from_u8(7),
        ]
    }

    pub fn from_u8(x: u8) -> (r: Corner)
        requires
            x < 8,
        ensures
            r as u8 == x,
    {
        match x {
            0 => Corner::UBL,
            1 => Corner::UBR,
            2 => Corner::UFR,
            3 => Corner::UFL,
            4 => Corner::DFL,
            5 => Corner::DFR,
            6 => Corner::DBR,
            _ => Corner::DBL,
        }
    }

    /// The name of the corner: its three faces, U or D first.
    pub fn name(&self) -> (r: &'static str)
        ensures
            r@ == spec_corner_name(*self),
    {
        proof {
            reveal_strlit("UBL"); reveal_strlit("UBR"); reveal_strlit("UFR"); reveal_strlit("UFL");
            reveal_strlit("DFL"); reveal_strlit("DFR"); reveal_strlit("DBR"); reveal_strlit("DBL");
        }
        match self {
            Corner::UBL => "UBL",
            Corner::UBR => "UBR",
            Corner::UFR => "UFR",
            Corner::UFL => "UFL",
            Corner::DFL => "DFL",
            Corner::DFR => "DFR",
            Corner::DBR => "DBR",
            Corner::DBL => "DBL",
        }
    }

    /// The HTR tetrad that the corner belongs to.
    pub fn tetrad(&self) -> (r: Tetrad)
        ensures
            r as u8 == (*self as u8) % 2,
    {
        Tetrad::from_u8((*self as u8) % 2)
    }

    /// The corner with the three given faces, in any order.
    pub fn from_faces(f0: Face, f1: Face, f2: Face) -> (r: Result<Corner, ()>)
        ensures
            r matches Ok(c) ==> spec_corner_faces(c) == spec_sort3((f0, f1, f2)),
            r is Err ==> forall|c: Corner| spec_corner_faces(c) != spec_sort3((f0, f1, f2)),
    {
        let (a, b) = if (f0 as u8) <= (f1 as u8) { (f0, f1) } else { (f1, f0) };
        let (b, c) = if (b as u8) <= (f2 as u8) { (b, f2) } else { (f2, b) };
        let (a, b) = if (a as u8) <= (b as u8) { (a, b) } else { (b, a) };
        match (a, b, c) {
            (Face::U, Face::F, Face::R) => Ok(Corner::UFR),
            (Face::U, Face::F, Face::L) => Ok(Corner::UFL),
            (Face::U, Face::B, Face::L) => Ok(Corner::UBL),
            (Face::U, Face::B, Face::R) => Ok(Corner::UBR),
            (Face::D, Face::F, Face::R) => Ok(Corner::DFR),
            (Face::D, Face::F, Face::L) => Ok(Corner::DFL),
            (Face::D, Face::B, Face::L) => Ok(Corner::DBL),
            (Face::D, Face::B, Face::R) => Ok(Corner::DBR),
            _ => Err(()),
        }
    }
}

impl core::convert::TryFrom<(Face, Face, Face)> for Corner {
    type Error = ();

    fn try_from(f: (Face, Face, Face)) -> (r: Result<Corner, ()>)
        ensures
            r matches Ok(c) ==> spec_corner_faces(c) == spec_sort3(f),
            r is Err ==> forall|c: Corner| spec_corner_faces(c) != spec_sort3(f),
    {
        Corner::from_faces(f.0, f.1, f.2)
    }
}

impl vstd::std_specs::convert::TryFromSpecImpl<(Face, Face, Face)> for Corner {
    open spec fn obeys_try_from_spec() -> bool {
        false
    }

    open spec fn try_from_spec(f: (Face, Face, Face)) -> Result<Corner, ()> {
        arbitrary()
    }
}

/// Whether `s` names corner `c`: three face letters, in any order and case.
pub open spec fn spec_corner_named(s: Seq<char>, c: Corner) -> bool {
    s.len() == 3 && match (spec_face_of_char(s[0]), spec_face_of_char(s[1]), spec_face_of_char(s[2])) {
        (Some(f0), Some(f1), Some(f2)) => spec_corner_faces(c) == spec_sort3((f0, f1, f2)),
        _ => false,
    }
}

impl core::convert::TryFrom<&str> for Corner {
    type Error = ();

    /// The corner named by a string of three face letters, in any order and case.
    fn try_from(s: &str) -> (r: Result<Corner, ()>)
        ensures
            r matches Ok(c) ==> spec_corner_named(s@, c),
            r is Err ==> forall|c: Corner| !spec_corner_named(s@, c),
    {
        if s.unicode_len() != 3 {
            return Err(());
        }
        let f0 = match Face::from_char(s.get_char(0)) {
            Ok(f) => f,
            Err(_) => return Err(()),
        };
        let f1 = match Face::from_char(s.get_char(1)) {
            Ok(f) => f,
            Err(_) => return Err(()),
        };
        let f2 = match Face::from_char(s.get_char(2)) {
            Ok(f) => f,
            Err(_) => return Err(()),
        };
        Corner::from_faces(f0, f1, f2)
    }
}

impl vstd::std_specs::convert::TryFromSpecImpl<&str> for Corner {
    open spec fn obeys_try_from_spec() -> bool {
        false
    }

    open spec fn try_from_spec(s: &str) -> Result<Corner, ()> {
        arbitrary()
    }
}

} // verus!
