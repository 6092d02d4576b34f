use vstd::prelude::*;
use crate::cube::face::{Face, spec_face_of_char};
use vstd::string::*;
use crate::cube::slice::Slice;

verus! {

/// An edge on the cube without a specified orientation. Can be used both to refer to
/// a location on the cube, or a particular piece on the cube.
///
/// The numbering puts the slice of an edge in bits 2 and 3.
#[derive(Clone, Copy, Debug, PartialEq, Eq, Structural, PartialOrd, Ord, Hash)]
pub enum Edge {
    UR,
    DR,
    DL,
    UL,
    UF,
    DF,
    DB,
    UB,
    FR,
    BR,
    BL,
    FL,
}

/// The two faces of an edge, in the order of `Face`.
pub open spec fn spec_edge_faces(e: Edge) -> (Face, Face) {
    match e {
        Edge::UR => (Face::U, Face::R),
        Edge::DR => (Face::D, Face::R),
        Edge::DL => (Face::D, Face::L),
        Edge::UL => (Face::U, Face::L),
        Edge::UF => (Face::U, Face::F),
        Edge::DF => (Face::D, Face::F),
        Edge::DB => (Face::D, Face::B),
        Edge::UB => (Face::U, Face::B),
        Edge::FR => (Face::F, Face::R),
        Edge::BR => (Face::B, Face::R),
        Edge::BL => (Face::B, Face::L),
        Edge::FL => (Face::F, Face::L),
    }
}

/// The two faces sorted in the order of `Face`.
pub open spec fn spec_sort2(f: (Face, Face)) -> (Face, Face) {
    if (f.0 as u8) <= (f.1 as u8) { f } else { (f.1, f.0) }
}

/// The edge numbered `x`.
pub open spec fn spec_edge_from(x: int) -> Edge {
    if x == 0 { Edge::UR }
    else if x == 1 { Edge::DR }
    else if x == 2 { Edge::DL }
    else if x == 3 { Edge::UL }
    else if x == 4 { Edge::UF }
    else if x == 5 { Edge::DF }
    else if x == 6 { Edge::DB }
    else if x == 7 { Edge::UB }
    else if x == 8 { Edge::FR }
    else if x == 9 { Edge::BR }
    else if x == 10 { Edge::BL }
    else { Edge::FL }
}

/// An edge's number is below 12 and names it back.
pub proof fn lemma_edge_number(e: Edge)
    ensures
        (e as u8) < 12,
        spec_edge_from((e as u8) as int) == e,
{
}

/// The name of an edge.
pub open spec fn spec_edge_name(e: Edge) -> Seq<char> {
    match e {
        Edge::UR => seq!['U', 'R'],
        Edge::DR => seq!['D', 'R'],
        Edge::DL => seq!['D', 'L'],
        Edge::UL => seq!['U', 'L'],
        Edge::UF => seq!['U', 'F'],
        Edge::DF => seq!['D', 'F'],
        Edge::DB => seq!['D', 'B'],
        Edge::UB => seq!['U', 'B'],
        Edge::FR => seq!['F', 'R'],
        Edge::BR => seq!['B', 'R'],
        Edge::BL => seq!['B', 'L'],
        Edge::FL => seq!['F', 'L'],
    }
}

impl Edge {
    pub fn from_u8(x: u8) -> (r: Edge)
        requires
            x < 12,
        ensures
            r as u8 == x,
    {
        match x {
            0 => Edge::UR,
            1 => Edge::DR,
            2 => Edge::DL,
            3 => Edge::UL,
            4 => Edge::UF,
            5 => Edge::DF,
            6 => Edge::DB,
            7 => Edge::UB,
            8 => Edge::FR,
            9 => Edge::BR,
            10 => Edge::BL,
            _ => Edge::FL,
        }
    }

    /// The name of the edge: its two faces.
    pub fn name(&self) -> (r: &'static str)
        ensures
            r@ == spec_edge_name(*self),
    {
        proof {
            reveal_strlit("UR");
            reveal_strlit("DR");
            reveal_strlit("DL");
            reveal_strlit("UL");
            reveal_strlit("UF");
            reveal_strlit("DF");
            reveal_strlit("DB");
            reveal_strlit("UB");
            reveal_strlit("FR");
            reveal_strlit("BR");
            reveal_strlit("BL");
            reveal_strlit("FL");
        }
        match self {
            Edge::UR => "UR",
            Edge::DR => "DR",
            Edge::DL => "DL",
            Edge::UL => "UL",
            Edge::UF => "UF",
            Edge::DF => "DF",
            Edge::DB => "DB",
            Edge::UB => "UB",
            Edge::FR => "FR",
            Edge::BR => "BR",
            Edge::BL => "BL",
            Edge::FL => "FL",
        }
    }

    /// The slice that the edge belongs to.
    pub fn slice(&self) -> (r: Slice)
        ensures
            r as u8 == (*self as u8) / 4,
    {
        match self {
            Edge::UF | Edge::UB | Edge::DF | Edge::DB => Slice::M,
            Edge::UL | Edge::UR | Edge::DL | Edge::DR => Slice::S,
            Edge::FL | Edge::FR | Edge::BL | Edge::BR => Slice::E,
        }
    }

    /// All edges, in the order of their numbering.
    pub fn all() -> (r: [Edge; 12])
        ensures
            forall|i: int| 0 <= i < 12 ==> #[trigger] r[i] as u8 == i,
    {
        [
            Edge::UR, Edge::DR, Edge::DL, Edge::UL, Edge::UF, Edge::DF,
            Edge::DB, Edge::UB, Edge::FR, Edge::BR, Edge::BL, Edge::FL,
        ]
    }

    /// The edge with the two given faces, in either order.
    pub fn from_faces(f0: Face, f1: Face) -> (r: Result<Edge, ()>)
        ensures
            r matches Ok(e) ==> spec_edge_faces(e) == spec_sort2((f0, f1)),
            r is Err ==> forall|e: Edge| spec_edge_faces(e) != spec_sort2((f0, f1)),
    {
        let (a, b) = if (f0 as u8) <= (f1 as u8) { (f0, f1) } else { (f1, f0) };
        match (a, b) {
            (Face::U, Face::F) => Ok(Edge::UF),
            (Face::U, Face::L) => Ok(Edge::UL),
            (Face::U, Face::B) => Ok(Edge::UB),
            (Face::U, Face::R) => Ok(Edge::UR),
            (Face::D, Face::F) => Ok(Edge::DF),
            (Face::D, Face::L) => Ok(Edge::DL),
            (Face::D, Face::B) => Ok(Edge::DB),
            (Face::D, Face::R) => Ok(Edge::DR),
            (Face::F, Face::R) => Ok(Edge::FR),
            (Face::F, Face::L) => Ok(Edge::FL),
            (Face::B, Face::L) => Ok(Edge::BL),
            (Face::B, Face::R) => Ok(Edge::BR),
            _ => Err(()),
        }
    }
}

impl core::convert::TryFrom<(Face, Face)> for Edge {
    type Error = ();

    fn try_from(f: (Face, Face)) -> (r: Result<Edge, ()>)
        ensures
            r matches Ok(e) ==> spec_edge_faces(e) == spec_sort2(f),
            r is Err ==> forall|e: Edge| spec_edge_faces(e) != spec_sort2(f),
    {
        Edge::from_faces(f.0, f.1)
    }
}

impl vstd::std_specs::convert::TryFromSpecImpl<(Face, Face)> for Edge {
    open spec fn obeys_try_from_spec() -> bool {
        false
    }

    open spec fn try_from_spec(f: (Face, Face)) -> Result<Edge, ()> {
        arbitrary()
    }
}

/// Whether `s` names edge `e`: two face letters, in either order and case.
pub open spec fn spec_edge_named(s: Seq<char>, e: Edge) -> bool {
    s.len() == 2 && match (spec_face_of_char(s[0]), spec_face_of_char(s[1])) {
        (Some(f0), Some(f1)) => spec_edge_faces(e) == spec_sort2((f0, f1)),
        _ => false,
    }
}

impl core::convert::TryFrom<&str> for Edge {
    type Error = ();

    /// The edge named by a string of two face letters, in either order and case.
    fn try_from(s: &str) -> (r: Result<Edge, ()>)
        ensures
            r matches Ok(e) ==> spec_edge_named(s@, e),
            r is Err ==> forall|e: Edge| !spec_edge_named(s@, e),
    {
        if s.unicode_len() != 2 {
            return Err(());
        }
        let f0 = match Face::from_char(s.get_char(0)) {
            Ok(f) => f,
            Err(_) => return Err(()),
        };
        let f1 = match Face::from_char(s.get_char(1)) {
            Ok(f) => f,
            Err(_) => return Err(()),
        };
        Edge::from_faces(f0, f1)
    }
}

impl vstd::std_specs::convert::TryFromSpecImpl<&str> for Edge {
    open spec fn obeys_try_from_spec() -> bool {
        false
    }

    open spec fn try_from_spec(s: &str) -> Result<Edge, ()> {
        arbitrary()
    }
}

} // verus!
