use vstd::prelude::*;
use crate::cube::axis::Axis;
use crate::cube::edges::edge::Edge;

verus! {

/// A middle slice of the cube, numbered as the axis it runs perpendicular to.
#[derive(Clone, Copy, Debug, PartialEq, Eq, Structural, PartialOrd, Ord, Hash)]
pub enum Slice {
    S,
    M,
    E,
}

impl Slice {
    /// The four edges that lie in this slice.
    pub fn edges(self) -> (r: [Edge; 4])
        ensures
            forall|i: int| 0 <= i < 4 ==> (#[trigger] r[i] as u8) / 4 == self as u8,
            forall|i: int, j: int| 0 <= i < j < 4 ==> r[i] != r[j],
    {
        match self {
            Slice::S => [Edge::UL, Edge::UR, Edge::DL, Edge::DR],
            Slice::M => [Edge::UF, Edge::UB, Edge::DF, Edge::DB],
            Slice::E => [Edge::FL, Edge::FR, Edge::BL, Edge::BR],
        }
    }

    pub fn from_u8(x: u8) -> (r: Slice)
        requires
            x < 3,
        ensures
            r as u8 == x,
    {
        match x {
            0 => Slice::S,
            1 => Slice::M,
            _ => Slice::E,
        }
    }

    /// The axis that the slice runs perpendicular to.
    pub fn perp(self) -> (r: Axis)
        ensures
            r as u8 == self as u8,
    {
        Axis::from_u8(self as u8)
    }
}

} // verus!
