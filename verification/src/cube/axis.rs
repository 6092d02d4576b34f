use vstd::prelude::*;
use crate::cube::face::Face;
use crate::cube::slice::Slice;

verus! {

/// An axis of the cube, numbered as the slice perpendicular to it.
#[derive(Clone, Copy, Debug, PartialEq, Eq, Structural, PartialOrd, Ord, Hash)]
pub enum Axis {
    FB,
    LR,
    UD,
}

/// The face of an axis that comes first in the order of faces.
pub open spec fn spec_axis_primary(a: Axis) -> Face {
    match a {
        Axis::FB => Face::F,
        Axis::LR => Face::R,
        Axis::UD => Face::U,
    }
}

/// The face of an axis that comes second in the order of faces.
pub open spec fn spec_axis_secondary(a: Axis) -> Face {
    match a {
        Axis::FB => Face::B,
        Axis::LR => Face::L,
        Axis::UD => Face::D,
    }
}

impl Axis {
    /// The face of this axis that comes first in the order of faces.
    pub fn primary(self) -> (r: Face)
        ensures
            r == spec_axis_primary(self),
    {
        match self {
            Axis::FB => Face::F,
            Axis::LR => Face::R,
            Axis::UD => Face::U,
        }
    }

    /// The face of this axis that comes second in the order of faces.
    pub fn secondary(self) -> (r: Face)
        ensures
            r == spec_axis_secondary(self),
    {
        match self {
            Axis::FB => Face::B,
            Axis::LR => Face::L,
            Axis::UD => Face::D,
        }
    }

    /// The slice that this axis runs perpendicular to.
    pub fn slice(self) -> (r: Slice)
        ensures
            r as u8 == self as u8,
    {
        Slice::from_u8(self as u8)
    }

    pub fn from_u8(x: u8) -> (r: Axis)
        requires
            x < 3,
        ensures
            r as u8 == x,
    {
        match x {
            0 => Axis::FB,
            1 => Axis::LR,
            _ => Axis::UD,
        }
    }
}

} // verus!
