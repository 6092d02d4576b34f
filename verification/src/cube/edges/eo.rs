use vstd::prelude::*;

verus! {

/// Orientation of an edge.
#[derive(Clone, Copy, Debug, PartialEq, Eq, Structural, PartialOrd, Ord, Hash)]
pub enum EO {
    /// The edge is oriented.
    Solved,
    /// The edge is unoriented.
    Flipped,
}

impl EO {
    /// The other orientation.
    pub fn inverse(&self) -> (r: EO)
        ensures
            r as u8 == 1 - (*self as u8),
    {
        match self {
            EO::Solved => EO::Flipped,
            EO::Flipped => EO::Solved,
        }
    }

    pub fn from_u8(x: u8) -> (r: EO)
        requires
            x < 2,
        ensures
            r as u8 == x,
    {
        if x == 0 { EO::Solved } else { EO::Flipped }
    }
}

impl core::ops::Add<EO> for EO {
    type Output = EO;

    fn add(self, rhs: EO) -> (r: EO)
        ensures
            r as u8 == ((self as u8) + (rhs as u8)) % 2,
    {
        EO::from_u8(((self as u8) + (rhs as u8)) % 2)
    }
}

impl vstd::std_specs::ops::AddSpecImpl<EO> for EO {
    open spec fn obeys_add_spec() -> bool {
        false
    }

    open spec fn add_req(self, rhs: EO) -> bool {
        true
    }

    open spec fn add_spec(self, rhs: EO) -> EO {
        arbitrary()
    }
}

} // verus!
