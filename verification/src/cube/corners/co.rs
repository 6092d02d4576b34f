use vstd::prelude::*;

verus! {

/// Orientation of a corner.
#[derive(Clone, Copy, Debug, PartialEq, Eq, Structural, PartialOrd, Ord, Hash)]
pub enum CO {
    /// The corner is oriented.
    Solved,
    /// The corner is twisted counterclockwise from the solved orientation.
    CCW,
    /// The corner is twisted clockwise from the solved orientation.
    CW,
}

impl CO {
    /// The twist which undoes this one.
    pub fn inverse(&self) -> (r: CO)
        ensures
            r as u8 == (3 - (*self as u8)) % 3,
    {
        match self {
            CO::Solved => CO::Solved,
            CO::CCW => CO::CW,
            CO::CW => CO::CCW,
        }
    }

    pub fn from_u8(x: u8) -> (r: CO)
        requires
            x < 3,
        ensures
            r as u8 == x,
    {
        match x {
            0 => CO::Solved,
            1 => CO::CCW,
            _ => CO::CW,
        }
    }
}

impl core::ops::Add<CO> for CO {
    type Output = CO;

    fn add(self, rhs: CO) -> (r: CO)
        ensures
            r as u8 == ((self as u8) + (rhs as u8)) % 3,
    {
        let sum = self as u8 + rhs as u8;
        CO::from_u8(sum % 3)
    }
}

impl vstd::std_specs::ops::AddSpecImpl<CO> for CO {
    open spec fn obeys_add_spec() -> bool {
        false
    }

    open spec fn add_req(self, rhs: CO) -> bool {
        true
    }

    open spec fn add_spec(self, rhs: CO) -> CO {
        arbitrary()
    }
}

} // verus!
