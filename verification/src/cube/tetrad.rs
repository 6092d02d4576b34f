use vstd::prelude::*;

verus! {

/// One of the two tetrads of corners which half-turns keep apart.
#[derive(Clone, Copy, Debug, PartialEq, Eq, Structural, PartialOrd, Ord, Hash)]
pub enum Tetrad {
    A,
    B,
}

impl Tetrad {
    pub fn from_u8(x: u8) -> (r: Tetrad)
        requires
            x < 2,
        ensures
            r as u8 == x,
    {
        match x {
            0 => Tetrad::A,
            _ => Tetrad::B,
        }
    }
}

} // verus!
