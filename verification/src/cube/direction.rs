use vstd::prelude::*;

verus! {

/// A number of clockwise quarter turns, modulo four.
#[derive(Clone, Copy, Debug, PartialEq, Eq, Structural, PartialOrd, Ord)]
pub enum Direction {
    Zero,
    Clockwise,
    Double,
    Counterclockwise,
}

/// The direction of `n` clockwise quarter turns.
pub open spec fn spec_direction(n: int) -> Direction {
    let k = n % 4;
    if k == 0 {
        Direction::Zero
    } else if k == 1 {
        Direction::Clockwise
    } else if k == 2 {
        Direction::Double
    } else {
        Direction::Counterclockwise
    }
}

impl Direction {
    pub fn from_u8(x: u8) -> (r: Direction)
        requires
            x < 4,
        ensures
            r as u8 == x,
            r == spec_direction(x as int),
    {
        match x {
            0 => Direction::Zero,
            1 => Direction::Clockwise,
            2 => Direction::Double,
            _ => Direction::Counterclockwise,
        }
    }

    /// The direction which undoes this one.
    pub fn inverse(self) -> (r: Direction)
        ensures
            r == spec_direction(4 - self as int),
    {
        match self {
            Direction::Zero => Direction::Zero,
            Direction::Clockwise => Direction::Counterclockwise,
            Direction::Counterclockwise => Direction::Clockwise,
            Direction::Double => Direction::Double,
        }
    }

    /// This direction repeated `n` times. The product is taken in `usize` and
    /// then truncated to `u8`; the truncated
    /// value must name a direction.
    pub fn repeat(self, n: usize) -> (r: Direction)
        requires
            (self as int) * n <= usize::MAX,
            ((self as int) * n) % 256 < 4,
        ensures
            r == spec_direction(((self as int) * n) % 256),
    {
        let k = self as usize;
        let p = k * n;
        let b = (p % 256) as u8;
        Direction::from_u8(b)
    }
}

impl core::ops::Add<Direction> for Direction {
    type Output = Direction;

    fn add(self, rhs: Direction) -> (r: Direction)
        ensures
            r == spec_direction(self as int + rhs as int),
    {
        Direction::from_u8(((self as u8) + (rhs as u8)) % 4)
    }
}

impl vstd::std_specs::ops::AddSpecImpl<Direction> for Direction {
    open spec fn obeys_add_spec() -> bool {
        true
    }

    open spec fn add_req(self, rhs: Direction) -> bool {
        true
    }

    open spec fn add_spec(self, rhs: Direction) -> Direction {
        spec_direction(self as int + rhs as int)
    }
}

impl core::ops::AddAssign<Direction> for Direction {
    fn add_assign(&mut self, rhs: Direction)
        ensures
            *final(self) == spec_direction(*old(self) as int + rhs as int),
    {
        *self = *self + rhs;
    }
}

impl core::ops::Sub<Direction> for Direction {
    type Output = Direction;

    fn sub(self, rhs: Direction) -> (r: Direction)
        ensures
            r == spec_direction(self as int - rhs as int + 4),
    {
        self + rhs.inverse()
    }
}

impl vstd::std_specs::ops::SubSpecImpl<Direction> for Direction {
    open spec fn obeys_sub_spec() -> bool {
        true
    }

    open spec fn sub_req(self, rhs: Direction) -> bool {
        true
    }

    open spec fn sub_spec(self, rhs: Direction) -> Direction {
        spec_direction(self as int - rhs as int + 4)
    }
}

} // verus!
