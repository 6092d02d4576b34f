use vstd::prelude::*;

verus! {

/// A center piece of the cube.
#[derive(Clone, Copy, Debug, PartialEq, Eq, Structural, PartialOrd, Ord, Hash)]
pub enum Center {
    U,
    R,
    F,
    D,
    L,
    B,
}

impl Center {
    /// All centers, in the order of their numbering.
    pub fn all() -> (r: [Center; 6])
        ensures
            forall|i: int| 0 <= i < 6 ==> #[trigger] r[i] as u8 == i,
    {
        [
            Center::from_u8(0),
            Center::from_u8(1),
            Center::from_u8(2),
            Center::from_u8(3),
            Center::from_u8(4),
            Center::from_u8(5),
        ]
    }

    pub fn from_u8(x: u8) -> (r: Center)
        requires
            x < 6,
        ensures
            r as u8 == x,
    {
        match x {
            0 => Center::U,
            1 => Center::R,
            2 => Center::F,
            3 => Center::D,
            4 => Center::L,
            _ => Center::B,
        }
    }
}

} // verus!
