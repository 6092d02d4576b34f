use vstd::prelude::*;
use vstd::string::*;
use crate::cube::slice::Slice;

verus! {

/// A turn of a middle slice.
#[derive(Clone, Copy, Debug, PartialEq, Eq, Structural, PartialOrd, Ord, Hash)]
pub enum SliceMove {
    M,
    M2,
    M3,
    E,
    E2,
    E3,
    S,
    S2,
    S3,
}

/// The letter of a slice move family, numbered 0 (M), 1 (E), 2 (S).
pub open spec fn spec_slice_letter(k: int) -> char {
    if k == 0 { 'M' } else if k == 1 { 'E' } else { 'S' }
}

/// The standard notation of a slice move.
pub open spec fn spec_slice_move_name(m: SliceMove) -> Seq<char> {
    let l = spec_slice_letter(((m as u8) / 3) as int);
    let k = (m as u8) % 3;
    if k == 0 {
        seq![l]
    } else if k == 1 {
        seq![l, '2']
    } else {
        seq![l, '\'']
    }
}

/// The slice turned by a slice move.
pub open spec fn spec_slice_of(m: SliceMove) -> Slice {
    let k = (m as u8) / 3;
    if k == 0 { Slice::M } else if k == 1 { Slice::E } else { Slice::S }
}

impl SliceMove {
    pub fn all() -> (r: [SliceMove; 9])
        ensures
            forall|i: int| 0 <= i < 9 ==> #[trigger] r[i] as u8 == i,
    {
        [
            SliceMove::M, SliceMove::M2, SliceMove::M3,
            SliceMove::E, SliceMove::E2, SliceMove::E3,
            SliceMove::S, SliceMove::S2, SliceMove::S3,
        ]
    }

    pub fn from_u8(x: u8) -> (r: SliceMove)
        requires
            x < 9,
        ensures
            r as u8 == x,
    {
        match x {
            0 => SliceMove::M,
            1 => SliceMove::M2,
            2 => SliceMove::M3,
            3 => SliceMove::E,
            4 => SliceMove::E2,
            5 => SliceMove::E3,
            6 => SliceMove::S,
            7 => SliceMove::S2,
            _ => SliceMove::S3,
        }
    }

    /// The slice that this move turns.
    pub fn slice(self) -> (r: Slice)
        ensures
            r == spec_slice_of(self),
    {
        match self {
            SliceMove::M | SliceMove::M2 | SliceMove::M3 => Slice::M,
            SliceMove::E | SliceMove::E2 | SliceMove::E3 => Slice::E,
            SliceMove::S | SliceMove::S2 | SliceMove::S3 => Slice::S,
        }
    }

    /// The slice that the move turns, and the number of quarter turns of the move.
    pub fn decompose(self) -> (r: (Slice, i32))
        ensures
            r.0 == spec_slice_of(self),
            r.1 == (self as u8) % 3 + 1,
    {
        let n: i32 = match self {
            SliceMove::M | SliceMove::E | SliceMove::S => 1,
            SliceMove::M2 | SliceMove::E2 | SliceMove::S2 => 2,
            SliceMove::M3 | SliceMove::E3 | SliceMove::S3 => 3,
        };
        (self.slice(), n)
    }

    /// The standard notation of the slice move.
    pub fn to_str(&self) -> (r: &'static str)
        ensures
            r@ == spec_slice_move_name(*self),
    {
        proof {
            reveal_strlit("M"); reveal_strlit("M2"); reveal_strlit("M'");
            reveal_strlit("E"); reveal_strlit("E2"); reveal_strlit("E'");
            reveal_strlit("S"); reveal_strlit("S2"); reveal_strlit("S'");
        }
        match self {
            SliceMove::M => "M",
            SliceMove::M2 => "M2",
            SliceMove::M3 => "M'",
            SliceMove::E => "E",
            SliceMove::E2 => "E2",
            SliceMove::E3 => "E'",
            SliceMove::S => "S",
            SliceMove::S2 => "S2",
            SliceMove::S3 => "S'",
        }
    }

    /// The slice move written in standard notation by `s`, if any.
    pub fn parse(s: &str) -> (r: Option<SliceMove>)
        ensures
            r matches Some(m) ==> s@ == spec_slice_move_name(m),
            r is None ==> forall|m: SliceMove| s@ != spec_slice_move_name(m),
    {
        let n = s.unicode_len();
        if n < 1 || n > 2 {
            return None;
        }
        let c0 = s.get_char(0);
        let k: u8 = if c0 == 'M' {
            0
        } else if c0 == 'E' {
            1
        } else if c0 == 'S' {
            2
        } else {
            return None;
        };
        if n == 1 {
            return Some(SliceMove::from_u8(3 * k));
        }
        let c1 = s.get_char(1);
        if c1 == '2' {
            Some(SliceMove::from_u8(3 * k + 1))
        } else if c1 == '\'' {
            Some(SliceMove::from_u8(3 * k + 2))
        } else {
            None
        }
    }
}

impl core::convert::TryFrom<&str> for SliceMove {
    type Error = String;

    fn try_from(value: &str) -> (r: Result<SliceMove, String>)
        ensures
            r matches Ok(m) ==> value@ == spec_slice_move_name(m),
            r matches Err(e) ==> (forall|m: SliceMove| value@ != spec_slice_move_name(m))
                && e@ == "Invalid slice move: "@ + value@,
    {
        match SliceMove::parse(value) {
            Some(m) => Ok(m),
            None => {
                let mut e = String::from_str("Invalid slice move: ");
                e.append(value);
                Err(e)
            },
        }
    }
}

impl vstd::std_specs::convert::TryFromSpecImpl<&str> for SliceMove {
    open spec fn obeys_try_from_spec() -> bool {
        false
    }

    open spec fn try_from_spec(value: &str) -> Result<SliceMove, String> {
        arbitrary()
    }
}

} // verus!
