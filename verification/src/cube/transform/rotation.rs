use vstd::prelude::*;
use vstd::string::*;

verus! {

/// A rotation of the whole cube.
#[derive(Clone, Copy, Debug, PartialEq, Eq, Structural, PartialOrd, Ord, Hash)]
pub enum Rotation {
    X,
    X2,
    X3,
    Y,
    Y2,
    Y3,
    Z,
    Z2,
    Z3,
}

/// The letter of an axis of rotation, numbered 0 (x), 1 (y), 2 (z).
pub open spec fn spec_rotation_letter(k: int) -> char {
    if k == 0 { 'x' } else if k == 1 { 'y' } else { 'z' }
}

/// The standard notation of a rotation.
pub open spec fn spec_rotation_name(r: Rotation) -> Seq<char> {
    let l = spec_rotation_letter(((r as u8) / 3) as int);
    let k = (r as u8) % 3;
    if k == 0 {
        seq![l]
    } else if k == 1 {
        seq![l, '2']
    } else {
        seq![l, '\'']
    }
}

impl Rotation {
    pub fn from_u8(x: u8) -> (r: Rotation)
        requires
            x < 9,
        ensures
            r as u8 == x,
    {
        match x {
            0 => Rotation::X,
            1 => Rotation::X2,
            2 => Rotation::X3,
            3 => Rotation::Y,
            4 => Rotation::Y2,
            5 => Rotation::Y3,
            6 => Rotation::Z,
            7 => Rotation::Z2,
            _ => Rotation::Z3,
        }
    }

    /// The standard notation of the rotation.
    pub fn to_str(&self) -> (r: &'static str)
        ensures
            r@ == spec_rotation_name(*self),
    {
        proof {
            reveal_strlit("x"); reveal_strlit("x2"); reveal_strlit("x'");
            reveal_strlit("y"); reveal_strlit("y2"); reveal_strlit("y'");
            reveal_strlit("z"); reveal_strlit("z2"); reveal_strlit("z'");
        }
        match self {
            Rotation::X => "x",
            Rotation::X2 => "x2",
            Rotation::X3 => "x'",
            Rotation::Y => "y",
            Rotation::Y2 => "y2",
            Rotation::Y3 => "y'",
            Rotation::Z => "z",
            Rotation::Z2 => "z2",
            Rotation::Z3 => "z'",
        }
    }

    /// The rotation written in standard notation by `s`, if any.
    pub fn parse(s: &str) -> (r: Option<Rotation>)
        ensures
            r matches Some(rot) ==> s@ == spec_rotation_name(rot),
            r is None ==> forall|rot: Rotation| s@ != spec_rotation_name(rot),
    {
        let n = s.unicode_len();
        if n < 1 || n > 2 {
            return None;
        }
        let c0 = s.get_char(0);
        let k: u8 = if c0 == 'x' {
            0
        } else if c0 == 'y' {
            1
        } else if c0 == 'z' {
            2
        } else {
            return None;
        };
        if n == 1 {
            return Some(Rotation::from_u8(3 * k));
        }
        let c1 = s.get_char(1);
        if c1 == '2' {
            Some(Rotation::from_u8(3 * k + 1))
        } else if c1 == '\'' {
            Some(Rotation::from_u8(3 * k + 2))
        } else {
            None
        }
    }
}

impl core::convert::TryFrom<&str> for Rotation {
    type Error = String;

    fn try_from(value: &str) -> (r: Result<Rotation, String>)
        ensures
            r matches Ok(rot) ==> value@ == spec_rotation_name(rot),
            r matches Err(e) ==> (forall|rot: Rotation| value@ != spec_rotation_name(rot))
                && e@ == "Invalid rotation: "@ + value@,
    {
        match Rotation::parse(value) {
            Some(r) => Ok(r),
            None => {
                let mut e = String::from_str("Invalid rotation: ");
                e.append(value);
                Err(e)
            },
        }
    }
}

impl vstd::std_specs::convert::TryFromSpecImpl<&str> for Rotation {
    open spec fn obeys_try_from_spec() -> bool {
        false
    }

    open spec fn try_from_spec(value: &str) -> Result<Rotation, String> {
        arbitrary()
    }
}

} // verus!
