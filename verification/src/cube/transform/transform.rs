use vstd::prelude::*;
use vstd::string::*;
use crate::cube::transform::mov::{Move, spec_parse_move};
use crate::cube::transform::rotation::{Rotation, spec_rotation_name};
use crate::cube::transform::slice_move::{SliceMove, spec_slice_move_name};

verus! {

/// A face turn, a rotation of the whole cube, or a slice turn.
#[derive(Clone, Copy, Debug, PartialEq, Eq, Structural, PartialOrd, Ord, Hash)]
pub enum Transform {
    Move(Move),
    Rotation(Rotation),
    SliceMove(SliceMove),
}

impl Transform {
    /// The standard notation of the transform.
    pub fn to_str(&self) -> (r: &'static str)
        ensures
            *self matches Transform::Rotation(x) ==> r@ == spec_rotation_name(x),
            *self matches Transform::SliceMove(x) ==> r@ == spec_slice_move_name(x),
            *self matches Transform::Move(x) ==> spec_parse_move(r@) == Some(x),
    {
        match self {
            Transform::Move(m) => {
                let s = m.to_str();
                proof {
                    crate::cube::transform::mov::lemma_parse_move_name(*m);
                }
                s
            },
            Transform::Rotation(r) => r.to_str(),
            Transform::SliceMove(m) => m.to_str(),
        }
    }
}

impl core::convert::TryFrom<&str> for Transform {
    type Error = String;

    /// A face turn if `value` writes one, else a rotation, else a slice turn.
    fn try_from(value: &str) -> (r: Result<Transform, String>)
        ensures
            spec_parse_move(value@) matches Some(m) ==> r == Ok::<Transform, String>(Transform::Move(m)),
            r matches Ok(Transform::Move(m)) ==> spec_parse_move(value@) == Some(m),
            r matches Ok(Transform::Rotation(x)) ==> spec_parse_move(value@) is None
                && value@ == spec_rotation_name(x),
            r matches Ok(Transform::SliceMove(x)) ==> spec_parse_move(value@) is None
                && (forall|rot: Rotation| value@ != spec_rotation_name(rot))
                && value@ == spec_slice_move_name(x),
            r matches Err(e) ==> spec_parse_move(value@) is None
                && (forall|rot: Rotation| value@ != spec_rotation_name(rot))
                && (forall|m: SliceMove| value@ != spec_slice_move_name(m))
                && e@ == "Invalid transform: "@ + value@,
    {
        if let Some(m) = Move::parse(value) {
            Ok(Transform::Move(m))
        } else if let Some(r) = Rotation::parse(value) {
            Ok(Transform::Rotation(r))
        } else if let Some(m) = SliceMove::parse(value) {
            Ok(Transform::SliceMove(m))
        } else {
            let mut e = String::from_str("Invalid transform: ");
            e.append(value);
            Err(e)
        }
    }
}

impl vstd::std_specs::convert::TryFromSpecImpl<&str> for Transform {
    open spec fn obeys_try_from_spec() -> bool {
        false
    }

    open spec fn try_from_spec(value: &str) -> Result<Transform, String> {
        arbitrary()
    }
}

/// Rotation names and slice-turn names each name one transform, and none of them writes a
/// face turn or a transform of the other kind.
pub proof fn lemma_transform_names()
    ensures
        forall|a: Rotation, b: Rotation| #[trigger] spec_rotation_name(a) == #[trigger] spec_rotation_name(b) ==> a == b,
        forall|a: SliceMove, b: SliceMove| #[trigger] spec_slice_move_name(a) == #[trigger] spec_slice_move_name(b) ==> a == b,
        forall|r: Rotation| #[trigger] spec_parse_move(spec_rotation_name(r)) is None,
        forall|m: SliceMove| #[trigger] spec_parse_move(spec_slice_move_name(m)) is None,
        forall|r: Rotation, m: SliceMove| #[trigger] spec_rotation_name(r) != #[trigger] spec_slice_move_name(m),
{
    assert forall|a: Rotation, b: Rotation| #[trigger] spec_rotation_name(a) == #[trigger] spec_rotation_name(b) implies a == b by {
        let na = spec_rotation_name(a);
        let nb = spec_rotation_name(b);
        assert(na.len() == nb.len());
        assert(na[0] == nb[0]);
        if na.len() == 2 {
            assert(na[1] == nb[1]);
        }
        assert((a as u8) == (b as u8));
    }
    assert forall|a: SliceMove, b: SliceMove| #[trigger] spec_slice_move_name(a) == #[trigger] spec_slice_move_name(b) implies a == b by {
        let na = spec_slice_move_name(a);
        let nb = spec_slice_move_name(b);
        assert(na.len() == nb.len());
        assert(na[0] == nb[0]);
        if na.len() == 2 {
            assert(na[1] == nb[1]);
        }
        assert((a as u8) == (b as u8));
    }
    assert forall|r: Rotation, m: SliceMove| #[trigger] spec_rotation_name(r) != #[trigger] spec_slice_move_name(m) by {
        if spec_rotation_name(r) == spec_slice_move_name(m) {
            assert(spec_rotation_name(r)[0] == spec_slice_move_name(m)[0]);
        }
    }
}

} // verus!
