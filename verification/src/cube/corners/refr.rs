use vstd::prelude::*;
use crate::cube::corners::co::CO;
use crate::cube::corners::corner::Corner;
use crate::cube::corners::corners::Corners;
use crate::cube::corners::ops::{
    COUD_TO_COFB, COUD_TO_COLR, lane_coud, lane_cp, lane_htrbad, lemma_lane_bits, spec_lane_cofb,
    spec_lane_colr, spec_lane_coud, spec_lane_cp,
};

verus! {

/// View of a single corner slot on the cube.
#[derive(Clone, Copy)]
pub struct CornerRef<'a> {
    pub corners: &'a Corners,
    pub slot: Corner,
}

impl<'a> CornerRef<'a> {
    /// The corner at the slot.
    pub fn piece(&self) -> (r: Corner)
        ensures
            r as u8 == spec_lane_cp(self.corners.0[self.slot as int]),
    {
        let cp = lane_cp(self.corners.0, self.slot as usize);
        proof {
            lemma_lane_bits(self.corners.0[self.slot as int]);
        }
        Corner::from_u8(cp)
    }

    /// Corner orientation with respect to UD axis at the slot.
    pub fn coud(&self) -> (r: CO)
        requires
            spec_lane_coud(self.corners.0[self.slot as int]) < 3,
        ensures
            r as u8 == spec_lane_coud(self.corners.0[self.slot as int]),
    {
        let co = lane_coud(self.corners.0, self.slot as usize);
        CO::from_u8(co)
    }

    /// Corner orientation with respect to FB axis at the slot.
    pub fn cofb(&self) -> (r: CO)
        requires
            spec_lane_coud(self.corners.0[self.slot as int]) < 3,
        ensures
            r as u8 == spec_lane_cofb(self.corners.0[self.slot as int], self.slot as int),
    {
        let slot = self.slot as usize;
        let mut co = self.coud();
        if lane_htrbad(self.corners.0, slot) {
            co = co + CO::from_u8(COUD_TO_COFB[slot]);
        }
        co
    }

    /// Corner orientation with respect to LR axis at the slot.
    pub fn colr(&self) -> (r: CO)
        requires
            spec_lane_coud(self.corners.0[self.slot as int]) < 3,
        ensures
            r as u8 == spec_lane_colr(self.corners.0[self.slot as int], self.slot as int),
    {
        let slot = self.slot as usize;
        let mut co = self.coud();
        if lane_htrbad(self.corners.0, slot) {
            co = co + CO::from_u8(COUD_TO_COLR[slot]);
        }
        co
    }
}

} // verus!
