use vstd::prelude::*;

use crate::geometry::ImageDescriptor;

verus! {

/// The three correction stage kinds, in their fixed application order:
/// dark-current removal must precede gain normalization, and both precede
/// defect interpolation, since a defective pixel is estimated from its
/// already-corrected neighbors.
#[derive(Clone, Copy, Debug, PartialEq, Eq, Structural)]
pub enum StageKind {
    Offset,
    Gain,
    Defect,
}

/// The offset/dark-current stage: a per-pixel dark map uploaded once at
/// enable time, plus the constant offset added back after subtraction.
#[derive(Clone, Debug)]
pub struct OffsetStage {
    pub dark_map: Vec<u16>,
    pub offset: u32,
}

impl OffsetStage {
    pub open spec fn wf(self, d: ImageDescriptor) -> bool {
        self.dark_map@.len() == d.spec_pixel_count()
    }
}

/// The gain/flat-field stage: a per-pixel gain map uploaded once at enable
/// time, and the normalization factor — the map's minimum — computed once by
/// the reduction pass that runs when the stage is enabled.
#[derive(Clone, Debug)]
pub struct GainStage {
    pub gain_map: Vec<u16>,
    pub normalizer: u16,
}

impl GainStage {
    pub open spec fn wf(self, d: ImageDescriptor) -> bool {
        &&& self.gain_map@.len() == d.spec_pixel_count()
        &&& is_minimum(self.normalizer, self.gain_map@)
    }
}

/// `m` is the smallest value occurring in `s`.
pub open spec fn is_minimum(m: u16, s: Seq<u16>) -> bool {
    &&& forall|j: int| 0 <= j < s.len() ==> m <= #[trigger] s[j]
    &&& exists|j: int| 0 <= j < s.len() && m == s[j]
}

/// The defect stage: a per-pixel mask uploaded once at enable time, marking
/// with value one the pixels to re-estimate from their neighborhood.
#[derive(Clone, Debug)]
pub struct DefectStage {
    pub defect_map: Vec<u16>,
}

impl DefectStage {
    pub open spec fn wf(self, d: ImageDescriptor) -> bool {
        self.defect_map@.len() == d.spec_pixel_count()
    }
}

} // verus!
