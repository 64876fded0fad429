use vstd::prelude::*;

use crate::geometry::{ceil_div, lemma_ceil_div_properties, spec_ceil_div, ImageDescriptor};
use crate::stage::StageKind;

verus! {

/// The square workgroup edge every stage kernel is dispatched with.
pub const WORKGROUP_DIM: u32 = 16;

/// One step of a frame's command sequence. The host layer records these in
/// order into one command encoder for the frame's slot: the input copy from
/// the slot's staging buffer, one compute dispatch per enabled stage pass
/// over the slot's shared working texture, and the final copy into the
/// slot's readback buffer.
#[derive(Clone, Copy, Debug, PartialEq, Eq, Structural)]
pub enum FrameOp {
    /// Copy the caller's pixels from the staging buffer to the working texture.
    UploadInput,
    /// Dispatch one stage kernel over a `groups_x` by `groups_y` grid.
    /// `direction` selects the axis for the defect stage's two passes.
    StagePass { kind: StageKind, groups_x: u32, groups_y: u32, direction: u32 },
    /// Copy the working texture into the host-mappable readback buffer.
    CopyToReadback,
}

/// The dispatch recorded for one pass of `kind` over a frame of geometry
/// `d`: enough whole workgroups per axis to cover every pixel.
pub open spec fn spec_stage_pass(kind: StageKind, d: ImageDescriptor, direction: u32) -> FrameOp {
    FrameOp::StagePass {
        kind,
        groups_x: spec_ceil_div(d.width as int, WORKGROUP_DIM as int) as u32,
        groups_y: spec_ceil_div(d.height as int, WORKGROUP_DIM as int) as u32,
        direction,
    }
}

/// The full command sequence of one frame: upload, the enabled stages in
/// the fixed order offset, gain, defect (the defect kernel dispatching once
/// per axis), and the readback copy. With no stage enabled the sequence
/// still uploads and copies through, so processing is identical whether or
/// not correction is configured.
pub open spec fn spec_frame_plan(
    offset_on: bool,
    gain_on: bool,
    defect_on: bool,
    d: ImageDescriptor,
) -> Seq<FrameOp> {
    seq![FrameOp::UploadInput] + (if offset_on {
        seq![spec_stage_pass(StageKind::Offset, d, 0)]
    } else {
        Seq::empty()
    }) + (if gain_on {
        seq![spec_stage_pass(StageKind::Gain, d, 0)]
    } else {
        Seq::empty()
    }) + (if defect_on {
        seq![spec_stage_pass(StageKind::Defect, d, 0), spec_stage_pass(StageKind::Defect, d, 1)]
    } else {
        Seq::empty()
    }) + seq![FrameOp::CopyToReadback]
}

/// Builds the command sequence for one frame from the enabled-stage flags.
pub fn build_frame_commands(
    offset_on: bool,
    gain_on: bool,
    defect_on: bool,
    d: &ImageDescriptor,
) -> (plan: Vec<FrameOp>)
    requires
        d.wf(),
    ensures
        plan@ == spec_frame_plan(offset_on, gain_on, defect_on, *d),
{
    let groups_x = ceil_div(d.width, WORKGROUP_DIM);
    let groups_y = ceil_div(d.height, WORKGROUP_DIM);
    let mut plan: Vec<FrameOp> = Vec::new();
    plan.push(FrameOp::UploadInput);
    if offset_on {
        plan.push(
            FrameOp::StagePass { kind: StageKind::Offset, groups_x, groups_y, direction: 0 },
        );
    }
    if gain_on {
        plan.push(FrameOp::StagePass { kind: StageKind::Gain, groups_x, groups_y, direction: 0 });
    }
    if defect_on {
        plan.push(
            FrameOp::StagePass { kind: StageKind::Defect, groups_x, groups_y, direction: 0 },
        );
        plan.push(
            FrameOp::StagePass { kind: StageKind::Defect, groups_x, groups_y, direction: 1 },
        );
    }
    plan.push(FrameOp::CopyToReadback);
    proof {
        lemma_ceil_div_properties(d.width as int, WORKGROUP_DIM as int);
        lemma_ceil_div_properties(d.height as int, WORKGROUP_DIM as int);
        assert(plan@ =~= spec_frame_plan(offset_on, gain_on, defect_on, *d));
    }
    plan
}

/// Every dispatch in a frame plan covers the whole image: the workgroup
/// grid times the workgroup edge reaches past both dimensions, so the last
/// partial tile still covers the remaining pixels.
pub proof fn lemma_plan_covers_image(
    offset_on: bool,
    gain_on: bool,
    defect_on: bool,
    d: ImageDescriptor,
)
    requires
        d.wf(),
    ensures
        forall|i: int|
            0 <= i < spec_frame_plan(offset_on, gain_on, defect_on, d).len() ==> match #[trigger]
                spec_frame_plan(offset_on, gain_on, defect_on, d)[i] {
                FrameOp::StagePass { groups_x, groups_y, .. } => {
                    &&& d.width <= groups_x * WORKGROUP_DIM
                    &&& d.height <= groups_y * WORKGROUP_DIM
                },
                _ => true,
            },
{
    lemma_ceil_div_properties(d.width as int, WORKGROUP_DIM as int);
    lemma_ceil_div_properties(d.height as int, WORKGROUP_DIM as int);
    assert(spec_ceil_div(d.width as int, WORKGROUP_DIM as int) <= d.width);
    assert(spec_ceil_div(d.height as int, WORKGROUP_DIM as int) <= d.height);
}

} // verus!
