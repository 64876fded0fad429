use vstd::prelude::*;

use vstd::arithmetic::div_mod::lemma_small_mod;
use vstd::slice::slice_to_vec;

use crate::compose::{build_frame_commands, spec_frame_plan, FrameOp};
use crate::defect::{apply_defect_correction, defect_stage_output};
use crate::error::MyError;
use crate::gain::{apply_gain_correction, gain_stage_output, map_minimum};
use crate::geometry::ImageDescriptor;
use crate::offset::{apply_offset_correction, offset_corrected, offset_stage_output};
use crate::ring::{after_claim, claim_ok, partially_claimed, FrameRing, SlotState};
use crate::stage::{DefectStage, GainStage, OffsetStage, StageKind};

verus! {

/// The correction engine for one pipeline: the frame geometry fixed at
/// construction, at most one enabled stage per kind, and the ring of frame
/// slots that guards multi-frame submissions. The host layer owns the
/// device, queue and buffers; every decision — validation, stage
/// composition, slot claims — is made here.
#[derive(Debug)]
pub struct Corrections {
    pub descriptor: ImageDescriptor,
    pub offset_stage: Option<OffsetStage>,
    pub gain_stage: Option<GainStage>,
    pub defect_stage: Option<DefectStage>,
    pub ring: FrameRing,
}

impl Corrections {
    pub open spec fn wf(self) -> bool {
        &&& self.descriptor.wf()
        &&& match self.offset_stage {
            Some(s) => s.wf(self.descriptor),
            None => true,
        }
        &&& match self.gain_stage {
            Some(s) => s.wf(self.descriptor),
            None => true,
        }
        &&& match self.defect_stage {
            Some(s) => s.wf(self.descriptor),
            None => true,
        }
        &&& self.ring.wf()
    }

    /// The offset stage's configuration: its dark map and constant offset.
    pub open spec fn offset_view(self) -> Option<(Seq<u16>, u32)> {
        match self.offset_stage {
            Some(s) => Some((s.dark_map@, s.offset)),
            None => None,
        }
    }

    /// The gain stage's configuration: its map and normalization factor.
    pub open spec fn gain_view(self) -> Option<(Seq<u16>, u16)> {
        match self.gain_stage {
            Some(s) => Some((s.gain_map@, s.normalizer)),
            None => None,
        }
    }

    /// The defect stage's configuration: its mask.
    pub open spec fn defect_view(self) -> Option<Seq<u16>> {
        match self.defect_stage {
            Some(s) => Some(s.defect_map@),
            None => None,
        }
    }

    /// What one processed frame holds: the input run through each enabled
    /// stage in the fixed order offset, gain, defect, each stage reading
    /// the previous stage's output from the shared working buffer.
    pub open spec fn spec_corrected_image(self, image: Seq<u16>) -> Seq<u16> {
        let after_offset = match self.offset_view() {
            Some(cfg) => offset_stage_output(image, cfg.0, cfg.1),
            None => image,
        };
        let after_gain = match self.gain_view() {
            Some(cfg) => gain_stage_output(after_offset, cfg.0, cfg.1),
            None => after_offset,
        };
        match self.defect_view() {
            Some(mask) => defect_stage_output(
                after_gain,
                mask,
                self.descriptor.width as int,
                self.descriptor.height as int,
            ),
            None => after_gain,
        }
    }

    /// Builds an engine for 16-bit single-channel frames of the given
    /// dimensions, with `buffer_count` frame slots and no stage enabled.
    /// Dimensions and slot count are validated host-side before any device
    /// resource would be allocated.
    pub fn new(image_width: u32, image_height: u32, buffer_count: u32) -> (r: Result<
        Corrections,
        MyError,
    >)
        ensures
            match r {
                Ok(c) => {
                    &&& c.wf()
                    &&& c.descriptor == (ImageDescriptor {
                        width: image_width,
                        height: image_height,
                        element_size: 2,
                    })
                    &&& c.offset_view() is None
                    &&& c.gain_view() is None
                    &&& c.defect_view() is None
                    &&& c.ring.spec_slots() == partially_claimed(buffer_count as int, 0)
                    &&& c.ring.spec_head() == 0
                    &&& 0 < buffer_count
                },
                Err(e) => {
                    &&& e == MyError::InvalidImageData
                    &&& (!(ImageDescriptor {
                        width: image_width,
                        height: image_height,
                        element_size: 2,
                    }).wf() || buffer_count == 0)
                },
            },
    {
        let descriptor = match ImageDescriptor::new(image_width, image_height, 2) {
            Ok(d) => d,
            Err(e) => {
                return Err(e);
            },
        };
        let ring = match FrameRing::new(buffer_count) {
            Ok(ring) => ring,
            Err(e) => {
                return Err(e);
            },
        };
        Ok(
            Corrections {
                descriptor,
                offset_stage: None,
                gain_stage: None,
                defect_stage: None,
                ring,
            },
        )
    }

    /// How many frames can be in flight at once.
    pub fn capacity(&self) -> (n: usize)
        ensures
            n == self.ring.spec_slots().len(),
    {
        self.ring.capacity()
    }

    /// Enables (or atomically replaces) the offset stage. The dark map must
    /// hold exactly one value per pixel; a mismatched map is refused before
    /// any upload would happen, and the engine is left unchanged.
    pub fn enable_dark_map_correction(&mut self, dark_map: &[u16], offset: u32) -> (r: Result<
        (),
        MyError,
    >)
        requires
            old(self).wf(),
        ensures
            final(self).wf(),
            final(self).descriptor == old(self).descriptor,
            final(self).gain_view() == old(self).gain_view(),
            final(self).defect_view() == old(self).defect_view(),
            final(self).ring == old(self).ring,
            match r {
                Ok(_) => {
                    &&& dark_map@.len() == old(self).descriptor.spec_pixel_count()
                    &&& final(self).offset_view() == Some((dark_map@, offset))
                },
                Err(e) => {
                    &&& e == MyError::InvalidTextureData
                    &&& dark_map@.len() != old(self).descriptor.spec_pixel_count()
                    &&& *final(self) == *old(self)
                },
            },
    {
        let pixel_count = self.descriptor.pixel_count();
        if dark_map.len() != pixel_count as usize {
            return Err(MyError::InvalidTextureData);
        }
        self.offset_stage = Some(OffsetStage { dark_map: slice_to_vec(dark_map), offset });
        Ok(())
    }

    /// Enables (or atomically replaces) the gain stage: validates the map,
    /// and runs the one-time reduction that computes the normalization
    /// factor — the map's minimum — before the stage is stored.
    pub fn enable_gain_correction(&mut self, gain_map: &[u16]) -> (r: Result<(), MyError>)
        requires
            old(self).wf(),
        ensures
            final(self).wf(),
            final(self).descriptor == old(self).descriptor,
            final(self).offset_view() == old(self).offset_view(),
            final(self).defect_view() == old(self).defect_view(),
            final(self).ring == old(self).ring,
            match r {
                Ok(_) => {
                    &&& gain_map@.len() == old(self).descriptor.spec_pixel_count()
                    &&& match final(self).gain_view() {
                        Some(cfg) => {
                            &&& cfg.0 == gain_map@
                            &&& crate::stage::is_minimum(cfg.1, gain_map@)
                        },
                        None => false,
                    }
                },
                Err(e) => {
                    &&& e == MyError::InvalidTextureData
                    &&& gain_map@.len() != old(self).descriptor.spec_pixel_count()
                    &&& *final(self) == *old(self)
                },
            },
    {
        let pixel_count = self.descriptor.pixel_count();
        if gain_map.len() != pixel_count as usize {
            return Err(MyError::InvalidTextureData);
        }
        let map = slice_to_vec(gain_map);
        proof {
            assert(0 < self.descriptor.spec_pixel_count()) by (nonlinear_arith)
                requires
                    0 < self.descriptor.width && 0 < self.descriptor.height,
            ;
        }
        let normalizer = map_minimum(&map);
        self.gain_stage = Some(GainStage { gain_map: map, normalizer });
        Ok(())
    }

    /// Enables (or atomically replaces) the defect stage. The mask must
    /// hold exactly one value per pixel.
    pub fn enable_defect_correction(&mut self, defect_map: &[u16]) -> (r: Result<(), MyError>)
        requires
            old(self).wf(),
        ensures
            final(self).wf(),
            final(self).descriptor == old(self).descriptor,
            final(self).offset_view() == old(self).offset_view(),
            final(self).gain_view() == old(self).gain_view(),
            final(self).ring == old(self).ring,
            match r {
                Ok(_) => {
                    &&& defect_map@.len() == old(self).descriptor.spec_pixel_count()
                    &&& final(self).defect_view() == Some(defect_map@)
                },
                Err(e) => {
                    &&& e == MyError::InvalidTextureData
                    &&& defect_map@.len() != old(self).descriptor.spec_pixel_count()
                    &&& *final(self) == *old(self)
                },
            },
    {
        let pixel_count = self.descriptor.pixel_count();
        if defect_map.len() != pixel_count as usize {
            return Err(MyError::InvalidTextureData);
        }
        self.defect_stage = Some(DefectStage { defect_map: slice_to_vec(defect_map) });
        Ok(())
    }

    /// Disables one stage kind; a disabled stage contributes no pass.
    pub fn disable_correction(&mut self, kind: StageKind)
        requires
            old(self).wf(),
        ensures
            final(self).wf(),
            final(self).descriptor == old(self).descriptor,
            final(self).ring == old(self).ring,
            match kind {
                StageKind::Offset => {
                    &&& final(self).offset_view() is None
                    &&& final(self).gain_view() == old(self).gain_view()
                    &&& final(self).defect_view() == old(self).defect_view()
                },
                StageKind::Gain => {
                    &&& final(self).gain_view() is None
                    &&& final(self).offset_view() == old(self).offset_view()
                    &&& final(self).defect_view() == old(self).defect_view()
                },
                StageKind::Defect => {
                    &&& final(self).defect_view() is None
                    &&& final(self).offset_view() == old(self).offset_view()
                    &&& final(self).gain_view() == old(self).gain_view()
                },
            },
    {
        match kind {
            StageKind::Offset => {
                self.offset_stage = None;
            },
            StageKind::Gain => {
                self.gain_stage = None;
            },
            StageKind::Defect => {
                self.defect_stage = None;
            },
        }
    }

    /// The command sequence one frame submission records: upload, one
    /// dispatch per enabled stage in fixed order, readback copy.
    pub fn frame_plan(&self) -> (plan: Vec<FrameOp>)
        requires
            self.wf(),
        ensures
            plan@ == spec_frame_plan(
                self.offset_view() is Some,
                self.gain_view() is Some,
                self.defect_view() is Some,
                self.descriptor,
            ),
    {
        build_frame_commands(
            self.offset_stage.is_some(),
            self.gain_stage.is_some(),
            self.defect_stage.is_some(),
            &self.descriptor,
        )
    }

    /// Claims a frame slot for a new submission after validating the input
    /// length, without blocking: when every slot is in flight the claim is
    /// refused with `RingBufferFull` and the caller may retry after a frame
    /// completes. The stage configuration is untouched.
    pub fn begin_frame(&mut self, image_len: usize) -> (r: Result<usize, MyError>)
        requires
            old(self).wf(),
        ensures
            final(self).wf(),
            final(self).descriptor == old(self).descriptor,
            final(self).offset_view() == old(self).offset_view(),
            final(self).gain_view() == old(self).gain_view(),
            final(self).defect_view() == old(self).defect_view(),
            final(self).ring.spec_slots().len() == old(self).ring.spec_slots().len(),
            match r {
                Ok(slot) => {
                    &&& image_len == old(self).descriptor.spec_pixel_count()
                    &&& claim_ok(old(self).ring.spec_slots(), old(self).ring.spec_head())
                    &&& slot == old(self).ring.spec_head()
                    &&& (final(self).ring.spec_slots(), final(self).ring.spec_head())
                        == after_claim(old(self).ring.spec_slots(), old(self).ring.spec_head())
                },
                Err(e) => {
                    &&& *final(self) == *old(self)
                    &&& if image_len != old(self).descriptor.spec_pixel_count() {
                        e == MyError::InvalidImageData
                    } else {
                        e == MyError::RingBufferFull && !claim_ok(
                            old(self).ring.spec_slots(),
                            old(self).ring.spec_head(),
                        )
                    }
                },
            },
    {
        let pixel_count = self.descriptor.pixel_count();
        if image_len != pixel_count as usize {
            return Err(MyError::InvalidImageData);
        }
        self.ring.try_claim()
    }

    /// Returns a slot to idle once its submission completed, whether it
    /// succeeded or failed. A slot index that is not in flight can only
    /// come from a bookkeeping error and is refused.
    pub fn finish_frame(&mut self, slot: usize) -> (r: Result<(), MyError>)
        requires
            old(self).wf(),
        ensures
            final(self).wf(),
            final(self).descriptor == old(self).descriptor,
            final(self).offset_view() == old(self).offset_view(),
            final(self).gain_view() == old(self).gain_view(),
            final(self).defect_view() == old(self).defect_view(),
            match r {
                Ok(_) => {
                    &&& (slot as int) < old(self).ring.spec_slots().len()
                    &&& old(self).ring.spec_slots()[slot as int] != SlotState::Idle
                    &&& final(self).ring.spec_slots() == old(self).ring.spec_slots().update(
                        slot as int,
                        SlotState::Idle,
                    )
                    &&& final(self).ring.spec_head() == old(self).ring.spec_head()
                },
                Err(e) => {
                    &&& e == MyError::GpuExecutionFailed
                    &&& *final(self) == *old(self)
                    &&& ((slot as int) >= old(self).ring.spec_slots().len() || old(
                        self,
                    ).ring.spec_slots()[slot as int] == SlotState::Idle)
                },
            },
    {
        if slot >= self.ring.capacity() {
            return Err(MyError::GpuExecutionFailed);
        }
        let busy = match self.ring.slots[slot] {
            SlotState::Idle => false,
            _ => true,
        };
        if !busy {
            return Err(MyError::GpuExecutionFailed);
        }
        self.ring.release(slot);
        Ok(())
    }

    /// Processes one frame through the engine's reference semantics: the
    /// input is validated, a slot is claimed for the submission's duration,
    /// each enabled stage maps the working image in fixed order, and the
    /// slot is released. This is the meaning every submission has; the host
    /// layer's dispatches compute the same frame on the device.
    pub fn process_image(&mut self, image: &[u16]) -> (r: Result<Vec<u16>, MyError>)
        requires
            old(self).wf(),
        ensures
            final(self).wf(),
            final(self).descriptor == old(self).descriptor,
            final(self).offset_view() == old(self).offset_view(),
            final(self).gain_view() == old(self).gain_view(),
            final(self).defect_view() == old(self).defect_view(),
            final(self).ring.spec_slots().len() == old(self).ring.spec_slots().len(),
            match r {
                Ok(v) => {
                    &&& image@.len() == old(self).descriptor.spec_pixel_count()
                    &&& claim_ok(old(self).ring.spec_slots(), old(self).ring.spec_head())
                    &&& v@ == old(self).spec_corrected_image(image@)
                    &&& final(self).ring.spec_slots() == old(self).ring.spec_slots()
                    &&& final(self).ring.spec_head() == (old(self).ring.spec_head() + 1) % (
                    old(self).ring.spec_slots().len() as int)
                },
                Err(e) => {
                    &&& *final(self) == *old(self)
                    &&& if image@.len() != old(self).descriptor.spec_pixel_count() {
                        e == MyError::InvalidImageData
                    } else {
                        e == MyError::RingBufferFull && !claim_ok(
                            old(self).ring.spec_slots(),
                            old(self).ring.spec_head(),
                        )
                    }
                },
            },
    {
        let slot = match self.begin_frame(image.len()) {
            Ok(slot) => slot,
            Err(e) => {
                return Err(e);
            },
        };
        self.ring.mark_dispatched(slot);

        let working: Vec<u16> = slice_to_vec(image);
        let working: Vec<u16> = match &self.offset_stage {
            Some(stage) => apply_offset_correction(&working, &stage.dark_map, stage.offset),
            None => working,
        };
        let working: Vec<u16> = match &self.gain_stage {
            Some(stage) => apply_gain_correction(&working, &stage.gain_map, stage.normalizer),
            None => working,
        };
        proof {
            crate::geometry::lemma_pixel_count_bounded(self.descriptor);
        }
        let working: Vec<u16> = match &self.defect_stage {
            Some(stage) => apply_defect_correction(
                &working,
                &stage.defect_map,
                self.descriptor.width,
                self.descriptor.height,
            ),
            None => working,
        };

        self.ring.mark_reading_back(slot);
        self.ring.release(slot);
        proof {
            assert(final(self).ring.spec_slots() =~= old(self).ring.spec_slots());
        }
        Ok(working)
    }
}

/// Identity under trivial corrections: whatever subset of stages is
/// enabled, a zero dark map with zero constant offset, a zero gain map and
/// a zero defect mask leave every image unchanged.
pub proof fn lemma_trivial_corrections_identity(c: Corrections, image: Seq<u16>)
    requires
        c.wf(),
        image.len() == c.descriptor.spec_pixel_count(),
        match c.offset_view() {
            Some(cfg) => cfg.1 == 0 && forall|j: int| 0 <= j < cfg.0.len() ==> cfg.0[j] == 0,
            None => true,
        },
        match c.gain_view() {
            Some(cfg) => forall|j: int| 0 <= j < cfg.0.len() ==> cfg.0[j] == 0,
            None => true,
        },
        match c.defect_view() {
            Some(mask) => forall|j: int| 0 <= j < mask.len() ==> mask[j] == 0,
            None => true,
        },
    ensures
        c.spec_corrected_image(image) == image,
{
    let after_offset = match c.offset_view() {
        Some(cfg) => offset_stage_output(image, cfg.0, cfg.1),
        None => image,
    };
    match c.offset_view() {
        Some(cfg) => {
            assert forall|j: int| 0 <= j < image.len() implies after_offset[j] == image[j] by {
                lemma_small_mod(image[j] as nat, 0x10000);
            }
            assert(after_offset =~= image);
        },
        None => {},
    }
    let after_gain = match c.gain_view() {
        Some(cfg) => gain_stage_output(after_offset, cfg.0, cfg.1),
        None => after_offset,
    };
    match c.gain_view() {
        Some(cfg) => {
            assert(after_gain =~= image);
        },
        None => {},
    }
    match c.defect_view() {
        Some(mask) => {
            assert(c.spec_corrected_image(image) =~= image);
        },
        None => {
            assert(c.spec_corrected_image(image) == after_gain);
        },
    }
}

/// Offset correction of a flat field: with only the offset stage enabled,
/// a constant image of value `v` over a constant dark map of value `d`
/// comes out with every pixel equal to `v - d + c`, wrapped into the
/// 16-bit range.
pub proof fn lemma_offset_flat_field(
    corrections: Corrections,
    image: Seq<u16>,
    v: u16,
    d: u16,
    c: u32,
)
    requires
        corrections.wf(),
        image.len() == corrections.descriptor.spec_pixel_count(),
        corrections.offset_view() matches Some(cfg) && cfg.1 == c && cfg.0.len() == image.len()
            && (forall|j: int| 0 <= j < cfg.0.len() ==> cfg.0[j] == d),
        corrections.gain_view() is None,
        corrections.defect_view() is None,
        forall|j: int| 0 <= j < image.len() ==> image[j] == v,
    ensures
        corrections.spec_corrected_image(image).len() == image.len(),
        forall|j: int|
            0 <= j < image.len() ==> corrections.spec_corrected_image(image)[j] == (((v as int)
                - (d as int) + (c as int)) % 0x10000) as u16,
{
    let cfg = corrections.offset_view()->Some_0;
    assert forall|j: int| 0 <= j < image.len() implies corrections.spec_corrected_image(image)[j]
        == (((v as int) - (d as int) + (c as int)) % 0x10000) as u16 by {
        assert(corrections.spec_corrected_image(image)[j] == offset_corrected(
            image[j],
            cfg.0[j],
            c,
        ));
    }
}

/// With no stage enabled — or after every enabled stage is disabled again —
/// processing is the identity: the output is the unmodified input.
pub proof fn lemma_no_stages_identity(c: Corrections, image: Seq<u16>)
    requires
        c.offset_view() is None,
        c.gain_view() is None,
        c.defect_view() is None,
    ensures
        c.spec_corrected_image(image) == image,
{
}

/// Processing is a function of the stage configuration and the input
/// alone: two engines with the same geometry and stage views — in
/// particular, the same engine before and after an earlier submission —
/// correct an identical image identically.
pub proof fn lemma_process_deterministic(c1: Corrections, c2: Corrections, image: Seq<u16>)
    requires
        c1.descriptor == c2.descriptor,
        c1.offset_view() == c2.offset_view(),
        c1.gain_view() == c2.gain_view(),
        c1.defect_view() == c2.defect_view(),
    ensures
        c1.spec_corrected_image(image) == c2.spec_corrected_image(image),
{
}

} // verus!
