use gpu_corrections::bytes::{bytes_to_pixels, pixels_to_bytes};
use gpu_corrections::compose::FrameOp;
use gpu_corrections::engine::Corrections;
use gpu_corrections::error::MyError;
use gpu_corrections::geometry::ceil_div;
use gpu_corrections::power::{select_adapter, AdapterInfo, AdapterKind, CPowerPreference};
use gpu_corrections::stage::StageKind;

#[test]
fn ceil_div_covers_partial_tiles() {
    assert_eq!(ceil_div(0, 16), 0);
    assert_eq!(ceil_div(1, 16), 1);
    assert_eq!(ceil_div(16, 16), 1);
    assert_eq!(ceil_div(17, 16), 2);
    assert_eq!(ceil_div(6144, 16), 384);
    assert_eq!(ceil_div(u32::MAX, 1), u32::MAX);
}

#[test]
fn empty_plan_still_uploads_and_copies() {
    let c = Corrections::new(100, 60, 2).unwrap();
    let plan = c.frame_plan();
    assert_eq!(plan, vec![FrameOp::UploadInput, FrameOp::CopyToReadback]);
}

#[test]
fn full_plan_orders_stages_and_sizes_grids() {
    let mut c = Corrections::new(100, 60, 2).unwrap();
    c.enable_defect_correction(&vec![0u16; 6000]).unwrap();
    c.enable_dark_map_correction(&vec![0u16; 6000], 300).unwrap();
    c.enable_gain_correction(&vec![1u16; 6000]).unwrap();
    let plan = c.frame_plan();
    // ceil(100 / 16) = 7 by ceil(60 / 16) = 4 workgroups; the defect
    // kernel dispatches once per axis.
    assert_eq!(
        plan,
        vec![
            FrameOp::UploadInput,
            FrameOp::StagePass { kind: StageKind::Offset, groups_x: 7, groups_y: 4, direction: 0 },
            FrameOp::StagePass { kind: StageKind::Gain, groups_x: 7, groups_y: 4, direction: 0 },
            FrameOp::StagePass { kind: StageKind::Defect, groups_x: 7, groups_y: 4, direction: 0 },
            FrameOp::StagePass { kind: StageKind::Defect, groups_x: 7, groups_y: 4, direction: 1 },
            FrameOp::CopyToReadback,
        ]
    );
}

#[test]
fn disabled_stage_contributes_no_pass() {
    let mut c = Corrections::new(32, 32, 2).unwrap();
    c.enable_gain_correction(&vec![1u16; 1024]).unwrap();
    assert_eq!(c.frame_plan().len(), 3);
    c.disable_correction(StageKind::Gain);
    assert_eq!(c.frame_plan().len(), 2);
}

#[test]
fn adapter_selection_prefers_discrete_compute() {
    let adapters = vec![
        AdapterInfo { kind: AdapterKind::Other, supports_compute: true },
        AdapterInfo { kind: AdapterKind::IntegratedGpu, supports_compute: true },
        AdapterInfo { kind: AdapterKind::DiscreteGpu, supports_compute: false },
        AdapterInfo { kind: AdapterKind::IntegratedGpu, supports_compute: true },
    ];
    // The discrete adapter lacks compute; the first integrated one wins.
    assert_eq!(select_adapter(&adapters).unwrap(), 1);
    let ranked = vec![
        AdapterInfo { kind: AdapterKind::Cpu, supports_compute: true },
        AdapterInfo { kind: AdapterKind::VirtualGpu, supports_compute: true },
        AdapterInfo { kind: AdapterKind::DiscreteGpu, supports_compute: true },
    ];
    assert_eq!(select_adapter(&ranked).unwrap(), 2);
}

#[test]
fn adapter_selection_fails_without_compute() {
    assert_eq!(select_adapter(&vec![]).unwrap_err(), MyError::NoSuitableAdapter);
    let adapters = vec![
        AdapterInfo { kind: AdapterKind::DiscreteGpu, supports_compute: false },
        AdapterInfo { kind: AdapterKind::Cpu, supports_compute: false },
    ];
    assert_eq!(select_adapter(&adapters).unwrap_err(), MyError::NoSuitableAdapter);
}

#[test]
fn power_preference_codes_round_trip() {
    let prefs = [
        CPowerPreference::NoPreference,
        CPowerPreference::LowPower,
        CPowerPreference::HighPerformance,
    ];
    for p in prefs {
        assert_eq!(CPowerPreference::from_code(p.code()).unwrap(), p);
    }
    assert_eq!(CPowerPreference::NoPreference.code(), 0);
    assert_eq!(CPowerPreference::LowPower.code(), 1);
    assert_eq!(CPowerPreference::HighPerformance.code(), 2);
    assert!(CPowerPreference::from_code(3).is_none());
}

#[test]
fn pixel_bytes_little_endian() {
    let bytes = pixels_to_bytes(&[0x1234u16, 0xABCD]);
    assert_eq!(bytes, vec![0x34, 0x12, 0xCD, 0xAB]);
    assert_eq!(bytes_to_pixels(&bytes).unwrap(), vec![0x1234, 0xABCD]);
}

#[test]
fn pixel_bytes_round_trip() {
    let pixels = vec![0u16, 1, 255, 256, 65535, 300];
    let bytes = pixels_to_bytes(&pixels);
    assert_eq!(bytes.len(), 2 * pixels.len());
    assert_eq!(bytes_to_pixels(&bytes).unwrap(), pixels);
}

#[test]
fn odd_readback_is_fatal() {
    assert_eq!(bytes_to_pixels(&[1u8, 2, 3]).unwrap_err(), MyError::GpuExecutionFailed);
    assert_eq!(bytes_to_pixels(&[]).unwrap(), Vec::<u16>::new());
}
