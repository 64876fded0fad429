use gpu_corrections::engine::Corrections;
use gpu_corrections::error::MyError;
use gpu_corrections::stage::StageKind;

#[test]
fn construction_validates_dimensions() {
    assert!(Corrections::new(16, 16, 4).is_ok());
    assert_eq!(Corrections::new(0, 16, 4).unwrap_err(), MyError::InvalidImageData);
    assert_eq!(Corrections::new(16, 0, 4).unwrap_err(), MyError::InvalidImageData);
    assert_eq!(Corrections::new(16, 16, 0).unwrap_err(), MyError::InvalidImageData);
    // 70000 * 70000 * 2 bytes does not fit the 32-bit sizes the device
    // API takes.
    assert_eq!(Corrections::new(70000, 70000, 4).unwrap_err(), MyError::InvalidImageData);
}

#[test]
fn enable_rejects_mismatched_maps() {
    let mut c = Corrections::new(4, 4, 2).unwrap();
    assert_eq!(
        c.enable_dark_map_correction(&vec![0u16; 15], 300).unwrap_err(),
        MyError::InvalidTextureData
    );
    assert_eq!(c.enable_gain_correction(&vec![1u16; 17]).unwrap_err(), MyError::InvalidTextureData);
    assert_eq!(c.enable_defect_correction(&vec![0u16; 3]).unwrap_err(), MyError::InvalidTextureData);
    assert!(c.enable_dark_map_correction(&vec![0u16; 16], 300).is_ok());
    assert!(c.enable_gain_correction(&vec![1u16; 16]).is_ok());
    assert!(c.enable_defect_correction(&vec![0u16; 16]).is_ok());
}

#[test]
fn process_rejects_mismatched_image() {
    let mut c = Corrections::new(4, 4, 2).unwrap();
    assert_eq!(c.process_image(&vec![0u16; 15]).unwrap_err(), MyError::InvalidImageData);
    assert_eq!(c.process_image(&vec![0u16; 17]).unwrap_err(), MyError::InvalidImageData);
    assert!(c.process_image(&vec![0u16; 16]).is_ok());
}

#[test]
fn no_stages_is_identity() {
    // With no stage enabled the sequence still uploads and copies through:
    // the output is the unmodified input.
    let mut c = Corrections::new(3, 2, 2).unwrap();
    let image = vec![5u16, 10, 65535, 0, 1, 2];
    assert_eq!(c.process_image(&image).unwrap(), image);
}

#[test]
fn enable_then_disable_round_trip() {
    // Enabling the offset stage and then disabling it again corrects
    // nothing: identical input comes back unmodified.
    let mut c = Corrections::new(3, 2, 2).unwrap();
    let image = vec![5u16, 10, 65535, 0, 1, 2];
    c.enable_dark_map_correction(&vec![3u16; 6], 300).unwrap();
    let corrected = c.process_image(&image).unwrap();
    assert_ne!(corrected, image);
    c.disable_correction(StageKind::Offset);
    assert_eq!(c.process_image(&image).unwrap(), image);
}

#[test]
fn trivial_corrections_identity_all_subsets() {
    // Identity under trivial corrections: for every subset of stages,
    // zero maps and a zero constant leave a zero image all-zero.
    let zero_image = vec![0u16; 6];
    let zero_map = vec![0u16; 6];
    for subset in 0..8u32 {
        let mut c = Corrections::new(3, 2, 2).unwrap();
        if subset & 1 != 0 {
            c.enable_dark_map_correction(&zero_map, 0).unwrap();
        }
        if subset & 2 != 0 {
            c.enable_gain_correction(&zero_map).unwrap();
        }
        if subset & 4 != 0 {
            c.enable_defect_correction(&zero_map).unwrap();
        }
        assert_eq!(c.process_image(&zero_image).unwrap(), zero_image);
    }
}

#[test]
fn processing_twice_is_identical() {
    // Unchanged configuration and identical input give identical output,
    // frame after frame.
    let mut c = Corrections::new(3, 3, 2).unwrap();
    c.enable_dark_map_correction(&vec![2u16; 9], 10).unwrap();
    c.enable_gain_correction(&vec![4u16, 2, 4, 2, 4, 2, 4, 2, 4]).unwrap();
    let mut mask = vec![0u16; 9];
    mask[4] = 1;
    c.enable_defect_correction(&mask).unwrap();
    let image = vec![100u16, 90, 80, 70, 60, 50, 40, 30, 20];
    let first = c.process_image(&image).unwrap();
    let second = c.process_image(&image).unwrap();
    assert_eq!(first, second);
}

#[test]
fn offset_flat_field_formula() {
    // Flat image of value v over a flat dark map d with constant c: every
    // output pixel is v - d + c.
    let mut c = Corrections::new(4, 2, 2).unwrap();
    c.enable_dark_map_correction(&vec![20u16; 8], 5).unwrap();
    let out = c.process_image(&vec![100u16; 8]).unwrap();
    assert_eq!(out, vec![85u16; 8]);
    // At the 16-bit boundary, v < d - c wraps: (10 - 20 + 5) mod 65536.
    let out2 = c.process_image(&vec![10u16; 8]).unwrap();
    assert_eq!(out2, vec![65531u16; 8]);
}

#[test]
fn stages_chain_in_fixed_order() {
    // Offset runs before gain: (40 - 20 + 0) * 2 / 4 = 10; applying gain
    // first would give 40 * 2 / 4 - 20 = 0.
    let mut c = Corrections::new(2, 1, 1).unwrap();
    c.enable_dark_map_correction(&vec![20u16, 20], 0).unwrap();
    c.enable_gain_correction(&vec![4u16, 2]).unwrap();
    let out = c.process_image(&vec![40u16, 40]).unwrap();
    assert_eq!(out, vec![10u16, 20]);
}

#[test]
fn replacing_a_stage_is_atomic() {
    // A second enable replaces the prior stage outright.
    let mut c = Corrections::new(2, 2, 2).unwrap();
    c.enable_dark_map_correction(&vec![1u16; 4], 0).unwrap();
    c.enable_dark_map_correction(&vec![7u16; 4], 100).unwrap();
    let out = c.process_image(&vec![10u16; 4]).unwrap();
    assert_eq!(out, vec![103u16; 4]);
}

#[test]
fn core_flow_at_sensor_scale() {
    // The full configure-then-submit flow at a realistic sensor size.
    let image_width: u32 = 4800;
    let image_height: u32 = 5800;
    let offset = 300;
    let buffer_count = 10;
    let pixels = (image_width * image_height) as usize;
    let mut c = Corrections::new(image_width, image_height, buffer_count).unwrap();
    let image = vec![10u16; pixels];
    let dark_map = vec![1u16; pixels];
    c.enable_dark_map_correction(&dark_map, offset).unwrap();
    let out = c.process_image(&image).unwrap();
    assert_eq!(out.len(), pixels);
    assert!(out.iter().all(|&p| p == 309));
}
