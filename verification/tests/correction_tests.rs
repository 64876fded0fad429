use gpu_corrections::defect::{apply_defect_correction, defect_correct_pixel};
use gpu_corrections::gain::{apply_gain_correction, gain_correct_pixel, map_minimum};
use gpu_corrections::offset::{apply_offset_correction, offset_correct_pixel};

#[test]
fn offset_pixel_basic() {
    // 10 - 1 + 300 = 309, as in a flat frame with the default constant.
    assert_eq!(offset_correct_pixel(10, 1, 300), 309);
    assert_eq!(offset_correct_pixel(0, 0, 0), 0);
    assert_eq!(offset_correct_pixel(500, 200, 0), 300);
}

#[test]
fn offset_pixel_wraps_at_16_bit_bounds() {
    // v < d - c wraps below zero: (10 - 20) mod 65536.
    assert_eq!(offset_correct_pixel(10, 20, 0), 65526);
    // Wrapping above the top: 65535 - 0 + 2 wraps to 1.
    assert_eq!(offset_correct_pixel(65535, 0, 2), 1);
    // The constant is itself taken modulo 2^16.
    assert_eq!(offset_correct_pixel(5, 2, 65536), 3);
    assert_eq!(offset_correct_pixel(5, 2, 65537), 4);
}

#[test]
fn offset_whole_frame() {
    let image = vec![10u16, 20, 30, 40];
    let dark = vec![1u16, 2, 3, 4];
    let out = apply_offset_correction(&image, &dark, 100);
    assert_eq!(out, vec![109, 118, 127, 136]);
}

#[test]
fn gain_minimum_of_map() {
    assert_eq!(map_minimum(&vec![7u16]), 7);
    assert_eq!(map_minimum(&vec![9u16, 4, 12, 4, 30]), 4);
    assert_eq!(map_minimum(&vec![5u16, 0, 3]), 0);
}

#[test]
fn gain_pixel_scales_by_minimum_ratio() {
    // v * m / g, truncating.
    assert_eq!(gain_correct_pixel(100, 4, 2), 50);
    assert_eq!(gain_correct_pixel(100, 8, 2), 25);
    assert_eq!(gain_correct_pixel(100, 2, 2), 100);
    assert_eq!(gain_correct_pixel(101, 3, 2), 67);
    // A zero map entry leaves the pixel unchanged.
    assert_eq!(gain_correct_pixel(123, 0, 5), 123);
}

#[test]
fn gain_whole_frame() {
    let image = vec![100u16, 100, 100, 7];
    let gain = vec![2u16, 4, 8, 2];
    let m = map_minimum(&gain);
    assert_eq!(m, 2);
    let out = apply_gain_correction(&image, &gain, m);
    assert_eq!(out, vec![100, 50, 25, 7]);
}

#[test]
fn defect_unmarked_pixels_unchanged() {
    // No pixel marked: the frame passes through whatever the values are.
    let image = vec![10u16, 20, 30, 40, 50, 60, 70, 80, 90];
    let mask = vec![0u16; 9];
    let out = apply_defect_correction(&image, &mask, 3, 3);
    assert_eq!(out, image);
    // Mask values other than one do not mark a pixel either.
    let mask2 = vec![2u16; 9];
    let out2 = apply_defect_correction(&image, &mask2, 3, 3);
    assert_eq!(out2, image);
}

#[test]
fn defect_uniform_neighborhood_returns_neighbor_value() {
    // A single marked pixel surrounded by neighbors all equal to 77
    // interpolates to exactly 77.
    let n = 77u16;
    let mut image = vec![n; 25];
    image[12] = 999;
    let mut mask = vec![0u16; 25];
    mask[12] = 1;
    let out = apply_defect_correction(&image, &mask, 5, 5);
    assert_eq!(out[12], n);
    for i in 0..25 {
        if i != 12 {
            assert_eq!(out[i], image[i]);
        }
    }
}

#[test]
fn defect_weighted_average_exact() {
    // Centre of a 3x3 frame marked defective; the window is clipped to the
    // frame, weights 4 on the axis neighbors and 3 on the diagonals:
    // (3*10 + 4*20 + 3*30 + 4*40 + 4*60 + 3*70 + 4*80 + 3*90) / 28 = 50.
    let image = vec![10u16, 20, 30, 40, 0, 60, 70, 80, 90];
    let mut mask = vec![0u16; 9];
    mask[4] = 1;
    let out = apply_defect_correction(&image, &mask, 3, 3);
    assert_eq!(out[4], 50);
    assert_eq!(defect_correct_pixel(&image, &mask, 3, 3, 1, 1), 50);
}

#[test]
fn defect_marked_neighbors_do_not_contribute() {
    // The two axis neighbors marked defective are excluded from the
    // average of the centre: (3*10 + 3*30 + 4*40 + 4*60 + 3*70 + 3*90) / 20 = 50.
    let image = vec![10u16, 20, 30, 40, 0, 60, 70, 80, 90];
    let mut mask = vec![0u16; 9];
    mask[4] = 1;
    mask[1] = 1;
    mask[7] = 1;
    let out = apply_defect_correction(&image, &mask, 3, 3);
    assert_eq!(out[4], 50);
    // The marked neighbors are themselves re-estimated, from their own
    // windows.
    assert_ne!(out[1], image[1]);
}

#[test]
fn defect_no_usable_neighbor_leaves_pixel() {
    // Everything marked: no window holds a usable neighbor, so every pixel
    // passes through.
    let image = vec![11u16, 22, 33, 44];
    let mask = vec![1u16; 4];
    let out = apply_defect_correction(&image, &mask, 2, 2);
    assert_eq!(out, image);
}

#[test]
fn defect_single_pixel_frame() {
    let image = vec![42u16];
    let mask = vec![1u16];
    let out = apply_defect_correction(&image, &mask, 1, 1);
    assert_eq!(out, vec![42]);
}
