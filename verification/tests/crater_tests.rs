//! Behavior of the crater pipeline: template validation, the resize step
//! through the raster crate, drawn stamp parameters, and stamping.

use terragen::crater::{
    draw_stamp_params, resize_template, stamp_crater, CraterTemplate, DEPTH_SPAN,
};
use terragen::grid::DataGrid;
use terragen::raster::{from_image, to_image};
use terragen::{HALF, PIXEL_UNIT, SCALE};

#[test]
fn template_validation_rejects_mismatched_buffers() {
    assert!(CraterTemplate::new(2, 2, vec![0; 4]).is_some());
    assert!(CraterTemplate::new(2, 2, vec![0; 5]).is_none());
    assert!(CraterTemplate::new(0, 2, vec![]).is_none());
    assert!(CraterTemplate::new(2, 0, vec![]).is_none());
    assert!(CraterTemplate::new(70_000, 1, vec![0; 70_000]).is_none());
}

#[test]
fn resize_changes_the_buffer_to_the_new_dimensions() {
    // If the resize handed its input back unchanged, the buffer would
    // still hold four pixels instead of twenty-five.
    let t = CraterTemplate::new(2, 2, vec![0, 64, 128, 255]).unwrap();
    let r = resize_template(&t, 5);
    assert_eq!(r.width, 5);
    assert_eq!(r.height, 5);
    assert_eq!(r.pixels.len(), 25);
}

#[test]
fn resize_of_a_constant_image_stays_constant() {
    let t = CraterTemplate::new(3, 3, vec![128; 9]).unwrap();
    let r = resize_template(&t, 7);
    assert!(r.pixels.iter().all(|&p| p == 128));
}

#[test]
fn from_image_decodes_mid_gray_to_one_half() {
    // A single pixel of value 128 decodes to 128 / 256 = 0.5 exactly.
    let g = from_image(1, 1, &vec![128]);
    assert_eq!(g.get(0, 0), Some(HALF));
}

#[test]
fn from_image_divides_by_256_not_255() {
    // The largest pixel stays strictly below 1.0.
    let g = from_image(1, 1, &vec![255]);
    assert_eq!(g.get(0, 0), Some(255 * PIXEL_UNIT));
    assert!(g.get(0, 0).unwrap() < SCALE);
}

#[test]
fn to_image_scales_by_256_and_truncates() {
    let rows = vec![vec![0, HALF, SCALE - 1, SCALE, -5]];
    let g = DataGrid::from_values(5, 1, &rows);
    let px = to_image(&g);
    assert_eq!(px, vec![0, 128, 255, 255, 0]);
}

#[test]
fn stamp_params_are_deterministic_and_in_range() {
    let (s1, a) = draw_stamp_params(42, 100, 80);
    let (s2, b) = draw_stamp_params(42, 100, 80);
    assert_eq!(s1, s2);
    assert_eq!(a.size, b.size);
    assert_eq!(a.offset_x, b.offset_x);
    assert_eq!(a.offset_y, b.offset_y);
    assert_eq!(a.depth, b.depth);
    assert!(a.size >= 32 && a.size < 160);
    assert!(a.offset_x >= -(a.size as i64) && a.offset_x < 100);
    assert!(a.offset_y >= -(a.size as i64) && a.offset_y < 80);
    assert!(a.depth >= SCALE && a.depth < SCALE + (DEPTH_SPAN as i64));
    // Advancing the state draws fresh parameters.
    let (_, c) = draw_stamp_params(s1, 100, 80);
    assert!(c.size != a.size || c.offset_x != a.offset_x || c.offset_y != a.offset_y
        || c.depth != a.depth);
}

#[test]
fn stamp_on_half_gray_base_with_unit_depth_copies_the_crater() {
    // The base sits at the overlay's neutral point and the depth scale is
    // one, so each covered cell takes the decoded crater value exactly.
    let rows = vec![vec![HALF; 4]; 4];
    let mut base = DataGrid::from_values(4, 4, &rows);
    let crater = from_image(2, 2, &vec![0, 64, 128, 255]);
    stamp_crater(&mut base, &crater, 1, 1, SCALE);
    assert_eq!(base.get(1, 1), Some(0));
    assert_eq!(base.get(2, 1), Some(64 * PIXEL_UNIT));
    assert_eq!(base.get(1, 2), Some(128 * PIXEL_UNIT));
    assert_eq!(base.get(2, 2), Some(255 * PIXEL_UNIT));
    // Cells the placement misses stay at the neutral level.
    assert_eq!(base.get(0, 0), Some(HALF));
    assert_eq!(base.get(3, 3), Some(HALF));
}

#[test]
fn stamp_fully_off_grid_changes_nothing() {
    let rows = vec![vec![HALF, 400_000], vec![600_000, 800_000]];
    let mut base = DataGrid::from_values(2, 2, &rows);
    let crater = from_image(2, 2, &vec![255, 255, 255, 255]);
    stamp_crater(&mut base, &crater, -3, -3, SCALE);
    stamp_crater(&mut base, &crater, 5, 0, SCALE);
    assert_eq!(base.get(0, 0), Some(HALF));
    assert_eq!(base.get(1, 0), Some(400_000));
    assert_eq!(base.get(0, 1), Some(600_000));
    assert_eq!(base.get(1, 1), Some(800_000));
}
