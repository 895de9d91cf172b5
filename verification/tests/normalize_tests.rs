//! Behavior of the normalizer: scans, the scalar remap, and the whole-grid
//! rescale including its degenerate flat-field fallback.

use terragen::grid::DataGrid;
use terragen::normalize::{max_in, min_in, remap_data_grid};
use terragen::fixed::remap;
use terragen::SCALE;

fn grid_from_rows(rows: Vec<Vec<i64>>) -> DataGrid {
    let height = rows.len();
    let width = rows[0].len();
    DataGrid::from_values(width, height, &rows)
}

#[test]
fn min_and_max_scan_the_whole_grid() {
    let g = grid_from_rows(vec![vec![5, -3, 8], vec![0, 12, -7]]);
    assert_eq!(min_in(&g), Some(-7));
    assert_eq!(max_in(&g), Some(12));
}

#[test]
fn min_and_max_of_empty_grid_are_none() {
    let g = DataGrid::new(0, 4);
    assert_eq!(min_in(&g), None);
    assert_eq!(max_in(&g), None);
}

#[test]
fn remap_maps_range_ends_exactly() {
    assert_eq!(remap(0, 0, 10, 100, 200), 100);
    assert_eq!(remap(10, 0, 10, 100, 200), 200);
    assert_eq!(remap(5, 0, 10, 100, 200), 150);
    assert_eq!(remap(-4, -4, 4, 0, SCALE), 0);
    assert_eq!(remap(4, -4, 4, 0, SCALE), SCALE);
    assert_eq!(remap(0, -4, 4, 0, SCALE), SCALE / 2);
}

#[test]
fn remap_data_grid_attains_target_range() {
    let mut g = grid_from_rows(vec![vec![2, 4], vec![6, 10]]);
    remap_data_grid(&mut g, 0, SCALE);
    assert_eq!(min_in(&g), Some(0));
    assert_eq!(max_in(&g), Some(SCALE));
    // 4 sits a quarter of the way from 2 to 10.
    assert_eq!(g.get(1, 0), Some(SCALE / 4));
    assert_eq!(g.get(0, 1), Some(SCALE / 2));
}

#[test]
fn remap_data_grid_of_flat_grid_falls_back_to_lower_target() {
    // A four-by-four all-zero grid has minimum equal to maximum, so the
    // degenerate-range fallback applies: every cell becomes exactly the
    // lower target.
    let mut g = DataGrid::new(4, 4);
    remap_data_grid(&mut g, 10, 20);
    for y in 0..4 {
        for x in 0..4 {
            assert_eq!(g.get(x, y), Some(10));
        }
    }
}

#[test]
fn remap_data_grid_keeps_order() {
    let mut g = grid_from_rows(vec![vec![-5, 0, 5, 20]]);
    remap_data_grid(&mut g, 0, 1000);
    let a = g.get(0, 0).unwrap();
    let b = g.get(1, 0).unwrap();
    let c = g.get(2, 0).unwrap();
    let d = g.get(3, 0).unwrap();
    assert!(a < b && b < c && c < d);
    assert_eq!(a, 0);
    assert_eq!(d, 1000);
}
