//! Behavior of the grid container: bounds-checked access, construction,
//! and the blend primitive's off-grid handling.

use terragen::grid::{new_data_grid, DataGrid};
use terragen::{HEIGHT, WIDTH};

fn grid_from_rows(rows: Vec<Vec<i64>>) -> DataGrid {
    let height = rows.len();
    let width = rows[0].len();
    DataGrid::from_values(width, height, &rows)
}

#[test]
fn get_returns_none_outside_bounds() {
    let g = DataGrid::new(3, 2);
    assert_eq!(g.get(0, 0), Some(0));
    assert_eq!(g.get(2, 1), Some(0));
    assert_eq!(g.get(3, 0), None);
    assert_eq!(g.get(0, 2), None);
    assert_eq!(g.get(5, 7), None);
}

#[test]
fn get_checks_each_axis_against_its_own_bound() {
    // A 2-wide, 4-tall grid: (1, 3) is a cell, (3, 1) is not.
    let g = DataGrid::new(2, 4);
    assert_eq!(g.get(1, 3), Some(0));
    assert_eq!(g.get(3, 1), None);
}

#[test]
fn set_outside_bounds_leaves_grid_unchanged() {
    let mut g = grid_from_rows(vec![vec![1, 2], vec![3, 4]]);
    g.set(2, 0, 99);
    g.set(0, 2, 99);
    g.set(9, 9, 99);
    assert_eq!(g.get(0, 0), Some(1));
    assert_eq!(g.get(1, 0), Some(2));
    assert_eq!(g.get(0, 1), Some(3));
    assert_eq!(g.get(1, 1), Some(4));
}

#[test]
fn set_inside_bounds_stores_the_value() {
    let mut g = DataGrid::new(2, 2);
    g.set(1, 0, 42);
    assert_eq!(g.get(1, 0), Some(42));
    assert_eq!(g.get(0, 0), Some(0));
}

#[test]
fn from_values_copies_rows() {
    let g = grid_from_rows(vec![vec![10, 20, 30], vec![40, 50, 60]]);
    assert_eq!(g.width, 3);
    assert_eq!(g.height, 2);
    assert_eq!(g.get(0, 0), Some(10));
    assert_eq!(g.get(2, 0), Some(30));
    assert_eq!(g.get(0, 1), Some(40));
    assert_eq!(g.get(2, 1), Some(60));
}

#[test]
fn new_data_grid_is_full_size_and_filled() {
    let g = new_data_grid(7);
    assert_eq!(g.width, WIDTH);
    assert_eq!(g.height, HEIGHT);
    assert_eq!(g.get(0, 0), Some(7));
    assert_eq!(g.get(WIDTH - 1, HEIGHT - 1), Some(7));
}

#[test]
fn blend_fully_outside_leaves_grid_unchanged() {
    let rows = vec![vec![1, 2, 3], vec![4, 5, 6], vec![7, 8, 9]];
    let mut base = grid_from_rows(rows.clone());
    let other = grid_from_rows(vec![vec![100, 100], vec![100, 100]]);
    // Negative offsets exceeding the other grid's dimensions.
    base.blend_mut(&other, -5, -5, |b: i64, t: i64| t);
    // Offsets beyond the base grid's far edges.
    base.blend_mut(&other, 10, 0, |b: i64, t: i64| t);
    base.blend_mut(&other, 0, 10, |b: i64, t: i64| t);
    for y in 0..3 {
        for x in 0..3 {
            assert_eq!(base.get(x, y), Some(rows[y][x]));
        }
    }
}

#[test]
fn blend_partial_overlap_touches_only_covered_cells() {
    let mut base = grid_from_rows(vec![vec![1, 2, 3], vec![4, 5, 6], vec![7, 8, 9]]);
    let other = grid_from_rows(vec![vec![10, 20], vec![30, 40]]);
    // Placed at (-1, -1): only the other grid's cell (1, 1) lands on the
    // base, at base cell (0, 0).
    base.blend_mut(&other, -1, -1, |b: i64, t: i64| b + t);
    assert_eq!(base.get(0, 0), Some(1 + 40));
    assert_eq!(base.get(1, 0), Some(2));
    assert_eq!(base.get(0, 1), Some(4));
    assert_eq!(base.get(1, 1), Some(5));
    assert_eq!(base.get(2, 2), Some(9));
}

#[test]
fn clone_is_a_deep_copy() {
    let g = grid_from_rows(vec![vec![1, 2], vec![3, 4]]);
    let mut c = g.clone();
    assert_eq!(c.width, g.width);
    assert_eq!(c.height, g.height);
    assert_eq!(c.get(1, 1), Some(4));
    c.set(1, 1, 99);
    assert_eq!(g.get(1, 1), Some(4));
    assert_eq!(c.get(1, 1), Some(99));
}

#[test]
fn blend_full_overlap_blends_every_cell() {
    let mut base = grid_from_rows(vec![vec![1, 2], vec![3, 4]]);
    let other = grid_from_rows(vec![vec![10, 20], vec![30, 40]]);
    base.blend_mut(&other, 0, 0, |b: i64, t: i64| b * 100 + t);
    assert_eq!(base.get(0, 0), Some(110));
    assert_eq!(base.get(1, 0), Some(220));
    assert_eq!(base.get(0, 1), Some(330));
    assert_eq!(base.get(1, 1), Some(440));
}
