//! End-to-end generation: the sampling lattice, full runs with the real
//! noise and raster crates behind the caller-supplied functions, and
//! bit-for-bit reproducibility from a fixed seed.

use image::{GrayImage, Luma};
use imageproc::geometric_transformations::{rotate_about_center, Border, Interpolation};
use noise::{NoiseFn, Perlin};
use terragen::compose::STRETCH_NONE;
use terragen::crater::CraterTemplate;
use terragen::grid::DataGrid;
use terragen::noise_field::{field_from_samples, sample_lattice};
use terragen::normalize::{max_in, min_in};
use terragen::world::{generate_heightmap, World, CRATER_COUNT};
use terragen::{HEIGHT, SCALE, WIDTH};

/// Evaluate a seeded Perlin source at a batch of fixed-point lattice
/// coordinates, in fixed point.
fn perlin_sampler(seed: u32) -> impl Fn(Vec<(i64, i64)>) -> Vec<i64> {
    move |coords: Vec<(i64, i64)>| {
        let perlin = Perlin::new(seed);
        coords
            .iter()
            .map(|&(u, v)| {
                let x = (u as f64) / (SCALE as f64);
                let y = (v as f64) / (SCALE as f64);
                (perlin.get([x, y]) * (SCALE as f64)) as i64
            })
            .collect()
    }
}

/// Rotate a square grayscale buffer about its center by the fixed crater
/// angle with bicubic interpolation and the neutral mid-gray border.
fn bicubic_rotator(pixels: Vec<u8>, side: u32) -> Vec<u8> {
    let angle = (terragen::crater::CRATER_ANGLE as f64 / SCALE as f64) as f32;
    let img = GrayImage::from_raw(side, side, pixels).expect("square buffer");
    let out = rotate_about_center(
        &img,
        angle,
        Interpolation::Bicubic,
        Border::Constant(Luma([terragen::crater::CRATER_FILL])),
    );
    out.into_raw()
}

/// A small ring-shaped crater profile template.
fn ring_template() -> CraterTemplate {
    let side: u32 = 8;
    let mut pixels: Vec<u8> = Vec::new();
    for y in 0..side {
        for x in 0..side {
            let dx = x as i32 * 2 - 7;
            let dy = y as i32 * 2 - 7;
            let d2 = dx * dx + dy * dy;
            let p: u8 = if d2 < 16 {
                20
            } else if d2 < 36 {
                220
            } else {
                128
            };
            pixels.push(p);
        }
    }
    CraterTemplate::new(side, side, pixels).unwrap()
}

#[test]
fn lattice_coordinates_follow_the_transform() {
    // With frequency 1, no skew and unit stretch on a 4-by-4 grid:
    // u = x * 8 / 4 = 2 x and v = y * 8 / 4 = 2 y, in fixed point.
    let coords = sample_lattice(4, 4, STRETCH_NONE, 0, STRETCH_NONE);
    assert_eq!(coords.len(), 16);
    for y in 0..4usize {
        for x in 0..4usize {
            let (u, v) = coords[y * 4 + x];
            assert_eq!(u, (x as i64) * 2 * SCALE);
            assert_eq!(v, (y as i64) * 2 * SCALE);
        }
    }
}

#[test]
fn lattice_skew_shears_the_columns() {
    // Skew 2.0 adds 2 * y / width to the horizontal coordinate.
    let coords = sample_lattice(4, 4, STRETCH_NONE, 2 * SCALE, STRETCH_NONE);
    let (u_top, _) = coords[0 * 4 + 1];
    let (u_low, _) = coords[3 * 4 + 1];
    assert_eq!(u_top, 2 * SCALE);
    assert_eq!(u_low, 2 * SCALE + 3 * SCALE / 2);
}

#[test]
fn noise_field_from_real_samples_varies() {
    let sampler = perlin_sampler(7);
    // Frequency 0.2 on a 16-wide grid samples at multiples of 0.1, off the
    // integer lattice where gradient noise vanishes.
    let coords = sample_lattice(16, 16, terragen::compose::FREQ_GLOBAL, 0, STRETCH_NONE);
    let samples = sampler(coords);
    let g = field_from_samples(16, 16, &samples);
    let lo = min_in(&g).unwrap();
    let hi = max_in(&g).unwrap();
    assert!(lo < hi);
    assert!(lo >= -SCALE && hi <= SCALE);
}

#[test]
fn same_seed_reproduces_the_heightmap_bit_for_bit() {
    let template = ring_template();
    let make = |seed: u64| {
        generate_heightmap(
            seed,
            &template,
            24,
            20,
            3,
            perlin_sampler(seed as u32),
            bicubic_rotator,
        )
    };
    let a: DataGrid = make(987_654_321);
    let b: DataGrid = make(987_654_321);
    assert_eq!(a.width, b.width);
    assert_eq!(a.height, b.height);
    for y in 0..a.height {
        for x in 0..a.width {
            assert_eq!(a.get(x, y), b.get(x, y));
        }
    }
}

#[test]
fn generated_heightmap_has_shape_and_range() {
    let template = ring_template();
    let g = generate_heightmap(
        5,
        &template,
        20,
        12,
        2,
        perlin_sampler(5),
        bicubic_rotator,
    );
    assert_eq!(g.width, 20);
    assert_eq!(g.height, 12);
    for y in 0..g.height {
        for x in 0..g.width {
            let v = g.get(x, y).unwrap();
            assert!(v >= 0 && v <= SCALE);
        }
    }
}

#[test]
fn world_starts_zeroed_at_full_size() {
    let w = World::new();
    assert_eq!(w.heights.width, WIDTH);
    assert_eq!(w.heights.height, HEIGHT);
    assert_eq!(w.heights.get(0, 0), Some(0));
    assert_eq!(w.heights.get(WIDTH - 1, HEIGHT - 1), Some(0));
    assert_eq!(CRATER_COUNT, 5);
}

#[test]
fn full_size_generation_is_reproducible() {
    // A fast deterministic stand-in for the noise source and the rotation
    // keeps two full-size runs well within bounds while exercising every
    // verified stage at the real dimensions.
    let cheap_sampler = |coords: Vec<(i64, i64)>| -> Vec<i64> {
        coords
            .iter()
            .map(|&(u, v)| (u.wrapping_mul(31).wrapping_add(v.wrapping_mul(17))) % SCALE)
            .collect()
    };
    let cheap_rotator = |pixels: Vec<u8>, _side: u32| -> Vec<u8> {
        let mut p = pixels;
        p.reverse();
        p
    };
    let template = ring_template();
    let mut w1 = World::new();
    w1.generate(3, &template, cheap_sampler, cheap_rotator);
    let mut w2 = World::new();
    w2.generate(3, &template, cheap_sampler, cheap_rotator);
    assert_eq!(w1.heights.width, WIDTH);
    assert_eq!(w1.heights.height, HEIGHT);
    for y in (0..HEIGHT).step_by(73) {
        for x in (0..WIDTH).step_by(73) {
            let a = w1.heights.get(x, y).unwrap();
            assert_eq!(w2.heights.get(x, y), Some(a));
            assert!(a >= 0 && a <= SCALE);
        }
    }
    assert_eq!(w1.heights.values, w2.heights.values);
}

#[test]
fn rotation_pulls_the_neutral_border_into_corners() {
    // Rotating an all-black square by 1.8 radians maps the corners'
    // pre-images outside the input, so they take the neutral border; the
    // center stays black. An unrotated buffer would keep black corners.
    let rotated = bicubic_rotator(vec![0u8; 64], 8);
    assert_eq!(rotated.len(), 64);
    // Within interpolation rounding of the 128 border fill.
    assert!(rotated[0] >= 120);
    assert_eq!(rotated[4 * 8 + 4], 0);
}
