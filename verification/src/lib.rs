//! Procedural terrain heightmap generation.
//!
//! A heightmap is a dense two-dimensional field of elevation samples. This
//! crate builds one deterministically from a seed: several coherent-noise
//! layers are rescaled and combined into a shaped base elevation field, and
//! localized crater depressions derived from a raster template are stamped
//! onto it with an overlay blend.
//!
//! Elevation samples are fixed-point numbers: an `i64` counts units of
//! `1 / SCALE`, so that every constant of the pipeline is exact and every
//! step of the computation can be stated and proved over the integers.

use vstd::prelude::*;

pub mod compose;
pub mod crater;
pub mod fixed;
pub mod grid;
pub mod noise_field;
pub mod normalize;
pub mod raster;
pub mod rng;
pub mod world;

verus! {

/// Number of fixed-point units in 1.0.
///
/// The value is `65536 * 25`, which makes every quantity the pipeline needs
/// an exact number of units: the eight-bit pixel fraction `k / 256`, and
/// rational parameters with denominators 2, 4, 5, 8, 10, 16, 20, 100 and 200.
pub const SCALE: i64 = 1_638_400;

/// Fixed-point value of one half, the neutral mid level.
pub const HALF: i64 = 819_200;

/// Fixed-point units per eight-bit pixel step, `SCALE / 256`.
pub const PIXEL_UNIT: i64 = 6_400;

/// Bound (two to the fortieth) within which every sample and every rescale
/// target must lie, so that the intermediate products of the arithmetic
/// helpers fit in 128 bits. Every value the pipeline produces stays far
/// below it.
pub const VAL_LIMIT: i64 = 1_099_511_627_776;

/// Grid width of the full-size world heightmap.
pub const WIDTH: usize = 1024;

/// Grid height of the full-size world heightmap.
pub const HEIGHT: usize = 1024;

/// Base spatial period of the noise sampling lattice.
pub const TILING: i64 = 8;

} // verus!
