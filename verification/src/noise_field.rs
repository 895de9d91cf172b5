//! The noise sampling lattice. A noise field is built by evaluating a
//! coherent-noise function at one transformed coordinate pair per cell;
//! the transform shears the lattice by `skew` and compresses one axis by
//! `stretch`, so that one seeded source yields visually distinct but
//! reproducible fields.
//!
//! Evaluating the noise function itself takes floating point, which this
//! library does not hold: callers sample their source at the coordinates
//! this module computes, and hand the fixed-point sample values back to
//! `field_from_samples`.

use vstd::prelude::*;

use crate::fixed::{div_floor, lemma_div_bounds};
use crate::grid::{lemma_earlier_row_index, DataGrid};
use crate::{SCALE, TILING};

verus! {

broadcast use vstd::std_specs::vec::axiom_spec_len;

/// Upper bound on the lattice parameters: 64.0 in fixed point, far above
/// any frequency, skew or stretch the pipeline uses.
pub const PARAM_LIMIT: i64 = 104_857_600;

/// Lower bound on the stretch: 1/128 in fixed point. A smaller stretch
/// would blow the sheared coordinates out of range.
pub const STRETCH_FLOOR: i64 = 12_800;

/// What the horizontal sample coordinate of the cell at column `x`, row
/// `y` is: `(x * TILING * frequency + skew * y) / width`, in fixed point.
pub open spec fn u_coord_spec(x: int, y: int, frequency: int, skew: int, width: int) -> int {
    (x * (TILING as int) * frequency + skew * y) / width
}

/// What the vertical sample coordinate of the cell at row `y` is:
/// `(y * TILING * frequency / stretch) / height`, in fixed point (the
/// extra `SCALE` factor keeps the quotient of the two fixed-point numbers
/// in fixed point).
pub open spec fn v_coord_spec(y: int, frequency: int, stretch: int, height: int) -> int {
    (y * (TILING as int) * frequency * (SCALE as int)) / stretch / height
}

/// The whole sampling lattice as one row-major sequence: entry `i` holds
/// the transformed coordinates of the cell at column `i % width`, row
/// `i / width`.
pub open spec fn lattice_seq_spec(
    width: u32,
    height: u32,
    frequency: i64,
    skew: i64,
    stretch: i64,
) -> Seq<(i64, i64)> {
    Seq::new(
        (width * height) as nat,
        |i: int|
            (
                u_coord_spec(
                    i % (width as int),
                    i / (width as int),
                    frequency as int,
                    skew as int,
                    width as int,
                ) as i64,
                v_coord_spec(
                    i / (width as int),
                    frequency as int,
                    stretch as int,
                    height as int,
                ) as i64,
            ),
    )
}

/// What a layer's cell buffer is, given whatever the noise source returned:
/// the sample vector cut or padded with zeros to one entry per cell, each
/// entry clamped into `[-1, 1]`.
pub open spec fn layer_cells_spec(samples: Seq<i64>, n: nat) -> Seq<i64> {
    Seq::new(
        n,
        |i: int|
            clamp_sample_spec(
                if i < samples.len() {
                    samples[i]
                } else {
                    0i64
                },
            ),
    )
}

/// The transformed sample coordinates of one cell.
pub fn noise_coords(
    x: u32,
    y: u32,
    frequency: i64,
    skew: i64,
    stretch: i64,
    width: u32,
    height: u32,
) -> (r: (i64, i64))
    requires
        0 < width <= 0x1_0000,
        0 < height <= 0x1_0000,
        x < width,
        y < height,
        0 <= frequency <= PARAM_LIMIT,
        -PARAM_LIMIT <= skew <= PARAM_LIMIT,
        STRETCH_FLOOR <= stretch <= PARAM_LIMIT,
    ensures
        r.0 == u_coord_spec(x as int, y as int, frequency as int, skew as int, width as int),
        r.1 == v_coord_spec(y as int, frequency as int, stretch as int, height as int),
{
    proof {
        let xi = x as int;
        let yi = y as int;
        let f = frequency as int;
        let sk = skew as int;
        assert(0 <= xi * 8 * f <= 54_975_581_388_800 && -6_871_947_673_600 <= sk * yi
            <= 6_871_947_673_600 && -61_847_529_062_400 <= xi * 8 * f + sk * yi
            <= 61_847_529_062_400) by (nonlinear_arith)
            requires
                0 <= xi <= 0x1_0000,
                0 <= yi <= 0x1_0000,
                0 <= f <= PARAM_LIMIT,
                -PARAM_LIMIT <= sk <= PARAM_LIMIT,
        ;
    }
    let u_num: i128 = (x as i128) * (TILING as i128) * (frequency as i128) + (skew as i128)
        * (y as i128);
    proof {
        assert((-61_847_529_062_400) * (width as int) <= u_num as int && u_num as int
            <= 61_847_529_062_400 * (width as int)) by (nonlinear_arith)
            requires
                -61_847_529_062_400 <= u_num as int <= 61_847_529_062_400,
                1 <= width as int,
        ;
        lemma_div_bounds(u_num as int, width as int, -61_847_529_062_400, 61_847_529_062_400);
    }
    let u: i64 = div_floor(u_num, width as i128) as i64;
    proof {
        let yi = y as int;
        let f = frequency as int;
        assert(0 <= yi * 8 * f * (SCALE as int)
            <= 0x4_e200_0000_0000_0000) by (nonlinear_arith)
            requires
                0 <= yi <= 0x1_0000,
                0 <= f <= PARAM_LIMIT,
        ;
    }
    let v_num: i128 = (y as i128) * (TILING as i128) * (frequency as i128) * (SCALE as i128);
    proof {
        assert(0 * (stretch as int) <= v_num as int && v_num as int <= 0x80_0000_0000_0000
            * (stretch as int)) by (nonlinear_arith)
            requires
                0 <= v_num as int <= 0x4_e200_0000_0000_0000,
                12_800 <= stretch as int,
        ;
        lemma_div_bounds(v_num as int, stretch as int, 0, 0x80_0000_0000_0000);
    }
    let v_mid: i128 = div_floor(v_num, stretch as i128);
    proof {
        assert(0 * (height as int) <= v_mid as int && v_mid as int <= 0x80_0000_0000_0000
            * (height as int)) by (nonlinear_arith)
            requires
                0 <= v_mid as int <= 0x80_0000_0000_0000,
                1 <= height as int,
        ;
        lemma_div_bounds(v_mid as int, height as int, 0, 0x80_0000_0000_0000);
    }
    let v: i64 = div_floor(v_mid, height as i128) as i64;
    (u, v)
}

/// The sample coordinates of a whole `width` by `height` lattice, one
/// pair per cell in row-major order.
pub fn sample_lattice(width: u32, height: u32, frequency: i64, skew: i64, stretch: i64) -> (r:
    Vec<(i64, i64)>)
    requires
        0 < width <= 0x1_0000,
        0 < height <= 0x1_0000,
        0 <= frequency <= PARAM_LIMIT,
        -PARAM_LIMIT <= skew <= PARAM_LIMIT,
        STRETCH_FLOOR <= stretch <= PARAM_LIMIT,
    ensures
        r@.len() == width * height,
        forall|x: int, y: int|
            0 <= x < width && 0 <= y < height ==> #[trigger] r@[y * width + x].0 == u_coord_spec(x, y, frequency as int, skew as int, width as int)
            && r@[y * width + x].1 == v_coord_spec(y, frequency as int, stretch as int, height as int),
        r@ == lattice_seq_spec(width, height, frequency, skew, stretch),
{
    let w = width as usize;
    let h = height as usize;
    let mut coords: Vec<(i64, i64)> = Vec::new();
    let mut y: usize = 0;
    while y < h
        invariant
            y <= h,
            w == width,
            h == height,
            0 < width <= 0x1_0000,
            0 < height <= 0x1_0000,
            0 <= frequency <= PARAM_LIMIT,
            -PARAM_LIMIT <= skew <= PARAM_LIMIT,
            STRETCH_FLOOR <= stretch <= PARAM_LIMIT,
            coords@.len() == y * w,
            forall|cx: int, cy: int|
                0 <= cx < width && 0 <= cy < y ==> #[trigger] coords@[cy * width + cx].0 == u_coord_spec(cx, cy, frequency as int, skew as int, width as int)
                && coords@[cy * width + cx].1 == v_coord_spec(cy, frequency as int, stretch as int, height as int),
        decreases h - y,
    {
        let mut x: usize = 0;
        while x < w
            invariant
                x <= w,
                y < h,
                w == width,
                h == height,
                0 < width <= 0x1_0000,
                0 < height <= 0x1_0000,
                0 <= frequency <= PARAM_LIMIT,
                -PARAM_LIMIT <= skew <= PARAM_LIMIT,
                STRETCH_FLOOR <= stretch <= PARAM_LIMIT,
                coords@.len() == y * w + x,
                forall|cx: int, cy: int|
                    0 <= cx < width && 0 <= cy < y ==> #[trigger] coords@[cy * width + cx].0 == u_coord_spec(cx, cy, frequency as int, skew as int, width as int)
                    && coords@[cy * width + cx].1 == v_coord_spec(cy, frequency as int, stretch as int, height as int),
                forall|cx: int|
                    0 <= cx < x ==> #[trigger] coords@[y * width + cx].0 == u_coord_spec(cx, y as int, frequency as int, skew as int, width as int)
                    && coords@[y * width + cx].1 == v_coord_spec(y as int, frequency as int, stretch as int, height as int),
            decreases w - x,
        {
            let c: (i64, i64) = noise_coords(
                x as u32,
                y as u32,
                frequency,
                skew,
                stretch,
                width,
                height,
            );
            coords.push(c);
            x = x + 1;
            assert forall|cx: int, cy: int| 0 <= cx < width && 0 <= cy < y
                implies #[trigger] coords@[cy * width + cx].0 == u_coord_spec(cx, cy, frequency as int, skew as int, width as int)
                && coords@[cy * width + cx].1 == v_coord_spec(cy, frequency as int, stretch as int, height as int) by {
                lemma_earlier_row_index(cy, cx, y as int, width as int);
            }
        }
        y = y + 1;
        proof {
            assert((y - 1) * (width as int) + width == y * width) by (nonlinear_arith);
        }
    }
    proof {
        assert(y * (width as int) == width * height) by (nonlinear_arith)
            requires
                y == height as int,
        ;
        let w = width as int;
        let hh = height as int;
        let lat = lattice_seq_spec(width, height, frequency, skew, stretch);
        assert forall|i: int| 0 <= i < coords@.len() implies coords@[i] == lat[i] by {
            let yy = i / w;
            let xx = i % w;
            vstd::arithmetic::div_mod::lemma_fundamental_div_mod(i, w);
            vstd::arithmetic::div_mod::lemma_mod_bound(i, w);
            assert(0 <= yy && yy < hh) by (nonlinear_arith)
                requires
                    w > 0,
                    0 <= xx < w,
                    0 <= i,
                    i < w * hh,
                    i == w * yy + xx,
            ;
            assert(yy * w + xx == i) by (nonlinear_arith)
                requires
                    i == w * yy + xx,
            ;
            assert(coords@[yy * w + xx].0 == u_coord_spec(
                xx,
                yy,
                frequency as int,
                skew as int,
                w,
            ));
        }
        assert(coords@ =~= lat);
    }
    coords
}

/// What clamping a raw noise sample into `[-1, 1]` is. The noise source
/// already promises that range; the clamp makes the bound unconditional.
pub open spec fn clamp_sample_spec(v: i64) -> i64 {
    if v < -SCALE {
        (-SCALE) as i64
    } else if v > SCALE {
        SCALE
    } else {
        v
    }
}

/// Assemble a noise field from externally sampled values, one per cell in
/// row-major order; each sample is clamped into `[-1, 1]`.
pub fn field_from_samples(width: u32, height: u32, samples: &Vec<i64>) -> (g: DataGrid)
    requires
        samples@.len() == width * height,
    ensures
        g.wf(),
        g.width == width,
        g.height == height,
        g.values@.len() == samples@.len(),
        forall|i: int|
            0 <= i < samples@.len() ==> #[trigger] g.values@[i] == clamp_sample_spec(
                samples@[i],
            ),
        g.all_within(-SCALE as int, SCALE as int),
{
    let n: usize = samples.len();
    let mut values: Vec<i64> = Vec::new();
    let mut i: usize = 0;
    while i < n
        invariant
            i <= n,
            n == samples@.len(),
            values@.len() == i,
            forall|j: int|
                0 <= j < i ==> #[trigger] values@[j] == clamp_sample_spec(samples@[j]),
            forall|j: int| 0 <= j < i ==> -SCALE <= #[trigger] values@[j] <= SCALE,
        decreases n - i,
    {
        let v: i64 = samples[i];
        let c: i64 = if v < -SCALE {
            -SCALE
        } else if v > SCALE {
            SCALE
        } else {
            v
        };
        values.push(c);
        i = i + 1;
    }
    DataGrid { width: width as usize, height: height as usize, values }
}

} // verus!
