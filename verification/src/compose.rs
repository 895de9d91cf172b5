//! The layer compositor: ten rescaled noise fields are combined into one
//! shaped base elevation field. Six octave fields are summed under a detail
//! mask, added to two regional fields, gated by a global mask, pushed
//! through a smooth cubic threshold between 0.35 and 0.65, and compressed
//! into `[0.25, 0.75]`.

use vstd::prelude::*;

use crate::fixed::{fp_mul, fp_mul_spec, sstep, sstep_spec};
use crate::grid::DataGrid;
use crate::normalize::{lemma_remap_cells_within, remap_cells_spec, remap_data_grid};
use crate::{SCALE, VAL_LIMIT};

verus! {

broadcast use vstd::std_specs::vec::axiom_spec_len;

/// Frequency of the global mask field: 0.2 in fixed point.
pub const FREQ_GLOBAL: i64 = 327_680;

/// Frequency of both regional undulation fields: 0.45.
pub const FREQ_REGIONAL: i64 = 737_280;

/// Skew of the first regional field: 2.0.
pub const SKEW_REGIONAL_A: i64 = 3_276_800;

/// Skew of the second regional field: -0.5.
pub const SKEW_REGIONAL_B: i64 = -819_200;

/// Stretch of the second regional field: 3.5.
pub const STRETCH_REGIONAL_B: i64 = 5_734_400;

/// Frequencies of the six octave detail fields: 1, 2, 4, 8, 16 and 24.
pub const FREQ_DETAIL_1: i64 = 1_638_400;

/// Second octave frequency.
pub const FREQ_DETAIL_2: i64 = 3_276_800;

/// Third octave frequency.
pub const FREQ_DETAIL_3: i64 = 6_553_600;

/// Fourth octave frequency.
pub const FREQ_DETAIL_4: i64 = 13_107_200;

/// Fifth octave frequency.
pub const FREQ_DETAIL_5: i64 = 26_214_400;

/// Sixth octave frequency.
pub const FREQ_DETAIL_6: i64 = 39_321_600;

/// Frequency of the detail mask field: 0.3.
pub const FREQ_DETAIL_MASK: i64 = 491_520;

/// Skew of the detail mask field: 6.0.
pub const SKEW_DETAIL_MASK: i64 = 9_830_400;

/// Stretch of the detail mask field: 2.0.
pub const STRETCH_DETAIL_MASK: i64 = 3_276_800;

/// Neutral lattice skew.
pub const SKEW_NONE: i64 = 0;

/// Neutral lattice stretch: 1.0.
pub const STRETCH_NONE: i64 = 1_638_400;

/// Rescale ceiling of the regional fields: 0.25.
pub const RANGE_REGIONAL: i64 = 409_600;

/// Rescale ceilings of the six octave fields: 0.5, 0.25, 0.125, 0.0625,
/// 0.03 and 0.015.
pub const RANGE_DETAIL_1: i64 = 819_200;

/// Second octave ceiling.
pub const RANGE_DETAIL_2: i64 = 409_600;

/// Third octave ceiling.
pub const RANGE_DETAIL_3: i64 = 204_800;

/// Fourth octave ceiling.
pub const RANGE_DETAIL_4: i64 = 102_400;

/// Fifth octave ceiling.
pub const RANGE_DETAIL_5: i64 = 49_152;

/// Sixth octave ceiling.
pub const RANGE_DETAIL_6: i64 = 24_576;

/// Rescale floor of the detail mask: 0.3 (its ceiling is 1).
pub const RANGE_DETAIL_MASK_LO: i64 = 491_520;

/// Rescale ceiling of the summed detail term: 0.15.
pub const RANGE_DETAIL_SUM: i64 = 245_760;

/// Lower edge of the smooth threshold: 0.35.
pub const THRESHOLD_LO: i64 = 573_440;

/// Upper edge of the smooth threshold: 0.65.
pub const THRESHOLD_HI: i64 = 1_064_960;

/// Floor of the final compression: 0.25.
pub const RANGE_FINAL_LO: i64 = 409_600;

/// Ceiling of the final compression: 0.75.
pub const RANGE_FINAL_HI: i64 = 1_228_800;

/// The ten raw noise fields the compositor consumes, all of one shape.
pub struct NoiseLayers {
    pub global_mask: DataGrid,
    pub regional_a: DataGrid,
    pub regional_b: DataGrid,
    pub detail_1: DataGrid,
    pub detail_2: DataGrid,
    pub detail_3: DataGrid,
    pub detail_4: DataGrid,
    pub detail_5: DataGrid,
    pub detail_6: DataGrid,
    pub detail_mask: DataGrid,
}

impl NoiseLayers {
    /// All ten fields are well formed, share the global mask's shape, and
    /// hold samples the arithmetic can take.
    pub open spec fn wf(self) -> bool {
        &&& self.global_mask.wf()
        &&& self.regional_a.wf()
        &&& self.regional_b.wf()
        &&& self.detail_1.wf()
        &&& self.detail_2.wf()
        &&& self.detail_3.wf()
        &&& self.detail_4.wf()
        &&& self.detail_5.wf()
        &&& self.detail_6.wf()
        &&& self.detail_mask.wf()
        &&& self.regional_a.width == self.global_mask.width
        &&& self.regional_b.width == self.global_mask.width
        &&& self.detail_1.width == self.global_mask.width
        &&& self.detail_2.width == self.global_mask.width
        &&& self.detail_3.width == self.global_mask.width
        &&& self.detail_4.width == self.global_mask.width
        &&& self.detail_5.width == self.global_mask.width
        &&& self.detail_6.width == self.global_mask.width
        &&& self.detail_mask.width == self.global_mask.width
        &&& self.regional_a.height == self.global_mask.height
        &&& self.regional_b.height == self.global_mask.height
        &&& self.detail_1.height == self.global_mask.height
        &&& self.detail_2.height == self.global_mask.height
        &&& self.detail_3.height == self.global_mask.height
        &&& self.detail_4.height == self.global_mask.height
        &&& self.detail_5.height == self.global_mask.height
        &&& self.detail_6.height == self.global_mask.height
        &&& self.detail_mask.height == self.global_mask.height
        &&& self.global_mask.all_within(-VAL_LIMIT as int, VAL_LIMIT as int)
        &&& self.regional_a.all_within(-VAL_LIMIT as int, VAL_LIMIT as int)
        &&& self.regional_b.all_within(-VAL_LIMIT as int, VAL_LIMIT as int)
        &&& self.detail_1.all_within(-VAL_LIMIT as int, VAL_LIMIT as int)
        &&& self.detail_2.all_within(-VAL_LIMIT as int, VAL_LIMIT as int)
        &&& self.detail_3.all_within(-VAL_LIMIT as int, VAL_LIMIT as int)
        &&& self.detail_4.all_within(-VAL_LIMIT as int, VAL_LIMIT as int)
        &&& self.detail_5.all_within(-VAL_LIMIT as int, VAL_LIMIT as int)
        &&& self.detail_6.all_within(-VAL_LIMIT as int, VAL_LIMIT as int)
        &&& self.detail_mask.all_within(-VAL_LIMIT as int, VAL_LIMIT as int)
    }
}

/// What summing the six rescaled octaves under the rescaled detail mask is.
pub open spec fn detail_sum_spec(
    d1: Seq<i64>,
    d2: Seq<i64>,
    d3: Seq<i64>,
    d4: Seq<i64>,
    d5: Seq<i64>,
    d6: Seq<i64>,
    dm: Seq<i64>,
) -> Seq<i64> {
    Seq::new(
        d1.len(),
        |i: int|
            fp_mul_spec(
                d1[i] + d2[i] + d3[i] + d4[i] + d5[i] + d6[i],
                dm[i] as int,
            ) as i64,
    )
}

/// What gating the regional and detail terms by the global mask is.
pub open spec fn masked_sum_spec(g: Seq<i64>, ra: Seq<i64>, rb: Seq<i64>, ds: Seq<i64>) -> Seq<
    i64,
> {
    Seq::new(g.len(), |i: int| fp_mul_spec(g[i] as int, ra[i] + rb[i] + ds[i]) as i64)
}

/// What applying the smooth threshold to every sample is.
pub open spec fn shaped_spec(s: Seq<i64>) -> Seq<i64> {
    Seq::new(s.len(), |i: int| sstep_spec(s[i] as int, THRESHOLD_LO as int, THRESHOLD_HI as int) as i64)
}

/// What the composed base elevation field is, from the ten raw noise
/// buffers: each field rescaled to its target range, the octaves summed
/// under the detail mask and rescaled, the whole gated by the global mask,
/// rescaled, shaped by the smooth threshold, and compressed into
/// `[0.25, 0.75]`.
pub open spec fn base_field_spec(
    g: Seq<i64>,
    ra: Seq<i64>,
    rb: Seq<i64>,
    d1: Seq<i64>,
    d2: Seq<i64>,
    d3: Seq<i64>,
    d4: Seq<i64>,
    d5: Seq<i64>,
    d6: Seq<i64>,
    dm: Seq<i64>,
) -> Seq<i64> {
    let g2 = remap_cells_spec(g, 0, SCALE);
    let ra2 = remap_cells_spec(ra, 0, RANGE_REGIONAL);
    let rb2 = remap_cells_spec(rb, 0, RANGE_REGIONAL);
    let d1r = remap_cells_spec(d1, 0, RANGE_DETAIL_1);
    let d2r = remap_cells_spec(d2, 0, RANGE_DETAIL_2);
    let d3r = remap_cells_spec(d3, 0, RANGE_DETAIL_3);
    let d4r = remap_cells_spec(d4, 0, RANGE_DETAIL_4);
    let d5r = remap_cells_spec(d5, 0, RANGE_DETAIL_5);
    let d6r = remap_cells_spec(d6, 0, RANGE_DETAIL_6);
    let dmr = remap_cells_spec(dm, RANGE_DETAIL_MASK_LO, SCALE);
    let ds = remap_cells_spec(detail_sum_spec(d1r, d2r, d3r, d4r, d5r, d6r, dmr), 0, RANGE_DETAIL_SUM);
    let raw = remap_cells_spec(masked_sum_spec(g2, ra2, rb2, ds), 0, SCALE);
    remap_cells_spec(shaped_spec(raw), RANGE_FINAL_LO, RANGE_FINAL_HI)
}

/// Compose the base elevation field from ten raw noise fields. The result
/// has the common shape of the inputs and is exactly the composition that
/// `base_field_spec` states, so equal layer stacks give equal fields.
pub fn compose_base_field(layers: NoiseLayers) -> (g: DataGrid)
    requires
        layers.wf(),
    ensures
        g.wf(),
        g.width == layers.global_mask.width,
        g.height == layers.global_mask.height,
        g.values@ == base_field_spec(
            layers.global_mask.values@,
            layers.regional_a.values@,
            layers.regional_b.values@,
            layers.detail_1.values@,
            layers.detail_2.values@,
            layers.detail_3.values@,
            layers.detail_4.values@,
            layers.detail_5.values@,
            layers.detail_6.values@,
            layers.detail_mask.values@,
        ),
        g.all_within(RANGE_FINAL_LO as int, RANGE_FINAL_HI as int),
{
    let NoiseLayers {
        global_mask: mut g2,
        regional_a: mut ra,
        regional_b: mut rb,
        detail_1: mut d1,
        detail_2: mut d2,
        detail_3: mut d3,
        detail_4: mut d4,
        detail_5: mut d5,
        detail_6: mut d6,
        detail_mask: mut dm,
    } = layers;
    remap_data_grid(&mut g2, 0, SCALE);
    remap_data_grid(&mut ra, 0, RANGE_REGIONAL);
    remap_data_grid(&mut rb, 0, RANGE_REGIONAL);
    remap_data_grid(&mut d1, 0, RANGE_DETAIL_1);
    remap_data_grid(&mut d2, 0, RANGE_DETAIL_2);
    remap_data_grid(&mut d3, 0, RANGE_DETAIL_3);
    remap_data_grid(&mut d4, 0, RANGE_DETAIL_4);
    remap_data_grid(&mut d5, 0, RANGE_DETAIL_5);
    remap_data_grid(&mut d6, 0, RANGE_DETAIL_6);
    remap_data_grid(&mut dm, RANGE_DETAIL_MASK_LO, SCALE);
    proof {
        lemma_remap_cells_within(layers.global_mask.values@, 0, SCALE);
        lemma_remap_cells_within(layers.regional_a.values@, 0, RANGE_REGIONAL);
        lemma_remap_cells_within(layers.regional_b.values@, 0, RANGE_REGIONAL);
        lemma_remap_cells_within(layers.detail_1.values@, 0, RANGE_DETAIL_1);
        lemma_remap_cells_within(layers.detail_2.values@, 0, RANGE_DETAIL_2);
        lemma_remap_cells_within(layers.detail_3.values@, 0, RANGE_DETAIL_3);
        lemma_remap_cells_within(layers.detail_4.values@, 0, RANGE_DETAIL_4);
        lemma_remap_cells_within(layers.detail_5.values@, 0, RANGE_DETAIL_5);
        lemma_remap_cells_within(layers.detail_6.values@, 0, RANGE_DETAIL_6);
        lemma_remap_cells_within(layers.detail_mask.values@, RANGE_DETAIL_MASK_LO, SCALE);
    }
    let n: usize = d1.values.len();
    let mut sum_values: Vec<i64> = Vec::new();
    let mut i: usize = 0;
    while i < n
        invariant
            i <= n,
            n == d1.values@.len(),
            d1.values@.len() == d2.values@.len(),
            d1.values@.len() == d3.values@.len(),
            d1.values@.len() == d4.values@.len(),
            d1.values@.len() == d5.values@.len(),
            d1.values@.len() == d6.values@.len(),
            d1.values@.len() == dm.values@.len(),
            forall|j: int| 0 <= j < n ==> 0 <= #[trigger] d1.values@[j] <= RANGE_DETAIL_1,
            forall|j: int| 0 <= j < n ==> 0 <= #[trigger] d2.values@[j] <= RANGE_DETAIL_2,
            forall|j: int| 0 <= j < n ==> 0 <= #[trigger] d3.values@[j] <= RANGE_DETAIL_3,
            forall|j: int| 0 <= j < n ==> 0 <= #[trigger] d4.values@[j] <= RANGE_DETAIL_4,
            forall|j: int| 0 <= j < n ==> 0 <= #[trigger] d5.values@[j] <= RANGE_DETAIL_5,
            forall|j: int| 0 <= j < n ==> 0 <= #[trigger] d6.values@[j] <= RANGE_DETAIL_6,
            forall|j: int| 0 <= j < n ==> 0 <= #[trigger] dm.values@[j] <= SCALE,
            sum_values@.len() == i,
            forall|j: int|
                0 <= j < i ==> #[trigger] sum_values@[j] == detail_sum_spec(
                    d1.values@,
                    d2.values@,
                    d3.values@,
                    d4.values@,
                    d5.values@,
                    d6.values@,
                    dm.values@,
                )[j],
            forall|j: int| 0 <= j < i ==> -VAL_LIMIT <= #[trigger] sum_values@[j] <= VAL_LIMIT,
        decreases n - i,
    {
        let s: i64 = d1.values[i] + d2.values[i] + d3.values[i] + d4.values[i] + d5.values[i]
            + d6.values[i];
        let m: i64 = fp_mul(s, dm.values[i]);
        proof {
            assert(0 * (SCALE as int) <= (s as int) * (dm.values@[i as int] as int)
                && (s as int) * (dm.values@[i as int] as int) <= (s as int) * (SCALE as int))
                by (nonlinear_arith)
                requires
                    0 <= s as int,
                    0 <= dm.values@[i as int] as int <= SCALE as int,
            ;
            crate::fixed::lemma_div_bounds(
                (s as int) * (dm.values@[i as int] as int),
                SCALE as int,
                0,
                s as int,
            );
        }
        sum_values.push(m);
        i = i + 1;
    }
    let mut dsum = DataGrid { width: d1.width, height: d1.height, values: sum_values };
    proof {
        assert(dsum.values@ =~= detail_sum_spec(
            d1.values@,
            d2.values@,
            d3.values@,
            d4.values@,
            d5.values@,
            d6.values@,
            dm.values@,
        ));
    }
    remap_data_grid(&mut dsum, 0, RANGE_DETAIL_SUM);
    proof {
        lemma_remap_cells_within(
            detail_sum_spec(
                d1.values@,
                d2.values@,
                d3.values@,
                d4.values@,
                d5.values@,
                d6.values@,
                dm.values@,
            ),
            0,
            RANGE_DETAIL_SUM,
        );
    }
    let mut raw_values: Vec<i64> = Vec::new();
    let mut i: usize = 0;
    while i < n
        invariant
            i <= n,
            n == g2.values@.len(),
            g2.values@.len() == ra.values@.len(),
            g2.values@.len() == rb.values@.len(),
            g2.values@.len() == dsum.values@.len(),
            forall|j: int| 0 <= j < n ==> 0 <= #[trigger] g2.values@[j] <= SCALE,
            forall|j: int| 0 <= j < n ==> 0 <= #[trigger] ra.values@[j] <= RANGE_REGIONAL,
            forall|j: int| 0 <= j < n ==> 0 <= #[trigger] rb.values@[j] <= RANGE_REGIONAL,
            forall|j: int| 0 <= j < n ==> 0 <= #[trigger] dsum.values@[j] <= RANGE_DETAIL_SUM,
            raw_values@.len() == i,
            forall|j: int|
                0 <= j < i ==> #[trigger] raw_values@[j] == masked_sum_spec(
                    g2.values@,
                    ra.values@,
                    rb.values@,
                    dsum.values@,
                )[j],
            forall|j: int| 0 <= j < i ==> -VAL_LIMIT <= #[trigger] raw_values@[j] <= VAL_LIMIT,
        decreases n - i,
    {
        let s: i64 = ra.values[i] + rb.values[i] + dsum.values[i];
        let m: i64 = fp_mul(g2.values[i], s);
        proof {
            assert(0 * (SCALE as int) <= (g2.values@[i as int] as int) * (s as int)
                && (g2.values@[i as int] as int) * (s as int) <= (s as int) * (SCALE as int))
                by (nonlinear_arith)
                requires
                    0 <= s as int,
                    0 <= g2.values@[i as int] as int <= SCALE as int,
            ;
            crate::fixed::lemma_div_bounds(
                (g2.values@[i as int] as int) * (s as int),
                SCALE as int,
                0,
                s as int,
            );
        }
        raw_values.push(m);
        i = i + 1;
    }
    let mut raw = DataGrid { width: g2.width, height: g2.height, values: raw_values };
    proof {
        assert(raw.values@ =~= masked_sum_spec(g2.values@, ra.values@, rb.values@, dsum.values@));
    }
    remap_data_grid(&mut raw, 0, SCALE);
    proof {
        lemma_remap_cells_within(
            masked_sum_spec(g2.values@, ra.values@, rb.values@, dsum.values@),
            0,
            SCALE,
        );
    }
    let mut shaped_values: Vec<i64> = Vec::new();
    let mut i: usize = 0;
    while i < n
        invariant
            i <= n,
            n == raw.values@.len(),
            forall|j: int| 0 <= j < n ==> 0 <= #[trigger] raw.values@[j] <= SCALE,
            shaped_values@.len() == i,
            forall|j: int|
                0 <= j < i ==> #[trigger] shaped_values@[j] == shaped_spec(raw.values@)[j],
            forall|j: int|
                0 <= j < i ==> -VAL_LIMIT <= #[trigger] shaped_values@[j] <= VAL_LIMIT,
        decreases n - i,
    {
        let v: i64 = sstep(raw.values[i], THRESHOLD_LO, THRESHOLD_HI);
        shaped_values.push(v);
        i = i + 1;
    }
    let mut shaped = DataGrid { width: raw.width, height: raw.height, values: shaped_values };
    proof {
        assert(shaped.values@ =~= shaped_spec(raw.values@));
    }
    remap_data_grid(&mut shaped, RANGE_FINAL_LO, RANGE_FINAL_HI);
    proof {
        lemma_remap_cells_within(shaped_spec(raw.values@), RANGE_FINAL_LO, RANGE_FINAL_HI);
    }
    shaped
}

} // verus!
