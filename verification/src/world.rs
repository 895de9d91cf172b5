//! The world heightmap and the generation entry point.
//!
//! Generation layers ten noise fields into a shaped base elevation and
//! stamps crater depressions onto it. Two steps of the pipeline evaluate
//! in floating point, which this library does not hold: sampling the
//! coherent-noise source, and rotating a resized crater template. The
//! caller supplies both as functions. Everything around them is verified
//! here, and `generated_from` pins the result exactly: the heightmap is
//! the stated composition and stamping of values those two functions
//! actually returned, for the lattices and resized templates the seed
//! determines - so two runs whose functions answer alike on like inputs
//! produce bit-identical heightmaps.

use vstd::prelude::*;

use crate::compose::{
    base_field_spec, compose_base_field, NoiseLayers, FREQ_DETAIL_1, FREQ_DETAIL_2, FREQ_DETAIL_3,
    FREQ_DETAIL_4, FREQ_DETAIL_5, FREQ_DETAIL_6, FREQ_DETAIL_MASK, FREQ_GLOBAL, FREQ_REGIONAL,
    RANGE_FINAL_HI, RANGE_FINAL_LO, SKEW_DETAIL_MASK, SKEW_NONE, SKEW_REGIONAL_A, SKEW_REGIONAL_B,
    STRETCH_DETAIL_MASK, STRETCH_NONE, STRETCH_REGIONAL_B,
};
use crate::crater::{
    crater_cells_spec, draw_stamp_params, lemma_stamped_upto_respects_views, resize_template,
    stamp_crater, stamp_size_spec, stamp_state_spec, stamped_cells_spec, stamped_upto_spec,
    CraterTemplate, CRATER_FILL,
};
use crate::grid::{new_data_grid, DataGrid};
use crate::noise_field::{field_from_samples, lattice_seq_spec, layer_cells_spec, sample_lattice};
use crate::raster::{from_image, resized_of};
use crate::{HEIGHT, SCALE, WIDTH};

verus! {

broadcast use vstd::std_specs::vec::axiom_spec_len;

/// Number of crater stamps in a full generation run.
pub const CRATER_COUNT: u32 = 5;

/// The world: the single long-lived heightmap grid, mutated in place by
/// generation and handed to the rendering collaborators once finished.
pub struct World {
    pub heights: DataGrid,
}

/// The ten raw sample vectors one generation run drew from its noise
/// source, one per layer of the parameter table.
pub struct LayerSamples {
    pub global_mask: Vec<i64>,
    pub regional_a: Vec<i64>,
    pub regional_b: Vec<i64>,
    pub detail_1: Vec<i64>,
    pub detail_2: Vec<i64>,
    pub detail_3: Vec<i64>,
    pub detail_4: Vec<i64>,
    pub detail_5: Vec<i64>,
    pub detail_6: Vec<i64>,
    pub detail_mask: Vec<i64>,
}

/// Whether `out` is a value the sampler returned for the sampling lattice
/// of the layer with the given parameters.
pub open spec fn sampled_layer<S: Fn(Vec<(i64, i64)>) -> Vec<i64>>(
    sampler: S,
    width: u32,
    height: u32,
    frequency: i64,
    skew: i64,
    stretch: i64,
    out: Vec<i64>,
) -> bool {
    exists|lat: Vec<(i64, i64)>|
        #[trigger] sampler.ensures((lat,), out) && lat@ == lattice_seq_spec(
            width,
            height,
            frequency,
            skew,
            stretch,
        )
}

/// Whether every vector of `layers` is a sampler return for its layer's
/// lattice, under the fixed parameter table.
pub open spec fn layers_sampled<S: Fn(Vec<(i64, i64)>) -> Vec<i64>>(
    sampler: S,
    width: u32,
    height: u32,
    layers: LayerSamples,
) -> bool {
    &&& sampled_layer(sampler, width, height, FREQ_GLOBAL, SKEW_NONE, STRETCH_NONE, layers.global_mask)
    &&& sampled_layer(
        sampler,
        width,
        height,
        FREQ_REGIONAL,
        SKEW_REGIONAL_A,
        STRETCH_NONE,
        layers.regional_a,
    )
    &&& sampled_layer(
        sampler,
        width,
        height,
        FREQ_REGIONAL,
        SKEW_REGIONAL_B,
        STRETCH_REGIONAL_B,
        layers.regional_b,
    )
    &&& sampled_layer(sampler, width, height, FREQ_DETAIL_1, SKEW_NONE, STRETCH_NONE, layers.detail_1)
    &&& sampled_layer(sampler, width, height, FREQ_DETAIL_2, SKEW_NONE, STRETCH_NONE, layers.detail_2)
    &&& sampled_layer(sampler, width, height, FREQ_DETAIL_3, SKEW_NONE, STRETCH_NONE, layers.detail_3)
    &&& sampled_layer(sampler, width, height, FREQ_DETAIL_4, SKEW_NONE, STRETCH_NONE, layers.detail_4)
    &&& sampled_layer(sampler, width, height, FREQ_DETAIL_5, SKEW_NONE, STRETCH_NONE, layers.detail_5)
    &&& sampled_layer(sampler, width, height, FREQ_DETAIL_6, SKEW_NONE, STRETCH_NONE, layers.detail_6)
    &&& sampled_layer(
        sampler,
        width,
        height,
        FREQ_DETAIL_MASK,
        SKEW_DETAIL_MASK,
        STRETCH_DETAIL_MASK,
        layers.detail_mask,
    )
}

/// What the composed base elevation is for those raw sample vectors: each
/// cut or padded to one sample per cell, clamped, and composed by the
/// layer compositor.
pub open spec fn base_from_samples_spec(layers: LayerSamples, width: u32, height: u32) -> Seq<
    i64,
> {
    let n = (width * height) as nat;
    base_field_spec(
        layer_cells_spec(layers.global_mask@, n),
        layer_cells_spec(layers.regional_a@, n),
        layer_cells_spec(layers.regional_b@, n),
        layer_cells_spec(layers.detail_1@, n),
        layer_cells_spec(layers.detail_2@, n),
        layer_cells_spec(layers.detail_3@, n),
        layer_cells_spec(layers.detail_4@, n),
        layer_cells_spec(layers.detail_5@, n),
        layer_cells_spec(layers.detail_6@, n),
        layer_cells_spec(layers.detail_mask@, n),
    )
}

/// Whether `out` is a value the rotator returned for stamp `j` of a run
/// seeded with `seed`: its input is the template resized to the diameter
/// drawn at that stamp's stream state.
pub open spec fn rotated_stamp<R: Fn(Vec<u8>, u32) -> Vec<u8>>(
    rotator: R,
    template: CraterTemplate,
    seed: u64,
    j: nat,
    out: Vec<u8>,
) -> bool {
    exists|p: Vec<u8>|
        #[trigger] rotator.ensures((p, stamp_size_spec(stamp_state_spec(seed, j))), out) && p@
            == resized_of(
            template.pixels@,
            template.width,
            template.height,
            stamp_size_spec(stamp_state_spec(seed, j)),
            stamp_size_spec(stamp_state_spec(seed, j)),
        )
}

/// Whether `rots` lists, stamp by stamp, values the rotator returned for
/// the resized templates of a run seeded with `seed`.
pub open spec fn stamps_rotated<R: Fn(Vec<u8>, u32) -> Vec<u8>>(
    rotator: R,
    template: CraterTemplate,
    seed: u64,
    crater_count: u32,
    rots: Seq<Vec<u8>>,
) -> bool {
    &&& rots.len() == crater_count
    &&& forall|j: int|
        0 <= j < crater_count ==> rotated_stamp(rotator, template, seed, j as nat, #[trigger] rots[j])
}

/// Whether `cells` is the heightmap of one generation run: for some values
/// the sampler returned on the ten lattices the parameter table fixes, and
/// some values the rotator returned on the resized templates the seed's
/// draws fix, `cells` is exactly their composition and stamping. The
/// lattices, draws, composition and blending are all functions of the seed
/// and the template, so two runs whose sampler and rotator answer alike on
/// like inputs produce equal heightmaps.
pub open spec fn generated_from<
    S: Fn(Vec<(i64, i64)>) -> Vec<i64>,
    R: Fn(Vec<u8>, u32) -> Vec<u8>,
>(
    cells: Seq<i64>,
    seed: u64,
    template: CraterTemplate,
    width: u32,
    height: u32,
    crater_count: u32,
    sampler: S,
    rotator: R,
) -> bool {
    exists|layers: LayerSamples, rots: Seq<Vec<u8>>|
        #![trigger layers_sampled(sampler, width, height, layers), stamps_rotated(rotator, template, seed, crater_count, rots)]
        layers_sampled(sampler, width, height, layers) && stamps_rotated(
            rotator,
            template,
            seed,
            crater_count,
            rots,
        ) && cells == stamped_upto_spec(
            base_from_samples_spec(layers, width, height),
            width,
            height,
            seed,
            rots,
            crater_count as nat,
        )
}

/// Two sampler returns for the same layer's lattice hold the same samples,
/// when the sampler's answer depends only on what its input holds.
proof fn lemma_sampled_layer_unique<S: Fn(Vec<(i64, i64)>) -> Vec<i64>>(
    sampler: S,
    width: u32,
    height: u32,
    frequency: i64,
    skew: i64,
    stretch: i64,
    o1: Vec<i64>,
    o2: Vec<i64>,
)
    requires
        sampled_layer(sampler, width, height, frequency, skew, stretch, o1),
        sampled_layer(sampler, width, height, frequency, skew, stretch, o2),
        forall|a1: Vec<(i64, i64)>, a2: Vec<(i64, i64)>, x1: Vec<i64>, x2: Vec<i64>|
            a1@ == a2@ && #[trigger] sampler.ensures((a1,), x1) && #[trigger] sampler.ensures(
                (a2,),
                x2,
            ) ==> x1@ == x2@,
    ensures
        o1@ == o2@,
{
    let lat1 = choose|lat: Vec<(i64, i64)>|
        #[trigger] sampler.ensures((lat,), o1) && lat@ == lattice_seq_spec(
            width,
            height,
            frequency,
            skew,
            stretch,
        );
    let lat2 = choose|lat: Vec<(i64, i64)>|
        #[trigger] sampler.ensures((lat,), o2) && lat@ == lattice_seq_spec(
            width,
            height,
            frequency,
            skew,
            stretch,
        );
    assert(lat1@ == lat2@);
}

/// Two rotator returns for the same stamp hold the same pixels, when the
/// rotator's answer depends only on what its input holds and the side.
proof fn lemma_rotated_stamp_unique<R: Fn(Vec<u8>, u32) -> Vec<u8>>(
    rotator: R,
    template: CraterTemplate,
    seed: u64,
    j: nat,
    o1: Vec<u8>,
    o2: Vec<u8>,
)
    requires
        rotated_stamp(rotator, template, seed, j, o1),
        rotated_stamp(rotator, template, seed, j, o2),
        forall|p1: Vec<u8>, p2: Vec<u8>, side: u32, x1: Vec<u8>, x2: Vec<u8>|
            p1@ == p2@ && #[trigger] rotator.ensures((p1, side), x1) && #[trigger] rotator.ensures(
                (p2, side),
                x2,
            ) ==> x1@ == x2@,
    ensures
        o1@ == o2@,
{
    let size = stamp_size_spec(stamp_state_spec(seed, j));
    let p1 = choose|p: Vec<u8>|
        #[trigger] rotator.ensures((p, size), o1) && p@ == resized_of(
            template.pixels@,
            template.width,
            template.height,
            size,
            size,
        );
    let p2 = choose|p: Vec<u8>|
        #[trigger] rotator.ensures((p, size), o2) && p@ == resized_of(
            template.pixels@,
            template.width,
            template.height,
            size,
            size,
        );
    assert(p1@ == p2@);
}

/// Generation is reproducible: two runs with the same seed, template,
/// dimensions and stamp count produce bit-identical heightmaps, provided
/// the sampler's and the rotator's answers depend only on what their
/// inputs hold. The seeded noise source and the fixed-angle rotation are
/// such functions, so a fixed seed fixes the terrain.
pub proof fn lemma_same_seed_reproduces<
    S: Fn(Vec<(i64, i64)>) -> Vec<i64>,
    R: Fn(Vec<u8>, u32) -> Vec<u8>,
>(
    cells1: Seq<i64>,
    cells2: Seq<i64>,
    seed: u64,
    template: CraterTemplate,
    width: u32,
    height: u32,
    crater_count: u32,
    sampler: S,
    rotator: R,
)
    requires
        generated_from(cells1, seed, template, width, height, crater_count, sampler, rotator),
        generated_from(cells2, seed, template, width, height, crater_count, sampler, rotator),
        forall|a1: Vec<(i64, i64)>, a2: Vec<(i64, i64)>, x1: Vec<i64>, x2: Vec<i64>|
            a1@ == a2@ && #[trigger] sampler.ensures((a1,), x1) && #[trigger] sampler.ensures(
                (a2,),
                x2,
            ) ==> x1@ == x2@,
        forall|p1: Vec<u8>, p2: Vec<u8>, side: u32, x1: Vec<u8>, x2: Vec<u8>|
            p1@ == p2@ && #[trigger] rotator.ensures((p1, side), x1) && #[trigger] rotator.ensures(
                (p2, side),
                x2,
            ) ==> x1@ == x2@,
    ensures
        cells1 == cells2,
{
    let (l1, r1) = choose|layers: LayerSamples, rots: Seq<Vec<u8>>|
        #![trigger layers_sampled(sampler, width, height, layers), stamps_rotated(rotator, template, seed, crater_count, rots)]
        layers_sampled(sampler, width, height, layers) && stamps_rotated(
            rotator,
            template,
            seed,
            crater_count,
            rots,
        ) && cells1 == stamped_upto_spec(
            base_from_samples_spec(layers, width, height),
            width,
            height,
            seed,
            rots,
            crater_count as nat,
        );
    let (l2, r2) = choose|layers: LayerSamples, rots: Seq<Vec<u8>>|
        #![trigger layers_sampled(sampler, width, height, layers), stamps_rotated(rotator, template, seed, crater_count, rots)]
        layers_sampled(sampler, width, height, layers) && stamps_rotated(
            rotator,
            template,
            seed,
            crater_count,
            rots,
        ) && cells2 == stamped_upto_spec(
            base_from_samples_spec(layers, width, height),
            width,
            height,
            seed,
            rots,
            crater_count as nat,
        );
    lemma_sampled_layer_unique(
        sampler,
        width,
        height,
        FREQ_GLOBAL,
        SKEW_NONE,
        STRETCH_NONE,
        l1.global_mask,
        l2.global_mask,
    );
    lemma_sampled_layer_unique(
        sampler,
        width,
        height,
        FREQ_REGIONAL,
        SKEW_REGIONAL_A,
        STRETCH_NONE,
        l1.regional_a,
        l2.regional_a,
    );
    lemma_sampled_layer_unique(
        sampler,
        width,
        height,
        FREQ_REGIONAL,
        SKEW_REGIONAL_B,
        STRETCH_REGIONAL_B,
        l1.regional_b,
        l2.regional_b,
    );
    lemma_sampled_layer_unique(
        sampler,
        width,
        height,
        FREQ_DETAIL_1,
        SKEW_NONE,
        STRETCH_NONE,
        l1.detail_1,
        l2.detail_1,
    );
    lemma_sampled_layer_unique(
        sampler,
        width,
        height,
        FREQ_DETAIL_2,
        SKEW_NONE,
        STRETCH_NONE,
        l1.detail_2,
        l2.detail_2,
    );
    lemma_sampled_layer_unique(
        sampler,
        width,
        height,
        FREQ_DETAIL_3,
        SKEW_NONE,
        STRETCH_NONE,
        l1.detail_3,
        l2.detail_3,
    );
    lemma_sampled_layer_unique(
        sampler,
        width,
        height,
        FREQ_DETAIL_4,
        SKEW_NONE,
        STRETCH_NONE,
        l1.detail_4,
        l2.detail_4,
    );
    lemma_sampled_layer_unique(
        sampler,
        width,
        height,
        FREQ_DETAIL_5,
        SKEW_NONE,
        STRETCH_NONE,
        l1.detail_5,
        l2.detail_5,
    );
    lemma_sampled_layer_unique(
        sampler,
        width,
        height,
        FREQ_DETAIL_6,
        SKEW_NONE,
        STRETCH_NONE,
        l1.detail_6,
        l2.detail_6,
    );
    lemma_sampled_layer_unique(
        sampler,
        width,
        height,
        FREQ_DETAIL_MASK,
        SKEW_DETAIL_MASK,
        STRETCH_DETAIL_MASK,
        l1.detail_mask,
        l2.detail_mask,
    );
    assert(base_from_samples_spec(l1, width, height) == base_from_samples_spec(l2, width, height));
    assert forall|j: int| 0 <= j < crater_count implies (#[trigger] r1[j])@ == r2[j]@ by {
        lemma_rotated_stamp_unique(rotator, template, seed, j as nat, r1[j], r2[j]);
    }
    lemma_stamped_upto_respects_views(
        base_from_samples_spec(l1, width, height),
        width,
        height,
        seed,
        r1,
        r2,
        crater_count as nat,
    );
}

/// Cut or pad a buffer to exactly `n` entries: a longer buffer loses its
/// tail, a shorter one is extended with `fill`.
fn fit_buffer<T: Copy>(buffer: Vec<T>, n: usize, fill: T) -> (r: Vec<T>)
    ensures
        r@.len() == n,
        forall|i: int| 0 <= i < n && i < buffer@.len() ==> #[trigger] r@[i] == buffer@[i],
        forall|i: int| buffer@.len() <= i < n ==> #[trigger] r@[i] == fill,
{
    let mut v = buffer;
    while v.len() > n
        invariant
            v@.len() <= buffer@.len(),
            v@.len() >= n || v@.len() == buffer@.len(),
            forall|i: int| 0 <= i < v@.len() ==> #[trigger] v@[i] == buffer@[i],
        decreases v@.len(),
    {
        let _ = v.pop();
    }
    while v.len() < n
        invariant
            v@.len() <= n,
            buffer@.len() <= v@.len() || v@.len() == n,
            forall|i: int| 0 <= i < v@.len() && i < buffer@.len() ==> #[trigger] v@[i] == buffer@[i],
            forall|i: int| buffer@.len() <= i < v@.len() ==> #[trigger] v@[i] == fill,
        decreases n - v@.len(),
    {
        v.push(fill);
    }
    v
}

/// One noise layer: the lattice coordinates of every cell are computed
/// here, the supplied sampler evaluates the noise source at them, and the
/// samples come back as a clamped field - exactly `layer_cells_spec` of
/// some vector the sampler returned for this layer's lattice.
fn noise_layer<S: Fn(Vec<(i64, i64)>) -> Vec<i64>>(
    sampler: &S,
    width: u32,
    height: u32,
    frequency: i64,
    skew: i64,
    stretch: i64,
) -> (g: DataGrid)
    requires
        0 < width <= 0x1_0000,
        0 < height <= 0x1_0000,
        width * height <= usize::MAX,
        0 <= frequency <= crate::noise_field::PARAM_LIMIT,
        -crate::noise_field::PARAM_LIMIT <= skew <= crate::noise_field::PARAM_LIMIT,
        crate::noise_field::STRETCH_FLOOR <= stretch <= crate::noise_field::PARAM_LIMIT,
        forall|v: Vec<(i64, i64)>| sampler.requires((v,)),
    ensures
        g.wf(),
        g.width == width,
        g.height == height,
        g.all_within(-SCALE as int, SCALE as int),
        exists|s: Vec<i64>|
            #[trigger] sampled_layer(*sampler, width, height, frequency, skew, stretch, s)
                && g.values@ == layer_cells_spec(s@, (width * height) as nat),
{
    let lattice = sample_lattice(width, height, frequency, skew, stretch);
    let ghost lat0 = lattice;
    let samples = sampler(lattice);
    let ghost s0 = samples;
    let n: usize = (width as usize) * (height as usize);
    let fitted = fit_buffer(samples, n, 0i64);
    let g = field_from_samples(width, height, &fitted);
    proof {
        assert((*sampler).ensures((lat0,), s0));
        assert(sampled_layer(*sampler, width, height, frequency, skew, stretch, s0));
        assert(g.values@ =~= layer_cells_spec(s0@, (width * height) as nat));
    }
    g
}

/// Generate a heightmap of the given dimensions from a seed and a crater
/// template. `sampler` evaluates the seeded coherent-noise source at a
/// batch of lattice coordinates; `rotator` rotates a square grayscale
/// buffer of the given side about its center by `CRATER_ANGLE`. The result
/// has the requested shape with every sample in `[0, 1]`, and is exactly
/// the composition and stamping, per `generated_from`, of values the two
/// functions returned for the inputs the seed and template determine.
pub fn generate_heightmap<S: Fn(Vec<(i64, i64)>) -> Vec<i64>, R: Fn(Vec<u8>, u32) -> Vec<u8>>(
    seed: u64,
    template: &CraterTemplate,
    width: u32,
    height: u32,
    crater_count: u32,
    sampler: S,
    rotator: R,
) -> (g: DataGrid)
    requires
        template.wf(),
        0 < width <= 0x1_0000,
        0 < height <= 0x1_0000,
        width * height <= usize::MAX,
        forall|v: Vec<(i64, i64)>| sampler.requires((v,)),
        forall|v: Vec<u8>, s: u32| rotator.requires((v, s)),
    ensures
        g.wf(),
        g.width == width,
        g.height == height,
        g.all_within(0, SCALE as int),
        generated_from(g.values@, seed, *template, width, height, crater_count, sampler, rotator),
{
    let ghost n = (width * height) as nat;
    let global_mask = noise_layer(&sampler, width, height, FREQ_GLOBAL, SKEW_NONE, STRETCH_NONE);
    let ghost sg = choose|s: Vec<i64>|
        #[trigger] sampled_layer(sampler, width, height, FREQ_GLOBAL, SKEW_NONE, STRETCH_NONE, s)
            && global_mask.values@ == layer_cells_spec(s@, n);
    let regional_a = noise_layer(
        &sampler,
        width,
        height,
        FREQ_REGIONAL,
        SKEW_REGIONAL_A,
        STRETCH_NONE,
    );
    let ghost sra = choose|s: Vec<i64>|
        #[trigger] sampled_layer(
            sampler,
            width,
            height,
            FREQ_REGIONAL,
            SKEW_REGIONAL_A,
            STRETCH_NONE,
            s,
        ) && regional_a.values@ == layer_cells_spec(s@, n);
    let regional_b = noise_layer(
        &sampler,
        width,
        height,
        FREQ_REGIONAL,
        SKEW_REGIONAL_B,
        STRETCH_REGIONAL_B,
    );
    let ghost srb = choose|s: Vec<i64>|
        #[trigger] sampled_layer(
            sampler,
            width,
            height,
            FREQ_REGIONAL,
            SKEW_REGIONAL_B,
            STRETCH_REGIONAL_B,
            s,
        ) && regional_b.values@ == layer_cells_spec(s@, n);
    let detail_1 = noise_layer(&sampler, width, height, FREQ_DETAIL_1, SKEW_NONE, STRETCH_NONE);
    let ghost sd1 = choose|s: Vec<i64>|
        #[trigger] sampled_layer(sampler, width, height, FREQ_DETAIL_1, SKEW_NONE, STRETCH_NONE, s)
            && detail_1.values@ == layer_cells_spec(s@, n);
    let detail_2 = noise_layer(&sampler, width, height, FREQ_DETAIL_2, SKEW_NONE, STRETCH_NONE);
    let ghost sd2 = choose|s: Vec<i64>|
        #[trigger] sampled_layer(sampler, width, height, FREQ_DETAIL_2, SKEW_NONE, STRETCH_NONE, s)
            && detail_2.values@ == layer_cells_spec(s@, n);
    let detail_3 = noise_layer(&sampler, width, height, FREQ_DETAIL_3, SKEW_NONE, STRETCH_NONE);
    let ghost sd3 = choose|s: Vec<i64>|
        #[trigger] sampled_layer(sampler, width, height, FREQ_DETAIL_3, SKEW_NONE, STRETCH_NONE, s)
            && detail_3.values@ == layer_cells_spec(s@, n);
    let detail_4 = noise_layer(&sampler, width, height, FREQ_DETAIL_4, SKEW_NONE, STRETCH_NONE);
    let ghost sd4 = choose|s: Vec<i64>|
        #[trigger] sampled_layer(sampler, width, height, FREQ_DETAIL_4, SKEW_NONE, STRETCH_NONE, s)
            && detail_4.values@ == layer_cells_spec(s@, n);
    let detail_5 = noise_layer(&sampler, width, height, FREQ_DETAIL_5, SKEW_NONE, STRETCH_NONE);
    let ghost sd5 = choose|s: Vec<i64>|
        #[trigger] sampled_layer(sampler, width, height, FREQ_DETAIL_5, SKEW_NONE, STRETCH_NONE, s)
            && detail_5.values@ == layer_cells_spec(s@, n);
    let detail_6 = noise_layer(&sampler, width, height, FREQ_DETAIL_6, SKEW_NONE, STRETCH_NONE);
    let ghost sd6 = choose|s: Vec<i64>|
        #[trigger] sampled_layer(sampler, width, height, FREQ_DETAIL_6, SKEW_NONE, STRETCH_NONE, s)
            && detail_6.values@ == layer_cells_spec(s@, n);
    let detail_mask = noise_layer(
        &sampler,
        width,
        height,
        FREQ_DETAIL_MASK,
        SKEW_DETAIL_MASK,
        STRETCH_DETAIL_MASK,
    );
    let ghost sdm = choose|s: Vec<i64>|
        #[trigger] sampled_layer(
            sampler,
            width,
            height,
            FREQ_DETAIL_MASK,
            SKEW_DETAIL_MASK,
            STRETCH_DETAIL_MASK,
            s,
        ) && detail_mask.values@ == layer_cells_spec(s@, n);
    let ghost samples_drawn = LayerSamples {
        global_mask: sg,
        regional_a: sra,
        regional_b: srb,
        detail_1: sd1,
        detail_2: sd2,
        detail_3: sd3,
        detail_4: sd4,
        detail_5: sd5,
        detail_6: sd6,
        detail_mask: sdm,
    };
    let layers = NoiseLayers {
        global_mask,
        regional_a,
        regional_b,
        detail_1,
        detail_2,
        detail_3,
        detail_4,
        detail_5,
        detail_6,
        detail_mask,
    };
    let mut base = compose_base_field(layers);
    proof {
        assert(layers_sampled(sampler, width, height, samples_drawn));
        assert(base.values@ == base_from_samples_spec(samples_drawn, width, height));
        assert forall|i: int| 0 <= i < base.values@.len() implies 0 <= #[trigger] base.values@[i]
            <= SCALE as int by {
            assert(RANGE_FINAL_LO <= base.values@[i] <= RANGE_FINAL_HI);
        }
    }
    let ghost base0 = base.values@;
    let ghost mut rots: Seq<Vec<u8>> = Seq::empty();
    let mut state: u64 = seed;
    let mut k: u32 = 0;
    while k < crater_count
        invariant
            k <= crater_count,
            base.wf(),
            base.width == width,
            base.height == height,
            base.all_within(0, SCALE as int),
            template.wf(),
            0 < width <= 0x1_0000,
            0 < height <= 0x1_0000,
            forall|v: Vec<u8>, s: u32| rotator.requires((v, s)),
            state == stamp_state_spec(seed, k as nat),
            rots.len() == k as nat,
            forall|j: int|
                0 <= j < k ==> rotated_stamp(rotator, *template, seed, j as nat, #[trigger] rots[j]),
            base.values@ == stamped_upto_spec(base0, width, height, seed, rots, k as nat),
        decreases crater_count - k,
    {
        let ghost st0 = state;
        let drawn: (u64, crate::crater::StampParams) = draw_stamp_params(state, width, height);
        state = drawn.0;
        let params = drawn.1;
        let resized = resize_template(template, params.size);
        let ghost rp = resized.pixels;
        let rotated = rotator(resized.pixels, params.size);
        let ghost rot0 = rotated;
        proof {
            assert(rotator.ensures((rp, params.size), rot0));
            assert(rotated_stamp(rotator, *template, seed, k as nat, rot0));
            assert((params.size as int) * (params.size as int) < 25_600)
                by (nonlinear_arith)
                requires
                    32 <= params.size as int,
                    (params.size as int) < 160,
            ;
        }
        let side: usize = params.size as usize;
        let fitted = fit_buffer(rotated, side * side, CRATER_FILL);
        let crater = from_image(params.size, params.size, &fitted);
        proof {
            assert forall|i: int| 0 <= i < crater.values@.len() implies 0
                <= #[trigger] crater.values@[i] <= SCALE as int by {
                assert(0 <= crater.values@[i] <= SCALE - crate::PIXEL_UNIT);
            }
        }
        let ghost pre_grid = base;
        stamp_crater(&mut base, &crater, params.offset_x, params.offset_y, params.depth);
        proof {
            let w = width as int;
            let hh = height as int;
            let size = params.size as int;
            let prev = pre_grid.values@;
            assert(fitted@ =~= Seq::new(
                (size * size) as nat,
                |i: int|
                    if i < rot0@.len() {
                        rot0@[i]
                    } else {
                        CRATER_FILL
                    },
            ));
            let cseq = crater_cells_spec(rot0@, size);
            assert(crater.values@ =~= cseq);
            let stamped = stamped_cells_spec(
                prev,
                w,
                cseq,
                size,
                size,
                params.offset_x as int,
                params.offset_y as int,
                params.depth,
            );
            assert forall|i: int| 0 <= i < base.values@.len() implies base.values@[i]
                == stamped[i] by {
                let yy = i / w;
                let xx = i % w;
                vstd::arithmetic::div_mod::lemma_fundamental_div_mod(i, w);
                vstd::arithmetic::div_mod::lemma_mod_bound(i, w);
                assert(0 <= yy && yy < hh) by (nonlinear_arith)
                    requires
                        w > 0,
                        0 <= xx < w,
                        0 <= i,
                        i < w * hh,
                        i == w * yy + xx,
                ;
                assert(yy * w + xx == i) by (nonlinear_arith)
                    requires
                        i == w * yy + xx,
                ;
                assert(pre_grid.cell(xx, yy) == prev[i]);
                assert(base.cell(xx, yy) == base.values@[i]);
                let sx = xx - params.offset_x as int;
                let sy = yy - params.offset_y as int;
                if 0 <= sx < size && 0 <= sy < size {
                    crate::grid::lemma_cell_index_bound(size, size, sx, sy);
                    assert(crater.contains_cell(sx, sy));
                    assert(crater.cell(sx, sy) == cseq[sy * size + sx]);
                } else {
                    assert(!crater.contains_cell(sx, sy));
                }
            }
            assert(base.values@ =~= stamped);
            let ghost prior = rots;
            rots = rots.push(rot0);
            lemma_stamped_upto_respects_views(base0, width, height, seed, prior, rots, k as nat);
            assert(rots[k as int] == rot0);
            assert(stamp_state_spec(seed, (k + 1) as nat) == crate::crater::stamp_next_state_spec(
                stamp_state_spec(seed, k as nat),
            ));
            assert(base.values@ == stamped_upto_spec(
                base0,
                width,
                height,
                seed,
                rots,
                (k + 1) as nat,
            ));
        }
        k = k + 1;
    }
    proof {
        assert(stamps_rotated(rotator, *template, seed, crater_count, rots));
        assert(generated_from(
            base.values@,
            seed,
            *template,
            width,
            height,
            crater_count,
            sampler,
            rotator,
        ));
    }
    base
}

impl World {
    /// A world with a zeroed full-size heightmap.
    pub fn new() -> (w: World)
        ensures
            w.heights.wf(),
            w.heights.width == WIDTH,
            w.heights.height == HEIGHT,
            forall|i: int|
                0 <= i < w.heights.values@.len() ==> #[trigger] w.heights.values@[i] == 0i64,
    {
        World { heights: new_data_grid(0) }
    }

    /// Generate the full-size heightmap in place from the seed and the
    /// crater template, with the caller's noise sampler and rotator: the
    /// result is pinned by `generated_from`, so a fixed seed and template
    /// reproduce it whenever the two functions answer alike on like inputs
    /// (see `generate_heightmap`).
    pub fn generate<S: Fn(Vec<(i64, i64)>) -> Vec<i64>, R: Fn(Vec<u8>, u32) -> Vec<u8>>(
        &mut self,
        seed: u64,
        template: &CraterTemplate,
        sampler: S,
        rotator: R,
    )
        requires
            template.wf(),
            forall|v: Vec<(i64, i64)>| sampler.requires((v,)),
            forall|v: Vec<u8>, s: u32| rotator.requires((v, s)),
        ensures
            final(self).heights.wf(),
            final(self).heights.width == WIDTH,
            final(self).heights.height == HEIGHT,
            final(self).heights.all_within(0, SCALE as int),
            generated_from(
                final(self).heights.values@,
                seed,
                *template,
                WIDTH as u32,
                HEIGHT as u32,
                CRATER_COUNT,
                sampler,
                rotator,
            ),
    {
        self.heights = generate_heightmap(
            seed,
            template,
            WIDTH as u32,
            HEIGHT as u32,
            CRATER_COUNT,
            sampler,
            rotator,
        );
    }
}

} // verus!
