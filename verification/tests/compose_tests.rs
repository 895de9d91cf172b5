//! Behavior of the layer compositor, on fully hand-computed stacks.

use terragen::compose::{compose_base_field, NoiseLayers, RANGE_FINAL_HI, RANGE_FINAL_LO};
use terragen::grid::DataGrid;
use terragen::raster::{from_image, to_image};

fn flat(width: usize, height: usize, v: i64) -> DataGrid {
    let rows = vec![vec![v; width]; height];
    DataGrid::from_values(width, height, &rows)
}

fn layers_of(fields: [DataGrid; 10]) -> NoiseLayers {
    let [global_mask, regional_a, regional_b, detail_1, detail_2, detail_3, detail_4, detail_5, detail_6, detail_mask] =
        fields;
    NoiseLayers {
        global_mask,
        regional_a,
        regional_b,
        detail_1,
        detail_2,
        detail_3,
        detail_4,
        detail_5,
        detail_6,
        detail_mask,
    }
}

#[test]
fn composing_flat_layers_gives_the_final_floor_everywhere() {
    // Every rescale of a flat field falls back to its target floor, the
    // masked products stay zero, the smooth threshold of zero is zero, and
    // the final compression of a flat field falls back to its floor.
    let layers = layers_of(core::array::from_fn(|_| flat(3, 2, 123)));
    let g = compose_base_field(layers);
    assert_eq!(g.width, 3);
    assert_eq!(g.height, 2);
    for y in 0..2 {
        for x in 0..3 {
            assert_eq!(g.get(x, y), Some(RANGE_FINAL_LO));
        }
    }
}

#[test]
fn composing_a_two_level_stack_attains_the_final_range() {
    // The global mask and one regional field each take two levels; the
    // other layers are flat, so they contribute their floors (zero, but
    // for the detail mask, whose floor multiplies a zero sum). The masked
    // product is zero in one cell and positive in the other, the rescale
    // stretches that to full range, the threshold maps the ends to its
    // ends, and the final compression lands exactly on [0.25, 0.75].
    let two_level = |a: i64, b: i64| DataGrid::from_values(2, 1, &vec![vec![a, b]]);
    let layers = NoiseLayers {
        global_mask: two_level(0, 100),
        regional_a: two_level(0, 50),
        regional_b: flat(2, 1, 0),
        detail_1: flat(2, 1, 0),
        detail_2: flat(2, 1, 0),
        detail_3: flat(2, 1, 0),
        detail_4: flat(2, 1, 0),
        detail_5: flat(2, 1, 0),
        detail_6: flat(2, 1, 0),
        detail_mask: flat(2, 1, 0),
    };
    let g = compose_base_field(layers);
    assert_eq!(g.get(0, 0), Some(RANGE_FINAL_LO));
    assert_eq!(g.get(1, 0), Some(RANGE_FINAL_HI));
}

#[test]
fn encoding_a_decoded_image_restores_the_pixels() {
    // Decoding divides by 256 and encoding multiplies by 256 and
    // truncates, so this direction of the round trip is exact.
    let pixels: Vec<u8> = (0..=255).collect();
    let g = from_image(16, 16, &pixels);
    assert_eq!(to_image(&g), pixels);
}
