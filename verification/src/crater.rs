//! The crater template pipeline and stamper: sizes, placements and depth
//! scales drawn from the seeded stream, the template resized per stamp,
//! and the crater field blended onto the base elevation with the overlay
//! operator under a depth transform.

use vstd::prelude::*;

use crate::fixed::{deepen, deepen_spec, overlay, overlay_spec};
use crate::grid::DataGrid;
use crate::raster::{resize_gray, resized_of};
use crate::rng::{draw_below, draw_below_spec, stream_next_spec};
use crate::{SCALE, VAL_LIMIT};

verus! {

broadcast use vstd::std_specs::vec::axiom_spec_len;

/// Smallest crater diameter, in pixels.
pub const CRATER_SIZE_MIN: u32 = 32;

/// Width of the crater diameter range: diameters lie in `[32, 160)`.
pub const CRATER_SIZE_SPAN: u64 = 128;

/// Rotation angle of every crater stamp: 1.8 radians in fixed point. The
/// rotation itself interpolates in floating point, so a caller applies it
/// between resizing and stamping.
pub const CRATER_ANGLE: i64 = 2_949_120;

/// Neutral mid-gray fill for pixels that rotation pulls in from outside
/// the template; it decodes to one half.
pub const CRATER_FILL: u8 = 128;

/// Width of the depth-scale range: 4.0 in fixed point; depth scales lie in
/// `[1, 5)`.
pub const DEPTH_SPAN: u64 = 6_553_600;

/// The grayscale crater profile template: a raster whose pixel buffer
/// matches its dimensions.
#[derive(Clone)]
pub struct CraterTemplate {
    pub width: u32,
    pub height: u32,
    pub pixels: Vec<u8>,
}

impl CraterTemplate {
    /// The buffer holds exactly one pixel per cell and the dimensions are
    /// positive and within the supported extent.
    pub open spec fn wf(self) -> bool {
        &&& self.pixels@.len() == self.width * self.height
        &&& 0 < self.width <= 0x1_0000
        &&& 0 < self.height <= 0x1_0000
    }

    /// Validate raw raster data as a crater template: the dimensions must
    /// be positive, within the supported extent, and match the buffer
    /// length, else the data is rejected.
    pub fn new(width: u32, height: u32, pixels: Vec<u8>) -> (r: Option<CraterTemplate>)
        ensures
            match r {
                Some(t) => t.wf() && t.width == width && t.height == height && t.pixels@
                    == pixels@,
                None => !(0 < width <= 0x1_0000 && 0 < height <= 0x1_0000 && pixels@.len()
                    == width * height),
            },
    {
        if width == 0 || height == 0 || width > 0x1_0000 || height > 0x1_0000 {
            return None;
        }
        proof {
            assert((width as int) * (height as int) <= 0x1_0000_0000)
                by (nonlinear_arith)
                requires
                    0 < width as int <= 0x1_0000,
                    0 < height as int <= 0x1_0000,
            ;
        }
        let expected: u64 = (width as u64) * (height as u64);
        if (pixels.len() as u64) != expected {
            return None;
        }
        Some(CraterTemplate { width, height, pixels })
    }
}

/// Resize the template to a square of the given diameter with the smooth
/// cubic filter.
pub fn resize_template(template: &CraterTemplate, size: u32) -> (r: CraterTemplate)
    requires
        template.wf(),
        0 < size <= 0x1_0000,
    ensures
        r.wf(),
        r.width == size,
        r.height == size,
        r.pixels@ == resized_of(template.pixels@, template.width, template.height, size, size),
{
    let pixels = resize_gray(&template.pixels, template.width, template.height, size, size);
    CraterTemplate { width: size, height: size, pixels }
}

/// The stream state after the four draws of one stamp.
pub open spec fn stamp_next_state_spec(state: u64) -> u64 {
    stream_next_spec(stream_next_spec(stream_next_spec(stream_next_spec(state))))
}

/// The stream state at which stamp `j` of a run seeded with `seed` draws
/// its parameters.
pub open spec fn stamp_state_spec(seed: u64, j: nat) -> u64
    decreases j,
{
    if j == 0 {
        seed
    } else {
        stamp_next_state_spec(stamp_state_spec(seed, (j - 1) as nat))
    }
}

/// The diameter drawn at stream state `state`: 32 plus a draw below 128.
pub open spec fn stamp_size_spec(state: u64) -> u32 {
    (32 + draw_below_spec(state, 128)) as u32
}

/// The horizontal placement offset drawn at `state`: the crater's width to
/// the left of the grid plus a draw below the grid width.
pub open spec fn stamp_offset_x_spec(state: u64, width: u32) -> int {
    draw_below_spec(stream_next_spec(state), width as u64) - stamp_size_spec(state)
}

/// The vertical placement offset drawn at `state`.
pub open spec fn stamp_offset_y_spec(state: u64, height: u32) -> int {
    draw_below_spec(stream_next_spec(stream_next_spec(state)), height as u64) - stamp_size_spec(
        state,
    )
}

/// The depth scale drawn at `state`: one plus a draw below four.
pub open spec fn stamp_depth_spec(state: u64) -> i64 {
    (SCALE + draw_below_spec(
        stream_next_spec(stream_next_spec(stream_next_spec(state))),
        DEPTH_SPAN,
    )) as i64
}

/// The drawn parameters of one crater stamp.
pub struct StampParams {
    pub size: u32,
    pub offset_x: i64,
    pub offset_y: i64,
    pub depth: i64,
}

/// Draw the parameters of one stamp from the stream: a diameter in
/// `[32, 160)`, an offset per axis that allows partial or full off-grid
/// placement, and a depth scale in `[1, 5)`. Returns the advanced stream
/// state with the parameters, so a fixed seed draws a fixed sequence.
pub fn draw_stamp_params(state: u64, world_width: u32, world_height: u32) -> (r: (
    u64,
    StampParams,
))
    requires
        world_width > 0,
        world_height > 0,
    ensures
        r.0 == stamp_next_state_spec(state),
        r.1.size == stamp_size_spec(state),
        r.1.offset_x == stamp_offset_x_spec(state, world_width),
        r.1.offset_y == stamp_offset_y_spec(state, world_height),
        r.1.depth == stamp_depth_spec(state),
        32 <= r.1.size < 160,
        -160 <= r.1.offset_x < world_width,
        -160 <= r.1.offset_y < world_height,
        SCALE <= r.1.depth < 5 * SCALE,
{
    let (s1, size_draw): (u64, u64) = draw_below(state, CRATER_SIZE_SPAN);
    let size: u32 = CRATER_SIZE_MIN + (size_draw as u32);
    let (s2, x_draw): (u64, u64) = draw_below(s1, world_width as u64);
    let offset_x: i64 = (x_draw as i64) - (size as i64);
    let (s3, y_draw): (u64, u64) = draw_below(s2, world_height as u64);
    let offset_y: i64 = (y_draw as i64) - (size as i64);
    let (s4, depth_draw): (u64, u64) = draw_below(s3, DEPTH_SPAN);
    let depth: i64 = SCALE + (depth_draw as i64);
    (s4, StampParams { size, offset_x, offset_y, depth })
}

/// What stamping one crater sample onto one base sample is: the crater
/// sample's deviation from the neutral mid level is compressed by the
/// depth scale, then blended with the overlay operator.
pub open spec fn stamp_blend_spec(bottom: i64, top: i64, depth: i64) -> int {
    overlay_spec(bottom as int, deepen_spec(top as int, depth as int))
}

/// Blend one crater field onto the base elevation at the drawn offset:
/// every base cell covered by the crater takes the overlay of the
/// depth-transformed crater sample onto it; cells the placement misses,
/// and crater cells that land off the base, stay untouched.
pub fn stamp_crater(
    base: &mut DataGrid,
    crater: &DataGrid,
    offset_x: i64,
    offset_y: i64,
    depth: i64,
)
    requires
        old(base).wf(),
        crater.wf(),
        old(base).width <= 0x1_0000_0000,
        old(base).height <= 0x1_0000_0000,
        crater.width <= 0x1_0000_0000,
        crater.height <= 0x1_0000_0000,
        -0x1_0000_0000_0000 <= offset_x <= 0x1_0000_0000_0000,
        -0x1_0000_0000_0000 <= offset_y <= 0x1_0000_0000_0000,
        old(base).all_within(0, SCALE as int),
        crater.all_within(0, SCALE as int),
        SCALE <= depth <= VAL_LIMIT,
    ensures
        final(base).wf(),
        final(base).width == old(base).width,
        final(base).height == old(base).height,
        forall|dx: int, dy: int|
            old(base).contains_cell(dx, dy) && crater.contains_cell(dx - offset_x, dy - offset_y)
                ==> #[trigger] final(base).cell(dx, dy) == stamp_blend_spec(
                old(base).cell(dx, dy),
                crater.cell(dx - offset_x, dy - offset_y),
                depth,
            ),
        forall|dx: int, dy: int|
            old(base).contains_cell(dx, dy) && !crater.contains_cell(
                dx - offset_x,
                dy - offset_y,
            ) ==> #[trigger] final(base).cell(dx, dy) == old(base).cell(dx, dy),
        final(base).all_within(0, SCALE as int),
{
    let blend = |bottom: i64, top: i64| -> (res: i64)
        requires
            0 <= bottom <= SCALE,
            0 <= top <= SCALE,
        ensures
            res == stamp_blend_spec(bottom, top, depth),
            0 <= res <= SCALE,
        { overlay(bottom, deepen(top, depth)) };
    proof {
        assert forall|x: int, y: int|
            crater.contains_cell(x, y) && old(base).contains_cell(x + offset_x, y + offset_y)
            implies blend.requires(
            (old(base).cell(x + offset_x, y + offset_y), crater.cell(x, y)),
        ) by {
            crate::grid::lemma_cell_index_bound(
                old(base).width as int,
                old(base).height as int,
                x + offset_x,
                y + offset_y,
            );
            crate::grid::lemma_cell_index_bound(crater.width as int, crater.height as int, x, y);
        }
    }
    base.blend_mut(crater, offset_x, offset_y, blend);
    proof {
        let w = base.width as int;
        let h = base.height as int;
        assert forall|dx: int, dy: int|
            old(base).contains_cell(dx, dy) && crater.contains_cell(dx - offset_x, dy - offset_y)
            implies #[trigger] base.cell(dx, dy) == stamp_blend_spec(
            old(base).cell(dx, dy),
            crater.cell(dx - offset_x, dy - offset_y),
            depth,
        ) && 0 <= base.cell(dx, dy) <= SCALE by {
        }
        assert forall|i: int| 0 <= i < base.values@.len() implies 0 <= #[trigger] base.values@[i]
            <= SCALE as int by {
            assert(w > 0) by (nonlinear_arith)
                requires
                    0 <= i < w * h,
                    0 <= w,
                    0 <= h,
            ;
            let y = i / w;
            let x = i % w;
            vstd::arithmetic::div_mod::lemma_fundamental_div_mod(i, w);
            vstd::arithmetic::div_mod::lemma_mod_bound(i, w);
            assert(0 <= y && y < h) by (nonlinear_arith)
                requires
                    w > 0,
                    0 <= x < w,
                    0 <= i,
                    i < w * h,
                    i == w * y + x,
            ;
            assert(y * w + x == i) by (nonlinear_arith)
                requires
                    i == w * y + x,
            ;
            assert(base.cell(x, y) == base.values@[i]);
            if crater.contains_cell(x - offset_x, y - offset_y) {
            } else {
                assert(base.cell(x, y) == old(base).cell(x, y));
            }
        }
    }
}

/// What one crater field, decoded from whatever the rotation returned, is:
/// the buffer cut or padded with the neutral fill to one pixel per cell of
/// a `size` by `size` square, then decoded into fixed point.
pub open spec fn crater_cells_spec(rotated: Seq<u8>, size: int) -> Seq<i64> {
    crate::raster::decode_cells_spec(
        Seq::new(
            (size * size) as nat,
            |i: int|
                if i < rotated.len() {
                    rotated[i]
                } else {
                    CRATER_FILL
                },
        ),
    )
}

/// What blending one crater buffer onto a row-major base buffer at an
/// offset is, cell by cell: a base cell covered by the placement takes the
/// depth-compressed overlay of the crater sample on it, every other cell
/// keeps its value.
pub open spec fn stamped_cells_spec(
    base: Seq<i64>,
    width: int,
    crater: Seq<i64>,
    cw: int,
    ch: int,
    ox: int,
    oy: int,
    depth: i64,
) -> Seq<i64> {
    if width <= 0 {
        base
    } else {
        Seq::new(
            base.len(),
            |i: int|
                {
                    let sx = i % width - ox;
                    let sy = i / width - oy;
                    if 0 <= sx < cw && 0 <= sy < ch {
                        stamp_blend_spec(base[i], crater[sy * cw + sx], depth) as i64
                    } else {
                        base[i]
                    }
                },
        )
    }
}

/// The base buffer after the first `k` crater stamps of a run seeded with
/// `seed`: stamp `j` draws its diameter, offsets and depth at its stream
/// state, and blends in the crater decoded from `rots[j]`, the buffer the
/// caller's rotation returned for that stamp.
pub open spec fn stamped_upto_spec(
    base: Seq<i64>,
    width: u32,
    height: u32,
    seed: u64,
    rots: Seq<Vec<u8>>,
    k: nat,
) -> Seq<i64>
    decreases k,
{
    if k == 0 {
        base
    } else {
        let st = stamp_state_spec(seed, (k - 1) as nat);
        let size = stamp_size_spec(st) as int;
        stamped_cells_spec(
            stamped_upto_spec(base, width, height, seed, rots, (k - 1) as nat),
            width as int,
            crater_cells_spec(rots[k - 1]@, size),
            size,
            size,
            stamp_offset_x_spec(st, width),
            stamp_offset_y_spec(st, height),
            stamp_depth_spec(st),
        )
    }
}

/// The first `k` stamps read only what the first `k` rotation results
/// hold: two runs whose rotation buffers agree entry by entry stamp the
/// same craters, and entries beyond the first `k` do not matter at all.
pub proof fn lemma_stamped_upto_respects_views(
    base: Seq<i64>,
    width: u32,
    height: u32,
    seed: u64,
    r1: Seq<Vec<u8>>,
    r2: Seq<Vec<u8>>,
    k: nat,
)
    requires
        k <= r1.len(),
        k <= r2.len(),
        forall|j: int| 0 <= j < k ==> (#[trigger] r1[j])@ == r2[j]@,
    ensures
        stamped_upto_spec(base, width, height, seed, r1, k) == stamped_upto_spec(
            base,
            width,
            height,
            seed,
            r2,
            k,
        ),
    decreases k,
{
    if k > 0 {
        lemma_stamped_upto_respects_views(base, width, height, seed, r1, r2, (k - 1) as nat);
    }
}

/// Stamping is deterministic: any two grids that both satisfy the stamp's
/// cell-wise description - covered cells blended, missed cells untouched -
/// over the same base, crater, placement and depth hold identical buffers.
/// With the drawn parameters a fixed function of the seed, a fixed seed
/// therefore reproduces the stamped field exactly.
pub proof fn lemma_stamp_outcome_unique(
    pre: DataGrid,
    post1: DataGrid,
    post2: DataGrid,
    crater: DataGrid,
    offset_x: int,
    offset_y: int,
    depth: i64,
)
    requires
        pre.wf(),
        post1.wf(),
        post2.wf(),
        post1.width == pre.width,
        post1.height == pre.height,
        post2.width == pre.width,
        post2.height == pre.height,
        forall|dx: int, dy: int|
            pre.contains_cell(dx, dy) && crater.contains_cell(dx - offset_x, dy - offset_y)
                ==> #[trigger] post1.cell(dx, dy) == stamp_blend_spec(
                pre.cell(dx, dy),
                crater.cell(dx - offset_x, dy - offset_y),
                depth,
            ),
        forall|dx: int, dy: int|
            pre.contains_cell(dx, dy) && !crater.contains_cell(dx - offset_x, dy - offset_y)
                ==> #[trigger] post1.cell(dx, dy) == pre.cell(dx, dy),
        forall|dx: int, dy: int|
            pre.contains_cell(dx, dy) && crater.contains_cell(dx - offset_x, dy - offset_y)
                ==> #[trigger] post2.cell(dx, dy) == stamp_blend_spec(
                pre.cell(dx, dy),
                crater.cell(dx - offset_x, dy - offset_y),
                depth,
            ),
        forall|dx: int, dy: int|
            pre.contains_cell(dx, dy) && !crater.contains_cell(dx - offset_x, dy - offset_y)
                ==> #[trigger] post2.cell(dx, dy) == pre.cell(dx, dy),
    ensures
        post1.values@ =~= post2.values@,
{
    assert forall|x: int, y: int| post1.contains_cell(x, y) implies #[trigger] post1.cell(x, y)
        == post2.cell(x, y) by {
        assert(pre.contains_cell(x, y));
    }
    crate::grid::lemma_cells_determine_buffer(post1, post2);
}

} // verus!
