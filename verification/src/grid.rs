//! The bounds-checked two-dimensional scalar-field container that every
//! other component routes through.

use vstd::prelude::*;

use crate::{HEIGHT, WIDTH};

verus! {

broadcast use vstd::std_specs::vec::axiom_spec_len;

/// A dense two-dimensional field of fixed-point elevation samples.
///
/// The backing buffer always holds exactly `width * height` samples in
/// row-major order: the sample of the cell at column `x` and row `y` sits
/// at index `y * width + x`. A coordinate pair addresses a cell iff both
/// components are strictly inside the dimensions. A clone is a deep copy
/// of the buffer with the dimensions preserved.
#[derive(Clone)]
pub struct DataGrid {
    pub width: usize,
    pub height: usize,
    pub values: Vec<i64>,
}

/// The row-major index of a cell inside the bounds lies inside the buffer.
pub proof fn lemma_cell_index_bound(width: int, height: int, x: int, y: int)
    by (nonlinear_arith)
    requires
        0 <= x < width,
        0 <= y < height,
    ensures
        0 <= y * width + x < width * height,
{
}

/// The row-major index of a cell of a row before row `y` lies before the
/// start of row `y`.
pub proof fn lemma_earlier_row_index(r: int, c: int, y: int, width: int)
    by (nonlinear_arith)
    requires
        0 <= c < width,
        0 <= r < y,
    ensures
        0 <= r * width + c,
        r * width + c < y * width,
{
}

impl DataGrid {
    /// The container invariant: one buffered sample per cell.
    pub open spec fn wf(self) -> bool {
        self.values@.len() == self.width * self.height
    }

    /// Whether `(x, y)` addresses a cell of this grid.
    pub open spec fn contains_cell(self, x: int, y: int) -> bool {
        0 <= x < self.width && 0 <= y < self.height
    }

    /// The sample held at cell `(x, y)`.
    pub open spec fn cell(self, x: int, y: int) -> i64 {
        self.values@[y * self.width + x]
    }

    /// Whether every sample lies within `[lo, hi]`.
    pub open spec fn all_within(self, lo: int, hi: int) -> bool {
        forall|i: int| 0 <= i < self.values@.len() ==> lo <= #[trigger] self.values@[i] <= hi
    }

    /// New grid of the given dimensions with every sample zero.
    pub fn new(width: usize, height: usize) -> (g: DataGrid)
        requires
            width * height <= usize::MAX,
        ensures
            g.wf(),
            g.width == width,
            g.height == height,
            g.values@ =~= Seq::new((width * height) as nat, |i: int| 0i64),
    {
        let n: usize = width * height;
        let mut values: Vec<i64> = Vec::new();
        let mut i: usize = 0;
        while i < n
            invariant
                i <= n,
                values@.len() == i,
                forall|j: int| 0 <= j < i ==> values@[j] == 0i64,
            decreases n - i,
        {
            values.push(0);
            i = i + 1;
        }
        DataGrid { width, height, values }
    }

    /// Deep copy of a caller-provided matrix of rows: row `y` supplies the
    /// samples of grid row `y`, so the cell at `(x, y)` takes `source[y][x]`.
    /// The caller's matrix is unshared afterwards.
    pub fn from_values(width: usize, height: usize, source: &Vec<Vec<i64>>) -> (g: DataGrid)
        requires
            width * height <= usize::MAX,
            source@.len() == height,
            forall|y: int| 0 <= y < height ==> (#[trigger] source@[y])@.len() == width,
        ensures
            g.wf(),
            g.width == width,
            g.height == height,
            forall|x: int, y: int|
                g.contains_cell(x, y) ==> #[trigger] g.cell(x, y) == source@[y]@[x],
    {
        let mut values: Vec<i64> = Vec::new();
        let mut y: usize = 0;
        while y < height
            invariant
                y <= height,
                source@.len() == height,
                forall|r: int| 0 <= r < height ==> (#[trigger] source@[r])@.len() == width,
                values@.len() == y * width,
                y * width <= width * height,
                forall|r: int, c: int|
                    0 <= r < y && 0 <= c < width
                        ==> #[trigger] values@[r * width + c] == source@[r]@[c],
            decreases height - y,
        {
            proof {
                assert((y + 1) * (width as int) == y * width + width) by (nonlinear_arith);
                assert((y + 1) * (width as int) <= width * height) by (nonlinear_arith)
                    requires
                        y + 1 <= height as int,
                        0 <= width as int,
                ;
            }
            let row: &Vec<i64> = &source[y];
            let mut x: usize = 0;
            while x < width
                invariant
                    x <= width,
                    y < height,
                    source@.len() == height,
                    forall|r: int| 0 <= r < height ==> (#[trigger] source@[r])@.len() == width,
                    row@ == source@[y as int]@,
                    values@.len() == y * width + x,
                    y * width + width <= width * height,
                    forall|r: int, c: int|
                        0 <= r < y && 0 <= c < width
                            ==> #[trigger] values@[r * width + c] == source@[r]@[c],
                    forall|c: int| 0 <= c < x ==> #[trigger] values@[y * width + c] == source@[y as int]@[c],
                decreases width - x,
            {
                values.push(row[x]);
                x = x + 1;
                assert forall|r: int, c: int| 0 <= r < y && 0 <= c < width
                    implies #[trigger] values@[r * width + c] == source@[r]@[c] by {
                    lemma_earlier_row_index(r, c, y as int, width as int);
                }
            }
            y = y + 1;
            proof {
                assert(values@.len() == (y - 1) * width + width);
                assert((y - 1) * (width as int) + width == y * width) by (nonlinear_arith);
            }
        }
        proof {
            assert(y * (width as int) == width * height) by (nonlinear_arith)
                requires
                    y == height as int,
            ;
        }
        DataGrid { width, height, values }
    }

    /// The sample at `(x, y)`, or `None` for any coordinate outside the
    /// bounds; never panics.
    pub fn get(&self, x: usize, y: usize) -> (r: Option<i64>)
        requires
            self.wf(),
        ensures
            r == if self.contains_cell(x as int, y as int) {
                Some(self.cell(x as int, y as int))
            } else {
                None::<i64>
            },
    {
        if x < self.width && y < self.height {
            proof {
                lemma_cell_index_bound(
                    self.width as int,
                    self.height as int,
                    x as int,
                    y as int,
                );
            }
            let n: usize = self.values.len();
            Some(self.values[y * self.width + x])
        } else {
            None
        }
    }

    /// Store `value` at `(x, y)`; a coordinate outside the bounds leaves
    /// the grid unchanged. `x` is checked against the width and `y`
    /// against the height, each on its own.
    pub fn set(&mut self, x: usize, y: usize, value: i64)
        requires
            old(self).wf(),
        ensures
            final(self).wf(),
            final(self).width == old(self).width,
            final(self).height == old(self).height,
            final(self).values@ == if old(self).contains_cell(x as int, y as int) {
                old(self).values@.update(y * old(self).width + x, value)
            } else {
                old(self).values@
            },
    {
        if x < self.width && y < self.height {
            proof {
                lemma_cell_index_bound(
                    self.width as int,
                    self.height as int,
                    x as int,
                    y as int,
                );
            }
            let n: usize = self.values.len();
            let idx: usize = y * self.width + x;
            self.values.set(idx, value);
        }
    }
}

/// Distinct cells have distinct row-major indices.
pub proof fn lemma_cell_index_injective(width: int, x1: int, y1: int, x2: int, y2: int)
    by (nonlinear_arith)
    requires
        0 <= x1 < width,
        0 <= x2 < width,
        0 <= y1,
        0 <= y2,
        y1 * width + x1 == y2 * width + x2,
    ensures
        x1 == x2,
        y1 == y2,
{
}

impl DataGrid {
    /// Blend another grid onto this one at the given offset: for every cell
    /// `(x, y)` of `other`, the destination `(x + offset_x, y + offset_y)`,
    /// where it addresses a cell of this grid, is replaced by
    /// `blend(self[destination], other[x, y])`. Destinations off this grid
    /// are skipped, so partial or fully off-grid placement is well defined
    /// and lossless for the overlapping region.
    pub fn blend_mut<F: Fn(i64, i64) -> i64>(
        &mut self,
        other: &DataGrid,
        offset_x: i64,
        offset_y: i64,
        blend: F,
    )
        requires
            old(self).wf(),
            other.wf(),
            old(self).width <= 0x1_0000_0000,
            old(self).height <= 0x1_0000_0000,
            other.width <= 0x1_0000_0000,
            other.height <= 0x1_0000_0000,
            -0x1_0000_0000_0000 <= offset_x <= 0x1_0000_0000_0000,
            -0x1_0000_0000_0000 <= offset_y <= 0x1_0000_0000_0000,
            forall|x: int, y: int|
                other.contains_cell(x, y) && old(self).contains_cell(x + offset_x, y + offset_y)
                    ==> blend.requires(
                    (old(self).cell(x + offset_x, y + offset_y), other.cell(x, y)),
                ),
        ensures
            final(self).wf(),
            final(self).width == old(self).width,
            final(self).height == old(self).height,
            forall|dx: int, dy: int|
                old(self).contains_cell(dx, dy) && other.contains_cell(
                    dx - offset_x,
                    dy - offset_y,
                ) ==> blend.ensures(
                    (old(self).cell(dx, dy), other.cell(dx - offset_x, dy - offset_y)),
                    #[trigger] final(self).cell(dx, dy),
                ),
            forall|dx: int, dy: int|
                old(self).contains_cell(dx, dy) && !other.contains_cell(
                    dx - offset_x,
                    dy - offset_y,
                ) ==> #[trigger] final(self).cell(dx, dy) == old(self).cell(dx, dy),
    {
        let ghost ox = offset_x as int;
        let ghost oy = offset_y as int;
        let mut sy: usize = 0;
        while sy < other.height
            invariant
                self.wf(),
                other.wf(),
                self.width == old(self).width,
                self.height == old(self).height,
                self.width <= 0x1_0000_0000,
                self.height <= 0x1_0000_0000,
                other.width <= 0x1_0000_0000,
                other.height <= 0x1_0000_0000,
                -0x1_0000_0000_0000 <= ox <= 0x1_0000_0000_0000,
                -0x1_0000_0000_0000 <= oy <= 0x1_0000_0000_0000,
                ox == offset_x as int,
                oy == offset_y as int,
                sy <= other.height,
                forall|x: int, y: int|
                    other.contains_cell(x, y) && old(self).contains_cell(x + ox, y + oy)
                        ==> blend.requires((old(self).cell(x + ox, y + oy), other.cell(x, y))),
                forall|dx: int, dy: int|
                    old(self).contains_cell(dx, dy) && other.contains_cell(dx - ox, dy - oy)
                        && dy - oy < sy ==> blend.ensures(
                        (old(self).cell(dx, dy), other.cell(dx - ox, dy - oy)),
                        #[trigger] self.cell(dx, dy),
                    ),
                forall|dx: int, dy: int|
                    old(self).contains_cell(dx, dy) && !(other.contains_cell(dx - ox, dy - oy)
                        && dy - oy < sy) ==> #[trigger] self.cell(dx, dy) == old(self).cell(
                        dx,
                        dy,
                    ),
            decreases other.height - sy,
        {
            let mut sx: usize = 0;
            while sx < other.width
                invariant
                    self.wf(),
                    other.wf(),
                    self.width == old(self).width,
                    self.height == old(self).height,
                    self.width <= 0x1_0000_0000,
                    self.height <= 0x1_0000_0000,
                    other.width <= 0x1_0000_0000,
                    other.height <= 0x1_0000_0000,
                    -0x1_0000_0000_0000 <= ox <= 0x1_0000_0000_0000,
                    -0x1_0000_0000_0000 <= oy <= 0x1_0000_0000_0000,
                    ox == offset_x as int,
                    oy == offset_y as int,
                    sy < other.height,
                    sx <= other.width,
                    forall|x: int, y: int|
                        other.contains_cell(x, y) && old(self).contains_cell(x + ox, y + oy)
                            ==> blend.requires(
                            (old(self).cell(x + ox, y + oy), other.cell(x, y)),
                        ),
                    forall|dx: int, dy: int|
                        old(self).contains_cell(dx, dy) && other.contains_cell(dx - ox, dy - oy)
                            && (dy - oy < sy || (dy - oy == sy && dx - ox < sx))
                            ==> blend.ensures(
                            (old(self).cell(dx, dy), other.cell(dx - ox, dy - oy)),
                            #[trigger] self.cell(dx, dy),
                        ),
                    forall|dx: int, dy: int|
                        old(self).contains_cell(dx, dy) && !(other.contains_cell(dx - ox, dy - oy)
                            && (dy - oy < sy || (dy - oy == sy && dx - ox < sx)))
                            ==> #[trigger] self.cell(dx, dy) == old(self).cell(dx, dy),
                decreases other.width - sx,
            {
                let dx: i64 = (sx as i64) + offset_x;
                let dy: i64 = (sy as i64) + offset_y;
                if 0 <= dx && dx < (self.width as i64) && 0 <= dy && dy < (self.height as i64) {
                    let dxu: usize = dx as usize;
                    let dyu: usize = dy as usize;
                    proof {
                        lemma_cell_index_bound(
                            self.width as int,
                            self.height as int,
                            dxu as int,
                            dyu as int,
                        );
                        lemma_cell_index_bound(
                            other.width as int,
                            other.height as int,
                            sx as int,
                            sy as int,
                        );
                    }
                    let n: usize = self.values.len();
                    let m: usize = other.values.len();
                    let di: usize = dyu * self.width + dxu;
                    let si: usize = sy * other.width + sx;
                    let bottom: i64 = self.values[di];
                    let top: i64 = other.values[si];
                    proof {
                        assert(dx as int == sx as int + ox && dy as int == sy as int + oy);
                        assert(other.contains_cell(sx as int, sy as int));
                        assert(old(self).contains_cell(sx as int + ox, sy as int + oy));
                        assert(blend.requires(
                            (
                                old(self).cell(sx as int + ox, sy as int + oy),
                                other.cell(sx as int, sy as int),
                            ),
                        ));
                        // The destination has not been written yet, so it still
                        // holds its original sample.
                        assert(self.cell(dx as int, dy as int) == old(self).cell(
                            dx as int,
                            dy as int,
                        ));
                        assert(bottom == old(self).cell(dx as int, dy as int));
                        assert(top == other.cell(sx as int, sy as int));
                    }
                    let merged: i64 = blend(bottom, top);
                    let ghost before = self.values@;
                    proof {
                        let w = self.width as int;
                        let h = self.height as int;
                        // Carry the loop facts over to the snapshot taken just
                        // before the write.
                        assert forall|cx: int, cy: int|
                            old(self).contains_cell(cx, cy) && !(other.contains_cell(
                                cx - ox,
                                cy - oy,
                            ) && (cy - oy < sy || (cy - oy == sy && cx - ox < sx)))
                            implies #[trigger] before[cy * w + cx] == old(self).cell(cx, cy) by {
                            lemma_cell_index_bound(w, h, cx, cy);
                            assert(self.cell(cx, cy) == before[cy * w + cx]);
                        }
                        assert forall|cx: int, cy: int|
                            old(self).contains_cell(cx, cy) && other.contains_cell(
                                cx - ox,
                                cy - oy,
                            ) && (cy - oy < sy || (cy - oy == sy && cx - ox < sx))
                            implies blend.ensures(
                            (old(self).cell(cx, cy), other.cell(cx - ox, cy - oy)),
                            #[trigger] before[cy * w + cx],
                        ) by {
                            lemma_cell_index_bound(w, h, cx, cy);
                            assert(self.cell(cx, cy) == before[cy * w + cx]);
                        }
                    }
                    self.values.set(di, merged);
                    proof {
                        let w = self.width as int;
                        let h = self.height as int;
                        assert(self.cell(dx as int, dy as int) == merged);
                        assert forall|cx: int, cy: int|
                            old(self).contains_cell(cx, cy) && !(other.contains_cell(
                                cx - ox,
                                cy - oy,
                            ) && (cy - oy < sy || (cy - oy == sy && cx - ox < sx + 1)))
                            implies #[trigger] self.cell(cx, cy) == old(self).cell(cx, cy) by {
                            lemma_cell_index_bound(w, h, cx, cy);
                            if cy * w + cx == di as int {
                                lemma_cell_index_injective(w, cx, cy, dx as int, dy as int);
                            } else {
                                assert(self.values@ == before.update(di as int, merged));
                                assert(self.cell(cx, cy) == before[cy * w + cx]);
                            }
                        }
                        assert forall|cx: int, cy: int|
                            old(self).contains_cell(cx, cy) && other.contains_cell(
                                cx - ox,
                                cy - oy,
                            ) && (cy - oy < sy || (cy - oy == sy && cx - ox < sx + 1))
                            implies blend.ensures(
                            (old(self).cell(cx, cy), other.cell(cx - ox, cy - oy)),
                            #[trigger] self.cell(cx, cy),
                        ) by {
                            lemma_cell_index_bound(w, h, cx, cy);
                            if cy * w + cx == di as int {
                                lemma_cell_index_injective(w, cx, cy, dx as int, dy as int);
                                assert(self.cell(cx, cy) == merged);
                            } else {
                                if cy - oy == sy && cx - ox == sx {
                                    assert(cx == dx as int && cy == dy as int);
                                    assert(false);
                                }
                                assert(self.values@ == before.update(di as int, merged));
                                assert(self.cell(cx, cy) == before[cy * w + cx]);
                            }
                        }
                    }
                }
                sx = sx + 1;
            }
            sy = sy + 1;
        }
    }
}

/// Grids of the same shape whose cells all agree hold equal buffers.
pub proof fn lemma_cells_determine_buffer(g1: DataGrid, g2: DataGrid)
    requires
        g1.wf(),
        g2.wf(),
        g1.width == g2.width,
        g1.height == g2.height,
        forall|x: int, y: int|
            g1.contains_cell(x, y) ==> #[trigger] g1.cell(x, y) == g2.cell(x, y),
    ensures
        g1.values@ =~= g2.values@,
{
    let w = g1.width as int;
    let h = g1.height as int;
    assert forall|i: int| 0 <= i < g1.values@.len() implies g1.values@[i] == g2.values@[i] by {
        assert(w > 0) by (nonlinear_arith)
            requires
                0 <= i < w * h,
                0 <= w,
                0 <= h,
        ;
        let y = i / w;
        let x = i % w;
        vstd::arithmetic::div_mod::lemma_fundamental_div_mod(i, w);
        vstd::arithmetic::div_mod::lemma_mod_bound(i, w);
        assert(0 <= y && y < h) by (nonlinear_arith)
            requires
                w > 0,
                0 <= x < w,
                0 <= i,
                i < w * h,
                i == w * y + x,
        ;
        assert(g1.contains_cell(x, y));
        assert(y * w + x == i) by (nonlinear_arith)
            requires
                i == w * y + x,
        ;
        assert(g1.cell(x, y) == g2.cell(x, y));
    }
}

/// Blending a grid whose placement lies fully outside this grid's bounds
/// leaves every sample unchanged: no destination cell has a source under
/// such an offset, so the buffer stays exactly what it was.
///
/// The hypothesis on `post` is what `blend_mut` ensures of the cells whose
/// destination has no source, so this applies to any result of such a call.
pub proof fn lemma_blend_fully_outside_is_identity(
    pre: DataGrid,
    post: DataGrid,
    other: DataGrid,
    ox: int,
    oy: int,
)
    requires
        pre.wf(),
        post.wf(),
        post.width == pre.width,
        post.height == pre.height,
        ox + other.width <= 0 || ox >= pre.width || oy + other.height <= 0 || oy >= pre.height,
        forall|dx: int, dy: int|
            pre.contains_cell(dx, dy) && !other.contains_cell(dx - ox, dy - oy)
                ==> #[trigger] post.cell(dx, dy) == pre.cell(dx, dy),
    ensures
        post.values@ =~= pre.values@,
{
    assert forall|dx: int, dy: int| pre.contains_cell(dx, dy) implies #[trigger] post.cell(dx, dy)
        == pre.cell(dx, dy) by {
        assert(!other.contains_cell(dx - ox, dy - oy));
    }
    lemma_cells_determine_buffer(post, pre);
}

/// New full-size grid with every sample equal to `initial_value`.
pub fn new_data_grid(initial_value: i64) -> (g: DataGrid)
    ensures
        g.wf(),
        g.width == WIDTH,
        g.height == HEIGHT,
        g.values@ =~= Seq::new((WIDTH * HEIGHT) as nat, |i: int| initial_value),
{
    let n: usize = WIDTH * HEIGHT;
    let mut values: Vec<i64> = Vec::new();
    let mut i: usize = 0;
    while i < n
        invariant
            i <= n,
            values@.len() == i,
            forall|j: int| 0 <= j < i ==> values@[j] == initial_value,
        decreases n - i,
    {
        values.push(initial_value);
        i = i + 1;
    }
    DataGrid { width: WIDTH, height: HEIGHT, values }
}

} // verus!
