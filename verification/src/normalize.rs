//! Statistics-driven normalization: global minimum and maximum of a grid,
//! and the affine rescale of every sample into a target range.

use vstd::prelude::*;

use crate::fixed::{lemma_remap_spec_props, remap, remap_spec};
use crate::grid::DataGrid;
use crate::VAL_LIMIT;

verus! {

broadcast use vstd::std_specs::vec::axiom_spec_len;

/// The smallest sample of a non-empty buffer (0 for an empty one).
pub open spec fn cells_min(s: Seq<i64>) -> int
    decreases s.len(),
{
    if s.len() == 0 {
        0
    } else if s.len() == 1 {
        s[0] as int
    } else {
        let m = cells_min(s.drop_last());
        if s.last() < m {
            s.last() as int
        } else {
            m
        }
    }
}

/// The largest sample of a non-empty buffer (0 for an empty one).
pub open spec fn cells_max(s: Seq<i64>) -> int
    decreases s.len(),
{
    if s.len() == 0 {
        0
    } else if s.len() == 1 {
        s[0] as int
    } else {
        let m = cells_max(s.drop_last());
        if s.last() > m {
            s.last() as int
        } else {
            m
        }
    }
}

/// The minimum and maximum of a non-empty buffer bound every sample and are
/// themselves attained by samples.
pub proof fn lemma_min_max_properties(s: Seq<i64>)
    requires
        s.len() > 0,
    ensures
        forall|i: int| 0 <= i < s.len() ==> cells_min(s) <= #[trigger] s[i] <= cells_max(s),
        exists|i: int| 0 <= i < s.len() && #[trigger] s[i] == cells_min(s),
        exists|i: int| 0 <= i < s.len() && #[trigger] s[i] == cells_max(s),
        cells_min(s) <= cells_max(s),
    decreases s.len(),
{
    if s.len() == 1 {
        assert(s[0] == cells_min(s));
        assert(s[0] == cells_max(s));
    } else {
        let t = s.drop_last();
        lemma_min_max_properties(t);
        let last = s.len() - 1;
        assert(forall|i: int| 0 <= i < t.len() ==> #[trigger] t[i] == s[i]);
        assert forall|i: int| 0 <= i < s.len() implies cells_min(s) <= #[trigger] s[i]
            <= cells_max(s) by {
            if i < s.len() - 1 {
                assert(s[i] == t[i]);
                assert(cells_min(t) <= t[i] <= cells_max(t));
            }
        }
        if s.last() < cells_min(t) {
            assert(s[last] == cells_min(s));
        } else {
            let j = choose|j: int| 0 <= j < t.len() && #[trigger] t[j] == cells_min(t);
            assert(s[j] == cells_min(s));
        }
        if s.last() > cells_max(t) {
            assert(s[last] == cells_max(s));
        } else {
            let j = choose|j: int| 0 <= j < t.len() && #[trigger] t[j] == cells_max(t);
            assert(s[j] == cells_max(s));
        }
    }
}

/// Linear scan for the global minimum sample; `None` only for an empty grid.
pub fn min_in(grid: &DataGrid) -> (r: Option<i64>)
    requires
        grid.wf(),
    ensures
        match r {
            Some(m) => grid.values@.len() > 0 && m as int == cells_min(grid.values@),
            None => grid.values@.len() == 0,
        },
{
    let n: usize = grid.values.len();
    if n == 0 {
        return None;
    }
    let mut m: i64 = grid.values[0];
    let mut i: usize = 1;
    proof {
        assert(grid.values@.subrange(0, 1) =~= seq![grid.values@[0]]);
    }
    while i < n
        invariant
            1 <= i <= n,
            n == grid.values@.len(),
            m as int == cells_min(grid.values@.subrange(0, i as int)),
        decreases n - i,
    {
        let v: i64 = grid.values[i];
        proof {
            let pre = grid.values@.subrange(0, i as int);
            let cur = grid.values@.subrange(0, i + 1);
            assert(cur.drop_last() =~= pre);
            assert(cur.last() == grid.values@[i as int]);
        }
        if v < m {
            m = v;
        }
        i = i + 1;
    }
    proof {
        assert(grid.values@.subrange(0, n as int) =~= grid.values@);
    }
    Some(m)
}

/// Linear scan for the global maximum sample; `None` only for an empty grid.
pub fn max_in(grid: &DataGrid) -> (r: Option<i64>)
    requires
        grid.wf(),
    ensures
        match r {
            Some(m) => grid.values@.len() > 0 && m as int == cells_max(grid.values@),
            None => grid.values@.len() == 0,
        },
{
    let n: usize = grid.values.len();
    if n == 0 {
        return None;
    }
    let mut m: i64 = grid.values[0];
    let mut i: usize = 1;
    proof {
        assert(grid.values@.subrange(0, 1) =~= seq![grid.values@[0]]);
    }
    while i < n
        invariant
            1 <= i <= n,
            n == grid.values@.len(),
            m as int == cells_max(grid.values@.subrange(0, i as int)),
        decreases n - i,
    {
        let v: i64 = grid.values[i];
        proof {
            let pre = grid.values@.subrange(0, i as int);
            let cur = grid.values@.subrange(0, i + 1);
            assert(cur.drop_last() =~= pre);
            assert(cur.last() == grid.values@[i as int]);
        }
        if v > m {
            m = v;
        }
        i = i + 1;
    }
    proof {
        assert(grid.values@.subrange(0, n as int) =~= grid.values@);
    }
    Some(m)
}

/// What rescaling a whole buffer to `[a, b]` is: every sample remapped from
/// the buffer's own range; a flat buffer (minimum equal to maximum) falls
/// back to `a` everywhere, so the degenerate range never divides by zero.
pub open spec fn remap_cells_spec(s: Seq<i64>, a: i64, b: i64) -> Seq<i64> {
    if cells_min(s) == cells_max(s) {
        Seq::new(s.len(), |i: int| a)
    } else {
        Seq::new(
            s.len(),
            |i: int|
                remap_spec(s[i] as int, cells_min(s), cells_max(s), a as int, b as int) as i64,
        )
    }
}

/// Rescale every sample of the grid into `[a, b]`, using the grid's own
/// minimum and maximum as the source range. A flat grid (minimum equal to
/// maximum) falls back to `a` in every cell, so no degenerate division
/// happens and no undefined value can propagate further. Afterwards a
/// grid that was not flat attains `a` as its exact minimum and `b` as its
/// exact maximum, whatever its original range was.
pub fn remap_data_grid(grid: &mut DataGrid, a: i64, b: i64)
    requires
        old(grid).wf(),
        a <= b,
        -VAL_LIMIT <= a <= VAL_LIMIT,
        -VAL_LIMIT <= b <= VAL_LIMIT,
        old(grid).all_within(-VAL_LIMIT as int, VAL_LIMIT as int),
    ensures
        final(grid).wf(),
        final(grid).width == old(grid).width,
        final(grid).height == old(grid).height,
        final(grid).values@ == remap_cells_spec(old(grid).values@, a, b),
        cells_min(old(grid).values@) == cells_max(old(grid).values@) ==> forall|i: int|
            0 <= i < final(grid).values@.len() ==> #[trigger] final(grid).values@[i] == a,
        old(grid).values@.len() > 0 && cells_min(old(grid).values@) != cells_max(
            old(grid).values@,
        ) ==> cells_min(final(grid).values@) == a as int && cells_max(final(grid).values@)
            == b as int,
{
    let n: usize = grid.values.len();
    if n == 0 {
        proof {
            assert(grid.values@ =~= remap_cells_spec(old(grid).values@, a, b));
        }
        return;
    }
    let mn: i64 = min_in(grid).unwrap();
    let mx: i64 = max_in(grid).unwrap();
    proof {
        lemma_min_max_properties(grid.values@);
    }
    if mn == mx {
        let mut i: usize = 0;
        while i < n
            invariant
                i <= n,
                grid.wf(),
                grid.width == old(grid).width,
                grid.height == old(grid).height,
                n == grid.values@.len(),
                forall|j: int| 0 <= j < i ==> #[trigger] grid.values@[j] == a,
                forall|j: int| i <= j < n ==> #[trigger] grid.values@[j] == old(grid).values@[j],
            decreases n - i,
        {
            self_set(grid, i, a);
            i = i + 1;
        }
        proof {
            assert(grid.values@ =~= remap_cells_spec(old(grid).values@, a, b));
        }
    } else {
        proof {
            let s0 = old(grid).values@;
            let jm = choose|j: int| 0 <= j < s0.len() && #[trigger] s0[j] == cells_min(s0);
            let jq = choose|j: int| 0 <= j < s0.len() && #[trigger] s0[j] == cells_max(s0);
            assert(-VAL_LIMIT <= s0[jm] <= VAL_LIMIT);
            assert(-VAL_LIMIT <= s0[jq] <= VAL_LIMIT);
        }
        let mut i: usize = 0;
        while i < n
            invariant
                i <= n,
                grid.wf(),
                grid.width == old(grid).width,
                grid.height == old(grid).height,
                n == grid.values@.len(),
                n == old(grid).values@.len(),
                a <= b,
                -VAL_LIMIT <= a <= VAL_LIMIT,
                -VAL_LIMIT <= b <= VAL_LIMIT,
                old(grid).all_within(-VAL_LIMIT as int, VAL_LIMIT as int),
                mn as int == cells_min(old(grid).values@),
                mx as int == cells_max(old(grid).values@),
                mn < mx,
                -VAL_LIMIT <= mn <= VAL_LIMIT,
                -VAL_LIMIT <= mx <= VAL_LIMIT,
                forall|j: int|
                    0 <= j < i ==> #[trigger] grid.values@[j] == remap_spec(
                        old(grid).values@[j] as int,
                        mn as int,
                        mx as int,
                        a as int,
                        b as int,
                    ) as i64,
                forall|j: int| i <= j < n ==> #[trigger] grid.values@[j] == old(grid).values@[j],
            decreases n - i,
        {
            let v: i64 = grid.values[i];
            proof {
                lemma_min_max_properties(old(grid).values@);
                assert(old(grid).values@[i as int] == v);
                assert(-VAL_LIMIT <= old(grid).values@[i as int] <= VAL_LIMIT);
                assert(mn <= v <= mx);
            }
            let w: i64 = remap(v, mn, mx, a, b);
            self_set(grid, i, w);
            i = i + 1;
        }
        proof {
            assert(grid.values@ =~= remap_cells_spec(old(grid).values@, a, b));
            lemma_remap_sets_range(old(grid).values@, a, b);
        }
    }
}

/// Write one buffer slot; dimensions and the other slots stay as they are.
fn self_set(grid: &mut DataGrid, i: usize, v: i64)
    requires
        old(grid).wf(),
        i < old(grid).values@.len(),
    ensures
        final(grid).wf(),
        final(grid).width == old(grid).width,
        final(grid).height == old(grid).height,
        final(grid).values@ == old(grid).values@.update(i as int, v),
{
    grid.values.set(i, v);
}

/// Rescaling a buffer whose samples are not all equal gives a buffer whose
/// exact minimum is `a` and whose exact maximum is `b`: the rescale target
/// range is attained, whatever the original range was.
pub proof fn lemma_remap_sets_range(s: Seq<i64>, a: i64, b: i64)
    requires
        s.len() > 0,
        cells_min(s) != cells_max(s),
        a <= b,
    ensures
        cells_min(remap_cells_spec(s, a, b)) == a as int,
        cells_max(remap_cells_spec(s, a, b)) == b as int,
{
    let t = remap_cells_spec(s, a, b);
    let mn = cells_min(s);
    let mx = cells_max(s);
    lemma_min_max_properties(s);
    assert(mn < mx);
    assert forall|i: int| 0 <= i < t.len() implies a as int <= #[trigger] t[i] <= b as int by {
        lemma_remap_spec_props(s[i] as int, mn, mx, a as int, b as int);
    }
    let j = choose|j: int| 0 <= j < s.len() && #[trigger] s[j] == mn;
    lemma_remap_spec_props(s[j] as int, mn, mx, a as int, b as int);
    assert(t[j] == a);
    let k = choose|k: int| 0 <= k < s.len() && #[trigger] s[k] == mx;
    lemma_remap_spec_props(s[k] as int, mn, mx, a as int, b as int);
    assert(t[k] == b);
    lemma_min_max_properties(t);
    assert(cells_min(t) <= t[j]);
    assert(cells_max(t) >= t[k]);
    let p = choose|p: int| 0 <= p < t.len() && #[trigger] t[p] == cells_min(t);
    let q = choose|q: int| 0 <= q < t.len() && #[trigger] t[q] == cells_max(t);
    assert(a as int <= t[p] && t[q] <= b as int);
}

/// Every sample of a rescaled buffer lies within the target range.
pub proof fn lemma_remap_cells_within(s: Seq<i64>, a: i64, b: i64)
    requires
        a <= b,
    ensures
        forall|i: int|
            0 <= i < s.len() ==> a <= #[trigger] remap_cells_spec(s, a, b)[i] <= b,
{
    let t = remap_cells_spec(s, a, b);
    if cells_min(s) == cells_max(s) {
    } else {
        lemma_min_max_properties(s);
        assert forall|i: int| 0 <= i < s.len() implies a <= #[trigger] t[i] <= b by {
            lemma_remap_spec_props(
                s[i] as int,
                cells_min(s),
                cells_max(s),
                a as int,
                b as int,
            );
        }
    }
}

} // verus!
