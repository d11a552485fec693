use vstd::prelude::*;

use crate::axis::{axis_track_len, cell_extent, cell_start, half};
use crate::geometry::{AxisSpec, EdgeInsets, Size2D};
use crate::grid::{cell_layout, layout_fits, CellMap};

verus! {

/// What `draw_cells` returns on the given inputs, as its contract states it.
pub open spec fn resolves_to(
    rect_size: Size2D,
    rect_pad: EdgeInsets,
    cell_pad: EdgeInsets,
    rows: AxisSpec,
    cols: AxisSpec,
    r: Option<CellMap>,
) -> bool {
    &&& r is Some <==> layout_fits(rect_size, rect_pad, cell_pad, rows, cols)
    &&& r is Some ==> r->0@ == cell_layout(rect_size, rect_pad, cell_pad, rows, cols)
    &&& r is Some ==> r->0.rows() == rows.tracks@.len() && r->0.cols() == cols.tracks@.len()
}

/// The pairs of a row index below `n_rows` and a column index below `n_cols`.
pub open spec fn grid_keys(n_rows: int, n_cols: int) -> Set<(usize, usize)> {
    Set::new(|k: (usize, usize)| (k.0 as int) < n_rows && (k.1 as int) < n_cols)
}

proof fn lemma_row_keys_count(row: usize, n_cols: int)
    requires
        0 <= n_cols <= usize::MAX + 1,
    ensures
        Set::new(|k: (usize, usize)| k.0 == row && (k.1 as int) < n_cols).finite(),
        Set::new(|k: (usize, usize)| k.0 == row && (k.1 as int) < n_cols).len() == n_cols,
    decreases n_cols,
{
    let s = Set::new(|k: (usize, usize)| k.0 == row && (k.1 as int) < n_cols);
    if n_cols == 0 {
        assert(s =~= Set::empty());
    } else {
        let prev = Set::new(|k: (usize, usize)| k.0 == row && (k.1 as int) < n_cols - 1);
        lemma_row_keys_count(row, n_cols - 1);
        let last: (usize, usize) = (row, (n_cols - 1) as usize);
        assert(s =~= prev.insert(last));
        assert(!prev.contains(last));
    }
}

proof fn lemma_grid_keys_count(n_rows: int, n_cols: int)
    requires
        0 <= n_rows <= usize::MAX + 1,
        0 <= n_cols <= usize::MAX + 1,
    ensures
        grid_keys(n_rows, n_cols).finite(),
        grid_keys(n_rows, n_cols).len() == n_rows * n_cols,
    decreases n_rows,
{
    if n_rows == 0 {
        assert(grid_keys(n_rows, n_cols) =~= Set::empty());
    } else {
        let row: usize = (n_rows - 1) as usize;
        let line = Set::new(|k: (usize, usize)| k.0 == row && (k.1 as int) < n_cols);
        lemma_grid_keys_count(n_rows - 1, n_cols);
        lemma_row_keys_count(row, n_cols);
        assert(grid_keys(n_rows, n_cols) =~= grid_keys(n_rows - 1, n_cols).union(line));
        assert(grid_keys(n_rows - 1, n_cols).disjoint(line));
        vstd::set_lib::lemma_set_disjoint_lens(grid_keys(n_rows - 1, n_cols), line);
        assert(n_rows * n_cols == (n_rows - 1) * n_cols + n_cols) by (nonlinear_arith);
    }
}

/// Every cell map that `draw_cells` returns holds exactly one cell for each
/// pair of a row index and a column index: rows times columns entries.
pub proof fn lemma_every_cell_present(
    rect_size: Size2D,
    rect_pad: EdgeInsets,
    cell_pad: EdgeInsets,
    rows: AxisSpec,
    cols: AxisSpec,
    r: Option<CellMap>,
)
    requires
        resolves_to(rect_size, rect_pad, cell_pad, rows, cols, r),
        r is Some,
    ensures
        r->0@.dom() == grid_keys(rows.tracks@.len() as int, cols.tracks@.len() as int),
        r->0@.dom().finite(),
        r->0@.dom().len() == rows.tracks@.len() * cols.tracks@.len(),
{
    let n_rows = rows.tracks@.len() as int;
    let n_cols = cols.tracks@.len() as int;
    assert(r->0@.dom() =~= grid_keys(n_rows, n_cols));
    lemma_grid_keys_count(n_rows, n_cols);
}

/// Two results that `draw_cells` may give on the same inputs are the same:
/// both fail, or both hold the same cells.
pub proof fn lemma_deterministic(
    rect_size: Size2D,
    rect_pad: EdgeInsets,
    cell_pad: EdgeInsets,
    rows: AxisSpec,
    cols: AxisSpec,
    a: Option<CellMap>,
    b: Option<CellMap>,
)
    requires
        resolves_to(rect_size, rect_pad, cell_pad, rows, cols, a),
        resolves_to(rect_size, rect_pad, cell_pad, rows, cols, b),
    ensures
        a is Some == b is Some,
        a is Some ==> a->0@ == b->0@ && a->0.rows() == b->0.rows() && a->0.cols() == b->0.cols(),
{
}

/// A track with a positive fixed size is exactly that long, whatever its
/// weight, and moves the next track's cell by exactly that much.
pub proof fn lemma_fixed_size_precedence(
    axis: AxisSpec,
    size: int,
    lead: int,
    trail: int,
    cell_lead: int,
    i: int,
)
    requires
        0 <= i < axis.tracks@.len(),
        axis.tracks@[i].fixed_size > 0,
    ensures
        axis_track_len(axis, size, lead, trail, i) == axis.tracks@[i].fixed_size,
        cell_start(axis, size, lead, trail, cell_lead, i + 1) == cell_start(axis, size, lead, trail, cell_lead, i)
            + axis.tracks@[i].fixed_size,
{
}

/// On an axis whose tracks are all weighted, tracks of equal weight have equal
/// lengths and equal cell extents.
pub proof fn lemma_equal_weights_equal_spans(
    axis: AxisSpec,
    size: int,
    lead: int,
    trail: int,
    cell_lead: int,
    cell_trail: int,
    i: int,
    j: int,
)
    requires
        0 <= i < axis.tracks@.len(),
        0 <= j < axis.tracks@.len(),
        forall|k: int| 0 <= k < axis.tracks@.len() ==> #[trigger] axis.tracks@[k].fixed_size <= 0,
        axis.tracks@[i].weight == axis.tracks@[j].weight,
    ensures
        axis_track_len(axis, size, lead, trail, i) == axis_track_len(axis, size, lead, trail, j),
        cell_extent(axis, size, lead, trail, cell_lead, cell_trail, i) == cell_extent(
            axis,
            size,
            lead,
            trail,
            cell_lead,
            cell_trail,
            j,
        ),
{
    assert(axis.tracks@[i].fixed_size <= 0);
    assert(axis.tracks@[j].fixed_size <= 0);
}

/// Tracks follow one another by their raw lengths: each cell starts where the
/// previous track's cell started plus that track's raw length, whatever the
/// cell padding. Changing the cell padding moves every cell start by the same
/// amount, half the change of the lead padding, and leaves it in place when
/// the lead padding stays.
pub proof fn lemma_cell_padding_keeps_track_grid(
    axis: AxisSpec,
    size: int,
    lead: int,
    trail: int,
    cell_lead: int,
    other_cell_lead: int,
    i: int,
)
    requires
        0 <= i < axis.tracks@.len(),
    ensures
        cell_start(axis, size, lead, trail, cell_lead, i + 1) == cell_start(axis, size, lead, trail, cell_lead, i)
            + axis_track_len(axis, size, lead, trail, i),
        cell_start(axis, size, lead, trail, cell_lead, i) - half(cell_lead) == cell_start(
            axis,
            size,
            lead,
            trail,
            other_cell_lead,
            i,
        ) - half(other_cell_lead),
        cell_lead == other_cell_lead ==> cell_start(axis, size, lead, trail, cell_lead, i) == cell_start(
            axis,
            size,
            lead,
            trail,
            other_cell_lead,
            i,
        ),
{
}

/// With no rows or no columns the layout always resolves, to an empty map.
pub proof fn lemma_empty_axis(
    rect_size: Size2D,
    rect_pad: EdgeInsets,
    cell_pad: EdgeInsets,
    rows: AxisSpec,
    cols: AxisSpec,
    r: Option<CellMap>,
)
    requires
        resolves_to(rect_size, rect_pad, cell_pad, rows, cols, r),
        rows.tracks@.len() == 0 || cols.tracks@.len() == 0,
    ensures
        r is Some,
        r->0@.dom().is_empty(),
{
    assert(r->0@.dom() =~= Set::<(usize, usize)>::empty());
}

} // verus!
