use vstd::prelude::*;

use crate::axis::{axis_fits, cell_extent, cell_start, resolve_axis, CellSpan};
use crate::geometry::{AxisSpec, CellRect, EdgeInsets, Size2D};

verus! {

/// Where the cells of row `r` start, from the top of the outer box.
pub open spec fn row_start(
    rect_size: Size2D,
    rect_pad: EdgeInsets,
    cell_pad: EdgeInsets,
    rows: AxisSpec,
    r: int,
) -> int {
    cell_start(rows, rect_size.height as int, rect_pad.top as int, rect_pad.bottom as int, cell_pad.top as int, r)
}

/// The height of the cells of row `r`.
pub open spec fn row_extent(
    rect_size: Size2D,
    rect_pad: EdgeInsets,
    cell_pad: EdgeInsets,
    rows: AxisSpec,
    r: int,
) -> int {
    cell_extent(
        rows,
        rect_size.height as int,
        rect_pad.top as int,
        rect_pad.bottom as int,
        cell_pad.top as int,
        cell_pad.bottom as int,
        r,
    )
}

/// Where the cells of column `c` start, from the left of the outer box.
pub open spec fn col_start(
    rect_size: Size2D,
    rect_pad: EdgeInsets,
    cell_pad: EdgeInsets,
    cols: AxisSpec,
    c: int,
) -> int {
    cell_start(cols, rect_size.width as int, rect_pad.left as int, rect_pad.right as int, cell_pad.left as int, c)
}

/// The width of the cells of column `c`.
pub open spec fn col_extent(
    rect_size: Size2D,
    rect_pad: EdgeInsets,
    cell_pad: EdgeInsets,
    cols: AxisSpec,
    c: int,
) -> int {
    cell_extent(
        cols,
        rect_size.width as int,
        rect_pad.left as int,
        rect_pad.right as int,
        cell_pad.left as int,
        cell_pad.right as int,
        c,
    )
}

/// Whether a layout can be given in `i64` coordinates: either axis has no
/// tracks, or every track of both axes fits.
pub open spec fn layout_fits(
    rect_size: Size2D,
    rect_pad: EdgeInsets,
    cell_pad: EdgeInsets,
    rows: AxisSpec,
    cols: AxisSpec,
) -> bool {
    ||| rows.tracks@.len() == 0
    ||| cols.tracks@.len() == 0
    ||| {
        &&& axis_fits(
            rows,
            rect_size.height as int,
            rect_pad.top as int,
            rect_pad.bottom as int,
            cell_pad.top as int,
            cell_pad.bottom as int,
        )
        &&& axis_fits(
            cols,
            rect_size.width as int,
            rect_pad.left as int,
            rect_pad.right as int,
            cell_pad.left as int,
            cell_pad.right as int,
        )
    }
}

/// The resolved cell of row `r` and column `c`.
pub open spec fn cell_at(
    rect_size: Size2D,
    rect_pad: EdgeInsets,
    cell_pad: EdgeInsets,
    rows: AxisSpec,
    cols: AxisSpec,
    r: int,
    c: int,
) -> CellRect {
    CellRect {
        x: col_start(rect_size, rect_pad, cell_pad, cols, c) as i64,
        y: row_start(rect_size, rect_pad, cell_pad, rows, r) as i64,
        width: col_extent(rect_size, rect_pad, cell_pad, cols, c) as i64,
        height: row_extent(rect_size, rect_pad, cell_pad, rows, r) as i64,
    }
}

/// The cell map of a layout: one cell for each pair of a row index and a
/// column index, and no other key.
pub open spec fn cell_layout(
    rect_size: Size2D,
    rect_pad: EdgeInsets,
    cell_pad: EdgeInsets,
    rows: AxisSpec,
    cols: AxisSpec,
) -> Map<(usize, usize), CellRect> {
    Map::new(
        |k: (usize, usize)| k.0 < rows.tracks@.len() && k.1 < cols.tracks@.len(),
        |k: (usize, usize)| cell_at(rect_size, rect_pad, cell_pad, rows, cols, k.0 as int, k.1 as int),
    )
}

/// The cells of a grid, keyed by row index and column index.
pub struct CellMap {
    row_count: usize,
    col_count: usize,
    cells: Vec<Vec<CellRect>>,
}

impl CellMap {
    #[verifier::type_invariant]
    spec fn well_formed(&self) -> bool {
        ||| {
            &&& self.cells@.len() == self.row_count
            &&& forall|r: int| 0 <= r < self.cells@.len() ==> #[trigger] self.cells@[r]@.len() == self.col_count
        }
        ||| {
            &&& self.row_count == 0 || self.col_count == 0
            &&& self.cells@.len() == 0
        }
    }

    /// The cells by (row, column).
    pub closed spec fn view(&self) -> Map<(usize, usize), CellRect> {
        Map::new(
            |k: (usize, usize)| k.0 < self.row_count && k.1 < self.col_count,
            |k: (usize, usize)| self.cells@[k.0 as int]@[k.1 as int],
        )
    }

    /// The number of rows.
    pub closed spec fn rows(&self) -> usize {
        self.row_count
    }

    /// The number of columns.
    pub closed spec fn cols(&self) -> usize {
        self.col_count
    }

    /// The number of rows.
    pub fn row_count(&self) -> (r: usize)
        ensures
            r == self.rows(),
    {
        self.row_count
    }

    /// The number of columns.
    pub fn col_count(&self) -> (r: usize)
        ensures
            r == self.cols(),
    {
        self.col_count
    }

    /// The cell of row `row` and column `col`, if there is one.
    pub fn get(&self, row: usize, col: usize) -> (r: Option<CellRect>)
        ensures
            r == (if self@.contains_key((row, col)) {
                Some(self@[(row, col)])
            } else {
                None
            }),
    {
        proof {
            use_type_invariant(self);
        }
        if row < self.row_count && col < self.col_count {
            Some(self.cells[row][col])
        } else {
            None
        }
    }
}

/// Resolves the cells of a grid: the outer box `rect_size`, less the outer
/// padding `rect_pad`, holds the rows top to bottom and the columns left to
/// right; each cell is its row's and column's track, less half of `cell_pad`
/// on each edge. Negative widths and heights are returned as they come.
/// `None` exactly when some coordinate of the layout does not fit in an `i64`;
/// an axis without tracks always gives an empty map.
pub fn draw_cells(
    rect_size: Size2D,
    rect_pad: EdgeInsets,
    cell_pad: EdgeInsets,
    row_axis: &AxisSpec,
    col_axis: &AxisSpec,
) -> (r: Option<CellMap>)
    ensures
        r is Some <==> layout_fits(rect_size, rect_pad, cell_pad, *row_axis, *col_axis),
        r is Some ==> r->0@ == cell_layout(rect_size, rect_pad, cell_pad, *row_axis, *col_axis),
        r is Some ==> r->0.rows() == row_axis.tracks@.len() && r->0.cols() == col_axis.tracks@.len(),
{
    let n_rows: usize = row_axis.tracks.len();
    let n_cols: usize = col_axis.tracks.len();
    if n_rows == 0 || n_cols == 0 {
        let empty = CellMap { row_count: n_rows, col_count: n_cols, cells: Vec::new() };
        assert(empty@ =~= cell_layout(rect_size, rect_pad, cell_pad, *row_axis, *col_axis));
        return Some(empty);
    }
    let rows: Vec<CellSpan> = match resolve_axis(
        row_axis,
        rect_size.height,
        rect_pad.top,
        rect_pad.bottom,
        cell_pad.top,
        cell_pad.bottom,
    ) {
        Some(v) => v,
        None => {
            return None;
        },
    };
    let cols: Vec<CellSpan> = match resolve_axis(
        col_axis,
        rect_size.width,
        rect_pad.left,
        rect_pad.right,
        cell_pad.left,
        cell_pad.right,
    ) {
        Some(v) => v,
        None => {
            return None;
        },
    };
    let ghost layout = cell_layout(rect_size, rect_pad, cell_pad, *row_axis, *col_axis);
    let mut cells: Vec<Vec<CellRect>> = Vec::new();
    let mut r: usize = 0;
    while r < n_rows
        invariant
            n_rows == rows@.len() == row_axis.tracks@.len(),
            n_cols == cols@.len() == col_axis.tracks@.len(),
            0 <= r <= n_rows,
            cells@.len() == r,
            forall|i: int, j: int|
                0 <= i < r && 0 <= j < n_cols ==> #[trigger] cells@[i]@[j] == cell_at(
                    rect_size,
                    rect_pad,
                    cell_pad,
                    *row_axis,
                    *col_axis,
                    i,
                    j,
                ),
            forall|i: int| 0 <= i < r ==> #[trigger] cells@[i]@.len() == n_cols,
            forall|i: int|
                0 <= i < n_rows ==> {
                    &&& #[trigger] rows@[i].start == row_start(rect_size, rect_pad, cell_pad, *row_axis, i)
                    &&& rows@[i].extent == row_extent(rect_size, rect_pad, cell_pad, *row_axis, i)
                },
            forall|j: int|
                0 <= j < n_cols ==> {
                    &&& #[trigger] cols@[j].start == col_start(rect_size, rect_pad, cell_pad, *col_axis, j)
                    &&& cols@[j].extent == col_extent(rect_size, rect_pad, cell_pad, *col_axis, j)
                },
        decreases n_rows - r,
    {
        let row: CellSpan = rows[r];
        assert(rows@[r as int].start == row_start(rect_size, rect_pad, cell_pad, *row_axis, r as int));
        let mut line: Vec<CellRect> = Vec::new();
        let mut c: usize = 0;
        while c < n_cols
            invariant
                n_cols == cols@.len() == col_axis.tracks@.len(),
                0 <= c <= n_cols,
                r < n_rows == rows@.len(),
                row == rows@[r as int],
                line@.len() == c,
                forall|j: int|
                    0 <= j < c ==> #[trigger] line@[j] == cell_at(
                        rect_size,
                        rect_pad,
                        cell_pad,
                        *row_axis,
                        *col_axis,
                        r as int,
                        j,
                    ),
                row.start == row_start(rect_size, rect_pad, cell_pad, *row_axis, r as int),
                row.extent == row_extent(rect_size, rect_pad, cell_pad, *row_axis, r as int),
                forall|j: int|
                    0 <= j < n_cols ==> {
                        &&& #[trigger] cols@[j].start == col_start(rect_size, rect_pad, cell_pad, *col_axis, j)
                        &&& cols@[j].extent == col_extent(rect_size, rect_pad, cell_pad, *col_axis, j)
                    },
            decreases n_cols - c,
        {
            let col: CellSpan = cols[c];
            line.push(CellRect { x: col.start, y: row.start, width: col.extent, height: row.extent });
            c = c + 1;
        }
        cells.push(line);
        r = r + 1;
    }
    let map = CellMap { row_count: n_rows, col_count: n_cols, cells };
    assert(map@ =~= layout);
    Some(map)
}

} // verus!
