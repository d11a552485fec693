use dearpypixl_grid::axis::{resolve_axis, CellSpan};
use dearpypixl_grid::geometry::{AxisSpec, CellRect, EdgeInsets, Size2D, TrackSpec};
use dearpypixl_grid::grid::{draw_cells, CellMap};

fn no_pad() -> EdgeInsets {
    EdgeInsets { left: 0, right: 0, top: 0, bottom: 0 }
}

fn weighted(weight: i64) -> TrackSpec {
    TrackSpec { fixed_size: 0, weight }
}

fn fixed(size: i64, weight: i64) -> TrackSpec {
    TrackSpec { fixed_size: size, weight }
}

fn axis(min_size: i64, weight: i64, tracks: Vec<TrackSpec>) -> AxisSpec {
    AxisSpec { min_size, weight, tracks }
}

fn rect(x: i64, y: i64, width: i64, height: i64) -> CellRect {
    CellRect { x, y, width, height }
}

fn count_cells(m: &CellMap) -> usize {
    let mut n: usize = 0;
    for r in 0..m.row_count() {
        for c in 0..m.col_count() {
            if m.get(r, c).is_some() {
                n += 1;
            }
        }
    }
    n
}

#[test]
fn equal_weights_under_unit_axis_weight_span_whole_box() {
    // Axis weight 1: one unit of weight is the whole content span.
    let rows = axis(0, 1, vec![weighted(1), weighted(1)]);
    let cols = axis(0, 1, vec![weighted(1), weighted(1)]);
    let size = Size2D { width: 100, height: 100 };
    let m = draw_cells(size, no_pad(), no_pad(), &rows, &cols).unwrap();
    assert_eq!(count_cells(&m), 4);
    assert_eq!(m.get(0, 0), Some(rect(0, 0, 100, 100)));
    assert_eq!(m.get(0, 1), Some(rect(100, 0, 100, 100)));
    assert_eq!(m.get(1, 0), Some(rect(0, 100, 100, 100)));
    assert_eq!(m.get(1, 1), Some(rect(100, 100, 100, 100)));
}

#[test]
fn two_by_two_halves() {
    let rows = axis(0, 2, vec![weighted(1), weighted(1)]);
    let cols = axis(0, 2, vec![weighted(1), weighted(1)]);
    let size = Size2D { width: 100, height: 100 };
    let m = draw_cells(size, no_pad(), no_pad(), &rows, &cols).unwrap();
    assert_eq!(count_cells(&m), 4);
    assert_eq!(m.get(0, 0), Some(rect(0, 0, 50, 50)));
    assert_eq!(m.get(0, 1), Some(rect(50, 0, 50, 50)));
    assert_eq!(m.get(1, 0), Some(rect(0, 50, 50, 50)));
    assert_eq!(m.get(1, 1), Some(rect(50, 50, 50, 50)));
}

#[test]
fn fixed_row_then_weighted_row_overflows_unclamped() {
    let rows = axis(0, 1, vec![fixed(30, 1), weighted(1)]);
    let cols = axis(0, 1, vec![weighted(1)]);
    let size = Size2D { width: 100, height: 100 };
    let m = draw_cells(size, no_pad(), no_pad(), &rows, &cols).unwrap();
    assert_eq!(m.get(0, 0), Some(rect(0, 0, 100, 30)));
    // The weighted row takes a whole unit of 100 and runs past the box.
    assert_eq!(m.get(1, 0), Some(rect(0, 30, 100, 100)));
}

#[test]
fn every_cell_present_once() {
    let rows = axis(0, 3, vec![weighted(1), weighted(1), weighted(1)]);
    let cols = axis(0, 4, vec![weighted(1), fixed(7, 0), weighted(2), weighted(1)]);
    let size = Size2D { width: 80, height: 60 };
    let m = draw_cells(size, no_pad(), no_pad(), &rows, &cols).unwrap();
    assert_eq!(m.row_count(), 3);
    assert_eq!(m.col_count(), 4);
    assert_eq!(count_cells(&m), 12);
    assert_eq!(m.get(3, 0), None);
    assert_eq!(m.get(0, 4), None);
}

#[test]
fn same_inputs_same_cells() {
    let rows = axis(5, 3, vec![weighted(1), fixed(12, 4), weighted(2)]);
    let cols = axis(0, 2, vec![weighted(3), weighted(1)]);
    let size = Size2D { width: 90, height: 70 };
    let pad = EdgeInsets { left: 3, right: 4, top: 5, bottom: 6 };
    let cell_pad = EdgeInsets { left: 2, right: 2, top: 1, bottom: 3 };
    let a = draw_cells(size, pad, cell_pad, &rows, &cols).unwrap();
    let b = draw_cells(size, pad, cell_pad, &rows, &cols).unwrap();
    for r in 0..3 {
        for c in 0..2 {
            assert_eq!(a.get(r, c), b.get(r, c));
        }
    }
}

#[test]
fn fixed_size_ignores_weight() {
    let size = Size2D { width: 100, height: 100 };
    let cols = axis(0, 1, vec![weighted(1)]);
    let light = axis(0, 4, vec![fixed(25, 0), weighted(1)]);
    let heavy = axis(0, 4, vec![fixed(25, 9), weighted(1)]);
    let a = draw_cells(size, no_pad(), no_pad(), &light, &cols).unwrap();
    let b = draw_cells(size, no_pad(), no_pad(), &heavy, &cols).unwrap();
    assert_eq!(a.get(0, 0), Some(rect(0, 0, 100, 25)));
    assert_eq!(a.get(1, 0), Some(rect(0, 25, 100, 25)));
    assert_eq!(a.get(0, 0), b.get(0, 0));
    assert_eq!(a.get(1, 0), b.get(1, 0));
}

#[test]
fn equal_weights_give_equal_columns() {
    let rows = axis(0, 1, vec![fixed(10, 0)]);
    let cols = axis(10, 3, vec![weighted(2), weighted(2), weighted(2)]);
    let size = Size2D { width: 100, height: 10 };
    let m = draw_cells(size, no_pad(), no_pad(), &rows, &cols).unwrap();
    // (100 - 10) / 3 = 30 per unit, 60 per column.
    assert_eq!(m.get(0, 0), Some(rect(0, 0, 60, 10)));
    assert_eq!(m.get(0, 1), Some(rect(60, 0, 60, 10)));
    assert_eq!(m.get(0, 2), Some(rect(120, 0, 60, 10)));
}

#[test]
fn cell_padding_keeps_track_grid() {
    let rows = axis(0, 2, vec![weighted(1), weighted(1)]);
    let cols = axis(0, 2, vec![weighted(1), weighted(1)]);
    let size = Size2D { width: 100, height: 100 };
    let plain = draw_cells(size, no_pad(), no_pad(), &rows, &cols).unwrap();
    let trailing = EdgeInsets { left: 0, right: 10, top: 0, bottom: 20 };
    let padded = draw_cells(size, no_pad(), trailing, &rows, &cols).unwrap();
    assert_eq!(plain.get(1, 1), Some(rect(50, 50, 50, 50)));
    assert_eq!(padded.get(0, 0), Some(rect(0, 0, 45, 40)));
    assert_eq!(padded.get(1, 1), Some(rect(50, 50, 45, 40)));
    let all = EdgeInsets { left: 4, right: 6, top: 8, bottom: 2 };
    let inset = draw_cells(size, no_pad(), all, &rows, &cols).unwrap();
    assert_eq!(inset.get(0, 0), Some(rect(2, 4, 45, 45)));
    assert_eq!(inset.get(1, 1), Some(rect(52, 54, 45, 45)));
}

#[test]
fn no_rows_gives_empty_map() {
    let rows = axis(0, 1, vec![]);
    let cols = axis(0, 1, vec![weighted(1), weighted(1)]);
    let size = Size2D { width: 100, height: 100 };
    let m = draw_cells(size, no_pad(), no_pad(), &rows, &cols).unwrap();
    assert_eq!(m.row_count(), 0);
    assert_eq!(count_cells(&m), 0);
    assert_eq!(m.get(0, 0), None);
}

#[test]
fn no_columns_gives_empty_map() {
    let rows = axis(0, 1, vec![weighted(1)]);
    let cols = axis(0, 1, vec![]);
    let size = Size2D { width: 100, height: 100 };
    let m = draw_cells(size, no_pad(), no_pad(), &rows, &cols).unwrap();
    assert_eq!(m.row_count(), 1);
    assert_eq!(m.col_count(), 0);
    assert_eq!(m.get(0, 0), None);
}

#[test]
fn empty_axis_wins_over_oversized_tracks() {
    let rows = axis(0, 1, vec![fixed(i64::MAX, 0), fixed(i64::MAX, 0)]);
    let cols = axis(0, 1, vec![]);
    let size = Size2D { width: 100, height: 100 };
    let m = draw_cells(size, no_pad(), no_pad(), &rows, &cols).unwrap();
    assert_eq!(count_cells(&m), 0);
}

#[test]
fn outer_padding_moves_and_shrinks_content() {
    let rows = axis(0, 1, vec![weighted(1)]);
    let cols = axis(0, 1, vec![weighted(1)]);
    let size = Size2D { width: 100, height: 80 };
    let pad = EdgeInsets { left: 10, right: 20, top: 5, bottom: 15 };
    let m = draw_cells(size, pad, no_pad(), &rows, &cols).unwrap();
    assert_eq!(m.get(0, 0), Some(rect(10, 5, 70, 60)));
}

#[test]
fn min_size_is_reserved_and_floored_at_zero() {
    let rows = axis(40, 1, vec![weighted(1)]);
    let cols = axis(500, 1, vec![weighted(1)]);
    let size = Size2D { width: 100, height: 100 };
    let m = draw_cells(size, no_pad(), no_pad(), &rows, &cols).unwrap();
    assert_eq!(m.get(0, 0), Some(rect(0, 0, 0, 60)));
}

#[test]
fn axis_weight_below_one_acts_as_one() {
    let rows = axis(0, 0, vec![weighted(1)]);
    let cols = axis(0, -5, vec![weighted(1)]);
    let size = Size2D { width: 100, height: 60 };
    let m = draw_cells(size, no_pad(), no_pad(), &rows, &cols).unwrap();
    assert_eq!(m.get(0, 0), Some(rect(0, 0, 100, 60)));
}

#[test]
fn non_positive_fixed_size_is_weighted() {
    let rows = axis(0, 4, vec![fixed(0, 1), fixed(-7, 2)]);
    let cols = axis(0, 1, vec![weighted(1)]);
    let size = Size2D { width: 10, height: 100 };
    let m = draw_cells(size, no_pad(), no_pad(), &rows, &cols).unwrap();
    assert_eq!(m.get(0, 0), Some(rect(0, 0, 10, 25)));
    assert_eq!(m.get(1, 0), Some(rect(0, 25, 10, 50)));
}

#[test]
fn zero_track_weight_gives_zero_length() {
    let rows = axis(0, 1, vec![weighted(0), weighted(1)]);
    let cols = axis(0, 1, vec![weighted(1)]);
    let size = Size2D { width: 10, height: 100 };
    let m = draw_cells(size, no_pad(), no_pad(), &rows, &cols).unwrap();
    assert_eq!(m.get(0, 0), Some(rect(0, 0, 10, 0)));
    assert_eq!(m.get(1, 0), Some(rect(0, 0, 10, 100)));
}

#[test]
fn padding_beyond_track_gives_negative_extent() {
    let rows = axis(0, 1, vec![fixed(4, 0)]);
    let cols = axis(0, 1, vec![fixed(6, 0)]);
    let size = Size2D { width: 100, height: 100 };
    let cell_pad = EdgeInsets { left: 10, right: 10, top: 8, bottom: 8 };
    let m = draw_cells(size, no_pad(), cell_pad, &rows, &cols).unwrap();
    assert_eq!(m.get(0, 0), Some(rect(5, 4, -4, -4)));
}

#[test]
fn weighted_length_rounds_toward_zero() {
    let a = axis(0, 3, vec![weighted(1), weighted(-1)]);
    let spans = resolve_axis(&a, 10, 0, 0, 0, 0).unwrap();
    assert_eq!(spans, vec![CellSpan { start: 0, extent: 3 }, CellSpan { start: 3, extent: -3 }]);
}

#[test]
fn odd_cell_padding_halves_toward_zero() {
    let a = axis(0, 1, vec![fixed(20, 0), fixed(20, 0)]);
    let spans = resolve_axis(&a, 100, 0, 0, 3, -3).unwrap();
    // Half of 3 is 1 and half of -3 is -1: the extent is 20 - (1 - 1).
    assert_eq!(spans, vec![CellSpan { start: 1, extent: 20 }, CellSpan { start: 21, extent: 20 }]);
}

#[test]
fn resolve_axis_places_tracks_after_lead_padding() {
    let a = axis(0, 2, vec![weighted(1), fixed(15, 3), weighted(1)]);
    let spans = resolve_axis(&a, 110, 6, 4, 2, 2).unwrap();
    assert_eq!(
        spans,
        vec![
            CellSpan { start: 7, extent: 48 },
            CellSpan { start: 57, extent: 13 },
            CellSpan { start: 72, extent: 48 },
        ]
    );
}

#[test]
fn coordinates_past_i64_give_none() {
    let rows = axis(0, 1, vec![fixed(i64::MAX, 0), fixed(1, 0), fixed(1, 0)]);
    let cols = axis(0, 1, vec![weighted(1)]);
    let size = Size2D { width: 100, height: 100 };
    assert!(draw_cells(size, no_pad(), no_pad(), &rows, &cols).is_none());
    let huge = axis(0, 1, vec![weighted(i64::MAX)]);
    assert!(resolve_axis(&huge, i64::MAX, 0, 0, 0, 0).is_none());
    assert!(resolve_axis(&huge, 1, 0, 0, 0, 0).is_some());
    let negative = axis(0, 1, vec![weighted(i64::MIN)]);
    assert!(resolve_axis(&negative, 2, 0, 0, 0, 0).is_none());
    assert_eq!(resolve_axis(&negative, 1, 0, 0, 0, 0).unwrap(), vec![CellSpan { start: 0, extent: i64::MIN }]);
}
