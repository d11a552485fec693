use vstd::prelude::*;

verus! {

/// Outer dimensions of the box that holds the grid.
#[derive(Clone, Copy, Debug, PartialEq, Eq, Structural)]
pub struct Size2D {
    pub width: i64,
    pub height: i64,
}

/// Padding on each edge of a box.
#[derive(Clone, Copy, Debug, PartialEq, Eq, Structural)]
pub struct EdgeInsets {
    pub left: i64,
    pub right: i64,
    pub top: i64,
    pub bottom: i64,
}

/// One row or column: a positive `fixed_size` is its exact length;
/// otherwise it takes `weight` units of the axis's weighted length.
#[derive(Clone, Copy, Debug, PartialEq, Eq, Structural)]
pub struct TrackSpec {
    pub fixed_size: i64,
    pub weight: i64,
}

/// The sizing rules of one axis and its tracks in order.
#[derive(Clone, Debug)]
pub struct AxisSpec {
    pub min_size: i64,
    pub weight: i64,
    pub tracks: Vec<TrackSpec>,
}

/// The resolved box of one cell.
#[derive(Clone, Copy, Debug, PartialEq, Eq, Structural)]
pub struct CellRect {
    pub x: i64,
    pub y: i64,
    pub width: i64,
    pub height: i64,
}

} // verus!
