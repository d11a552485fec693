//! Resolves the cells of a row and column grid layout: from the outer box,
//! its padding, the cell padding and the sizing rules of each axis, the box
//! of every cell, with every result proved against its specification.

pub mod axis;
pub mod geometry;
pub mod grid;
pub mod laws;
