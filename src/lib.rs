//! Conway's Game of Life on a fixed-size toroidal grid.
//!
//! `rules` states the transition rule, `universe` holds the grid and advances
//! it one generation at a time, `geometry` maps cells and grid lines to exact
//! positions on a drawing surface, and `laws` proves properties of the rule:
//! still lifes, oscillators and wrapping at the edges.
pub mod geometry;
pub mod laws;
pub mod rules;
pub mod universe;
