//! A rectangular text-layout engine.
//!
//! A [`grid::Grid`] is a rectangle of character cells. A
//! [`process::DrawProcess`] owns such a rectangle, splits its rows into a
//! "minus" section above a divider and a "plus" section below it, places
//! lines of text into the two sections and turns its state into an ordered
//! list of drawing actions, one pair for every row it owns.

pub mod grid;
pub mod laws;
pub mod out;
pub mod process;
pub mod trim;
