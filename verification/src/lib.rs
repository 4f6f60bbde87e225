//! A grid container: children are distributed over rows and columns.
//!
//! A [`Grid`] holds a [`Strategy`] and its children in the order in which
//! they were added. To lay a grid out is to measure every child and to
//! arrange the sizes: [`Strategy::arrange`] does the second, [`Grid::layout`]
//! both. What the arrangement is, is said in [`model`] over sequences and
//! natural numbers, and [`theorems`] holds what follows from it. An event
//! that a grid receives goes on to its children, and [`event::forward`] says
//! to which of them and what becomes of it.
//!
//! Lengths are whole units. What a child measures is a [`Size`] of two `u32`;
//! offsets and the extent of a whole grid are `u128`, wide enough for the sum
//! of as many children as a machine can hold, so that no sum overflows and
//! no layout is refused for its size.

pub mod arithmetic;
pub mod event;
pub mod geometry;
pub mod grid;
pub mod layout;
pub mod model;
pub mod strategy;
pub mod theorems;

pub use event::Status;
pub use grid::{Grid, GridView};
pub use geometry::{Layout, LayoutView, Placement, PlacementView, Size};
pub use strategy::{Constraint, Strategy};
