//! The bottom pane: the selected environment's machine room.

pub mod envmap;
pub mod facts;
pub mod fixtures;
pub mod issues;
pub mod lifecycle;
pub mod resources;
pub mod review;
pub mod same;
pub mod scan;
pub mod shells;
pub mod terminal;

pub use crate::console::facts::Console;
pub use crate::console::review::ReviewFacts;
