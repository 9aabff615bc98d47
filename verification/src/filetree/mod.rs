//! The file tree, which is the git interface.

pub mod actions;
pub mod bulk;
pub mod changed;
pub mod commit;
pub mod gate;
pub mod ghosts;
pub mod ignoring;
pub mod listing;
pub mod menu;
pub mod plan;
pub mod remote;
pub mod rows;
pub mod search;
pub mod snapshot;
pub mod status;
pub mod tree;
