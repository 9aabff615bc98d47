//! The centre pane: tabbed editors.

pub mod diff;
pub mod nav;
pub mod pages;
pub mod policy;
pub mod save;

pub use crate::editor::pages::{Editor, EditorPage};
