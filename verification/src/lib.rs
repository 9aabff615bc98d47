//! The decisions behind the workbench: fleet rows, the environment panel,
//! the coordinator's watch, the file tree, the editor and the console.

pub mod console;
pub mod controller;
pub mod coordinator;
pub mod devcontainer_ui;
pub mod editor;
pub mod env_channel;
pub mod environment;
pub mod environments;
pub mod envstrip;
pub mod filetree;
pub mod fleet;
pub mod order;
pub mod path;
pub mod quantity;
pub mod quota;
pub mod text;
