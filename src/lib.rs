//! The editing core of a modal terminal text editor: a line buffer with a
//! cursor, the modes that decide how keys are read, and a registry that routes
//! command strings to plugins.

pub mod buffer;
pub mod config;
pub mod editor;
pub mod input;
pub mod mode;
pub mod plugin;
pub mod text;
