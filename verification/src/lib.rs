//! Planning logic of the JetBrains Toolbox context menu generator.
//!
//! The library decides what the program does; the executable around it
//! performs the registry, file system and network work that it asks for.

pub mod arguments;
pub mod registry;
pub mod registry_state;
pub mod releases;
pub mod scan;
pub mod toolbox_state;
