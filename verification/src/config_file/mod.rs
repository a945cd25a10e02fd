//! Godot configuration files.
pub mod extension_list;
