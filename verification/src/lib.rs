//! Godot file formats and GDScript tokenizers, with verified contracts.
use vstd::prelude::*;

pub mod marshalling;
pub mod util;
pub mod string;
pub mod variant;
pub mod engine_build;
pub mod gdscript;
pub mod uid_cache;
pub mod config_file;
pub mod pack;
pub mod loaded_pack;
mod private;

pub use marshalling::{ReadableMarshalBuffer, WritableMarshalBuffer};

verus! {

/// Errors raised while decoding Godot binary data.
#[derive(Debug, Clone, Copy, PartialEq, Eq, Structural)]
pub enum Error {
    /// The provided buffer is shorter than expected.
    TooShort,
    /// The data is malformed.
    BadData,
    /// Unsupported or unknown format version.
    UnknownVersion(u32),
}

} // verus!
