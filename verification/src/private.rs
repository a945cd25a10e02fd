//! Marker for traits that only this crate implements.
use vstd::prelude::*;

verus! {

/// Implemented by the crate's own types only; bounds public traits that callers must not
/// implement.
pub trait Sealed {}

} // verus!
