//! The values that GDScript literal tokens carry.
use vstd::prelude::*;

verus! {

/// A GDScript constant value, as held by literal and error tokens.
///
/// Floating-point literals are kept as the decimal text of the literal (with digit separators
/// removed); turning that text into a number is left to the caller.
#[derive(Debug, Default, PartialEq, Eq)]
pub enum Variant {
    #[default]
    Nil,
    Bool(bool),
    Int(i64),
    Float(String),
    String(String),
    StringName(String),
    NodePath(String),
}

impl Clone for Variant {
    fn clone(&self) -> (r: Variant)
        ensures
            r == *self,
    {
        self.duplicate()
    }
}

impl Variant {
    /// An identical copy of this value.
    pub fn duplicate(&self) -> (r: Variant)
        ensures
            r == *self,
    {
        match self {
            Variant::Nil => Variant::Nil,
            Variant::Bool(b) => Variant::Bool(*b),
            Variant::Int(i) => Variant::Int(*i),
            Variant::Float(s) => Variant::Float(s.clone()),
            Variant::String(s) => Variant::String(s.clone()),
            Variant::StringName(s) => Variant::StringName(s.clone()),
            Variant::NodePath(s) => Variant::NodePath(s.clone()),
        }
    }
}

} // verus!
