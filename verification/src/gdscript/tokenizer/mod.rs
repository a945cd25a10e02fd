//! GDScript tokenizers.
use vstd::prelude::*;
use crate::engine_build::GDScriptBuild;
use crate::gdscript::{Spanned, Token};
use crate::private::Sealed;

pub mod bytecode;
pub mod reconstitute_text;
pub mod text;

pub use self::bytecode::{CompressMode, TokenizerBytecode};
pub use self::text::TokenizerText;

verus! {

/// A source of GDScript tokens.
pub trait Tokenizer: Sealed {
    /// The tokenizer's internal invariant, which every method keeps.
    spec fn well_formed(&self) -> bool;

    /// The engine build whose rules the tokens follow.
    fn version(&self) -> &GDScriptBuild;

    /// In multiline mode (inside brackets), line breaks and indentation produce no tokens.
    fn set_multiline_mode(&mut self, multiline: bool)
        requires
            old(self).well_formed(),
        ensures
            final(self).well_formed(),
    ;

    /// The next token, or `None` after the end of the input.
    fn next_token(&mut self) -> (r: Option<Spanned<Token>>)
        requires
            old(self).well_formed(),
        ensures
            final(self).well_formed(),
    ;
}

} // verus!
