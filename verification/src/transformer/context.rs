//! What every transform pass of one compilation unit shares.

use vstd::prelude::*;

verus! {

/// What every transform pass of one compilation unit shares.
#[derive(Debug, Clone, Copy)]
pub struct TransformCtx<'a> {
    /// The text the tree was parsed from.
    pub source_text: &'a str,
}

impl<'a> TransformCtx<'a> {
    /// The shared state for a unit with the given source text.
    pub fn new(source_text: &'a str) -> (ctx: TransformCtx<'a>)
        ensures
            ctx.source_text@ == source_text@,
    {
        TransformCtx { source_text }
    }
}

} // verus!
