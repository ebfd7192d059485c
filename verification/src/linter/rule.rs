//! What a lint rule is.

use crate::linter::context::LintContext;
use crate::semantic::nodes::AstNode;
use vstd::prelude::*;

verus! {

/// A lint rule: it looks at one registered node at a time and records
/// what it finds. It can read the tables and the tree, and change
/// neither.
pub trait Rule {
    /// Looks at `node`.
    fn run<'a>(&self, node: &AstNode<'a>, ctx: &mut LintContext<'a>)
        requires
            old(ctx).wf(),
        ensures
            final(ctx).spec_scoping() == old(ctx).spec_scoping(),
            final(ctx).spec_nodes() == old(ctx).spec_nodes(),
            old(ctx).spec_diagnostics().is_prefix_of(final(ctx).spec_diagnostics()),
    ;
}

} // verus!
