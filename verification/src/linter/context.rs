//! What a rule is handed when it runs.

use crate::diagnostic::Diagnostic;
use crate::semantic::nodes::AstNodes;
use crate::semantic::scoping::Scoping;
use vstd::prelude::*;

verus! {

/// What a rule is handed when it runs: the semantic tables and the node
/// table to read, and the list to put its findings on.
pub struct LintContext<'a> {
    scoping: &'a Scoping,
    nodes: &'a AstNodes<'a>,
    diagnostics: Vec<Diagnostic>,
}

impl<'a> LintContext<'a> {
    /// The semantic tables.
    pub closed spec fn spec_scoping(&self) -> &'a Scoping {
        self.scoping
    }

    /// The node table.
    pub closed spec fn spec_nodes(&self) -> &'a AstNodes<'a> {
        self.nodes
    }

    /// The findings so far, oldest first.
    pub closed spec fn spec_diagnostics(&self) -> Seq<Diagnostic> {
        self.diagnostics@
    }

    /// The invariant of the context.
    pub open spec fn wf(&self) -> bool {
        self.spec_scoping().wf()
    }

    /// A context over the given tables, with no findings yet.
    pub fn new(scoping: &'a Scoping, nodes: &'a AstNodes<'a>) -> (ctx: LintContext<'a>)
        ensures
            ctx.spec_scoping() == scoping,
            ctx.spec_nodes() == nodes,
            ctx.spec_diagnostics() == Seq::<Diagnostic>::empty(),
    {
        LintContext { scoping, nodes, diagnostics: Vec::new() }
    }

    /// The semantic tables.
    pub fn scoping(&self) -> (scoping: &'a Scoping)
        ensures
            scoping == self.spec_scoping(),
    {
        self.scoping
    }

    /// The node table.
    pub fn nodes(&self) -> (nodes: &'a AstNodes<'a>)
        ensures
            nodes == self.spec_nodes(),
    {
        self.nodes
    }

    /// Records a finding.
    pub fn diagnostic(&mut self, diagnostic: Diagnostic)
        ensures
            final(self).spec_scoping() == old(self).spec_scoping(),
            final(self).spec_nodes() == old(self).spec_nodes(),
            final(self).spec_diagnostics() == old(self).spec_diagnostics().push(diagnostic),
    {
        self.diagnostics.push(diagnostic);
    }

    /// The findings so far, oldest first.
    pub fn diagnostics(&self) -> (diagnostics: &Vec<Diagnostic>)
        ensures
            diagnostics@ == self.spec_diagnostics(),
    {
        &self.diagnostics
    }

    /// Ends the run and hands the findings over.
    pub fn into_diagnostics(self) -> (diagnostics: Vec<Diagnostic>)
        ensures
            diagnostics@ == self.spec_diagnostics(),
    {
        self.diagnostics
    }
}

} // verus!
