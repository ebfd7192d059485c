//! Analysis: the walk that builds the semantic tables of a tree.
//!
//! One pre-order walk registers nodes, opens a scope at every construct
//! that introduces one, registers a binding at every declaration and a
//! use at every identifier in use position, and writes the ids it hands
//! out into the nodes. A declaration with function-level hoisting
//! registers in the nearest function or program scope; every other
//! declaration registers in the scope it stands in. A use is resolved, as
//! it is reached, from the scope it stands in.

pub mod classes;
pub mod expressions;
pub mod functions;
pub mod patterns;
pub mod statements;

use crate::ast::nodes::{
    AssignmentOperator, BindingIdentifier, IdentifierReference, Program, VariableDeclarationKind,
};
use crate::diagnostic::Diagnostic;
use crate::semantic::laws::lemma_extends_reflexive;
use crate::semantic::model::ScopingModel;
use crate::semantic::outline::{AnalysisModel, AnalyzedAll, Finding, analyzed_all, redeclared};
use crate::semantic::scoping::Scoping;
use crate::semantic::skeleton::{assignment_flags, declaration_flags, program_outline};
use crate::syntax::{
    NodeId, ReferenceFlags, ReferenceId, ScopeId, ScopeKind, SymbolFlags, SymbolKind,
};
use vstd::prelude::*;
use vstd::string::StringExecFns;

verus! {

/// The state of analysis: the tables as far as they are built, the id of
/// the next node, and the findings so far.
pub struct SemanticBuilder {
    scoping: Scoping,
    next_node: usize,
    diagnostics: Vec<Diagnostic>,
}

impl View for SemanticBuilder {
    type V = AnalysisModel;

    closed spec fn view(&self) -> AnalysisModel {
        AnalysisModel {
            scoping: self.scoping@,
            next_node: self.next_node,
            findings: Seq::new(
                self.diagnostics@.len(),
                |i: int|
                    Finding {
                        message: self.diagnostics@[i].message@,
                        span: self.diagnostics@[i].span,
                    },
            ),
        }
    }
}

/// What analysis hands back.
pub struct Semantic {
    pub scoping: Scoping,
    /// What analysis found wrong. None of it is fatal.
    pub diagnostics: Vec<Diagnostic>,
}

/// The flags of what a declaration of the given kind binds.
pub fn flags_of_declaration(kind: VariableDeclarationKind) -> (flags: SymbolFlags)
    ensures
        flags == declaration_flags(kind),
{
    match kind {
        VariableDeclarationKind::Var => SymbolFlags {
            kind: SymbolKind::Variable,
            mutable: true,
            exported: false,
            function_scoped: true,
        },
        VariableDeclarationKind::Let => SymbolFlags {
            kind: SymbolKind::Variable,
            mutable: true,
            exported: false,
            function_scoped: false,
        },
        VariableDeclarationKind::Const => SymbolFlags {
            kind: SymbolKind::Variable,
            mutable: false,
            exported: false,
            function_scoped: false,
        },
    }
}

/// How the target of an assignment with the given operator is touched.
pub fn flags_of_assignment(operator: AssignmentOperator) -> (flags: ReferenceFlags)
    ensures
        flags == assignment_flags(operator),
{
    match operator {
        AssignmentOperator::Assign => ReferenceFlags::Write,
        _ => ReferenceFlags::ReadWrite,
    }
}

impl SemanticBuilder {
    /// The invariant of the state.
    pub open spec fn wf(&self) -> bool {
        self@.wf()
    }

    /// Analysis at its start: the program is registered as the first
    /// node and owns the program scope.
    pub fn new() -> (builder: SemanticBuilder)
        ensures
            builder.wf(),
            builder@ == Self::initial(),
    {
        let builder = SemanticBuilder {
            scoping: Scoping::new(NodeId(0)),
            next_node: 1,
            diagnostics: Vec::new(),
        };
        proof {
            assert(builder@.findings =~= Seq::<Finding>::empty());
            assert(builder@.scoping.scopes == Self::initial().scoping.scopes);
        }
        builder
    }

    /// The state of analysis at its start.
    pub open spec fn initial() -> AnalysisModel {
        AnalysisModel {
            scoping: ScopingModel {
                scopes: seq![
                    crate::semantic::model::ScopeModel {
                        parent: None,
                        kind: ScopeKind::Program,
                        node: NodeId(0),
                        bindings: Seq::empty(),
                    },
                ],
                symbols: Seq::empty(),
                references: Seq::empty(),
            },
            next_node: 1,
            findings: Seq::empty(),
        }
    }

    /// Ends analysis.
    pub fn finish(self) -> (semantic: Semantic)
        requires
            self.wf(),
        ensures
            semantic.scoping.wf(),
            semantic.scoping@ == self@.scoping,
            semantic.diagnostics@.len() == self@.findings.len(),
            forall|i: int|
                0 <= i < semantic.diagnostics@.len() ==> (
                    #[trigger] semantic.diagnostics@[i]
                ).message@
                    == self@.findings[i].message && semantic.diagnostics@[i].span
                    == self@.findings[i].span,
    {
        Semantic { scoping: self.scoping, diagnostics: self.diagnostics }
    }

    /// Registers a node: hands out the next node id.
    pub(crate) fn register(&mut self) -> (id: NodeId)
        ensures
            final(self)@ == old(self)@.registered(),
            id == NodeId(old(self)@.next_node),
    {
        let id = NodeId(self.next_node);
        if self.next_node < usize::MAX {
            self.next_node = self.next_node + 1;
        }
        proof {
            assert(self@.findings =~= old(self)@.findings);
        }
        id
    }

    /// Opens a scope of the given kind under `scope`, for `node`.
    pub(crate) fn open_scope(
        &mut self,
        scope: ScopeId,
        kind: ScopeKind,
        node: NodeId,
    ) -> (opened: ScopeId)
        requires
            old(self).wf(),
            old(self)@.scoping.has_scope(scope),
        ensures
            final(self).wf(),
            final(self)@.scoping.extends(old(self)@.scoping),
            final(self)@ == old(self)@.scoped(scope, kind, node),
            opened == ScopeId(old(self)@.scoping.scopes.len() as usize),
            final(self)@.scoping.has_scope(opened),
            final(self)@.scoping.has_scope(scope),
    {
        let opened = self.scoping.add_scope(scope, kind, node);
        proof {
            assert(self@.findings =~= old(self)@.findings);
        }
        opened
    }

    /// Registers the use that `identifier` makes in `scope`, and writes
    /// its id into the node.
    pub(crate) fn use_name(
        &mut self,
        scope: ScopeId,
        identifier: &mut IdentifierReference,
        flags: ReferenceFlags,
    )
        requires
            old(self).wf(),
            old(self)@.scoping.has_scope(scope),
        ensures
            final(self).wf(),
            final(self)@.scoping.extends(old(self)@.scoping),
            final(self)@ == old(self)@.used(scope, old(identifier).name@, flags),
            final(identifier).reference_id == Some(
                ReferenceId(old(self)@.scoping.references.len() as usize),
            ),
            final(identifier).name == old(identifier).name,
            final(identifier).span == old(identifier).span,
    {
        let node = self.register();
        let reference = self.scoping.resolve_reference(
            scope,
            identifier.name.as_str(),
            node,
            flags,
        );
        identifier.reference_id = Some(reference);
        proof {
            assert(self@.findings =~= old(self)@.findings);
        }
    }

    /// Registers what `identifier` declares in `scope` on behalf of
    /// `node`, and writes the id of its binding into the node.
    pub(crate) fn bind(
        &mut self,
        scope: ScopeId,
        node: NodeId,
        identifier: &mut BindingIdentifier,
        flags: SymbolFlags,
    )
        requires
            old(self).wf(),
            old(self)@.scoping.has_scope(scope),
        ensures
            final(self).wf(),
            final(self)@.scoping.extends(old(self)@.scoping),
            final(self)@ == old(self)@.bound(
                scope,
                node,
                old(identifier).name@,
                old(identifier).span,
                flags,
            ),
            final(identifier).symbol_id == Some(
                old(self)@.bound_symbol(scope, old(identifier).name@, flags),
            ),
            final(identifier).name == old(identifier).name,
            final(identifier).span == old(identifier).span,
    {
        let target = if flags.function_scoped {
            self.scoping.hoist_target(scope)
        } else {
            scope
        };
        match self.scoping.get_binding_in_scope(target, identifier.name.as_str()) {
            Some(existing) => {
                if !(flags.function_scoped && self.scoping.symbol_flags(existing).function_scoped) {
                    let mut message = String::from_str("Identifier `");
                    message.append(identifier.name.as_str());
                    message.append("` has already been declared");
                    self.diagnostics.push(Diagnostic::error(message, identifier.span));
                    proof {
                        assert(self@.findings =~= old(self)@.findings.push(
                            redeclared(old(identifier).name@, old(identifier).span),
                        ));
                    }
                } else {
                    proof {
                        assert(self@.findings =~= old(self)@.findings);
                    }
                }
                identifier.symbol_id = Some(existing);
                proof {
                    lemma_extends_reflexive(self@.scoping);
                }
            },
            None => {
                let symbol = self.scoping.declare(target, identifier.name.as_str(), node, flags);
                identifier.symbol_id = Some(symbol);
                proof {
                    assert(self@.findings =~= old(self)@.findings);
                }
            },
        }
    }

}

/// What analysis makes of a program: the state it ends in, and the
/// outlines of the program's statements with their ids filled in.
pub open spec fn analysis_of(program: Program) -> AnalyzedAll {
    analyzed_all(SemanticBuilder::initial(), ScopeId(0), NodeId(0), program_outline(program))
}

/// Analyzes a program: builds its scope tree, symbol table and reference
/// table in one walk, and writes into the nodes the ids of the scopes
/// they open, the bindings they declare and the uses they make.
///
/// What is wrong with the declarations is reported, never fatal: a name
/// declared twice in one scope keeps its first binding.
pub fn analyze(program: &mut Program<'_>) -> (semantic: Semantic)
    ensures
        semantic.scoping.wf(),
        semantic.scoping@ == analysis_of(*old(program)).state.scoping,
        semantic.diagnostics@.len() == analysis_of(*old(program)).state.findings.len(),
        forall|i: int|
            0 <= i < semantic.diagnostics@.len() ==> (#[trigger] semantic.diagnostics@[i]).message@
                == analysis_of(*old(program)).state.findings[i].message
                && semantic.diagnostics@[i].span == analysis_of(
                *old(program),
            ).state.findings[i].span,
        program_outline(*final(program)) == analysis_of(*old(program)).outlines,
        final(program).scope_id == Some(ScopeId(0)),
        final(program).span == old(program).span,
        final(program).source_text == old(program).source_text,
{
    let mut builder = SemanticBuilder::new();
    program.scope_id = Some(ScopeId(0));
    builder.visit_statements(ScopeId(0), NodeId(0), &mut program.body);
    builder.finish()
}

} // verus!
