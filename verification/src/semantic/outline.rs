//! What analysis reads of a tree, and what it makes of it.
//!
//! Analysis looks at little of a tree: which nodes open scopes, which
//! declare names, which use names, and in what order. The outline of a
//! tree holds just that, together with the ids that the nodes carry. What
//! analysis does is defined on outlines: it is a function from the tables
//! before and an outline to the tables after and the outline with its ids
//! filled in.

use crate::semantic::model::ScopingModel;
use crate::span::Span;
use crate::syntax::{NodeId, ReferenceFlags, ReferenceId, ScopeId, ScopeKind, SymbolFlags, SymbolId};
use vstd::prelude::*;

verus! {

/// What analysis does at a node.
pub enum Mark {
    /// Nothing: the children are looked at in the same scope.
    Plain,
    /// The node is registered: it takes the next node id, and what its
    /// children declare is declared by it.
    Registered,
    /// The node that was registered last opens a scope of the given
    /// kind, and the children are looked at inside it. `scope` is the id
    /// that the node carries.
    Scoped { kind: ScopeKind, scope: Option<ScopeId> },
    /// The node is registered, and is a use of `name`. `reference` is the
    /// id that the node carries.
    Use { name: Seq<char>, access: ReferenceFlags, reference: Option<ReferenceId> },
    /// The node binds `name`. `symbol` is the id that the node carries.
    Binding { name: Seq<char>, span: Span, flags: SymbolFlags, symbol: Option<SymbolId> },
}

/// The outline of a node: what analysis does at it, and the outlines of
/// the nodes below it, in the order in which analysis reaches them.
pub struct Outline {
    pub mark: Mark,
    pub children: Seq<Outline>,
}

impl Outline {
    /// The outline of a node at which analysis does nothing itself.
    pub open spec fn plain(children: Seq<Outline>) -> Outline {
        Outline { mark: Mark::Plain, children }
    }

    /// The outline of a node that analysis registers.
    pub open spec fn registered(children: Seq<Outline>) -> Outline {
        Outline { mark: Mark::Registered, children }
    }

    /// The outline of the scope that a registered node opens.
    pub open spec fn scoped(
        kind: ScopeKind,
        scope: Option<ScopeId>,
        children: Seq<Outline>,
    ) -> Outline {
        Outline { mark: Mark::Scoped { kind, scope }, children }
    }
}

/// A finding of analysis.
pub struct Finding {
    pub message: Seq<char>,
    pub span: Span,
}

/// The state of analysis.
pub struct AnalysisModel {
    pub scoping: ScopingModel,
    /// The id that the next registered node takes.
    pub next_node: usize,
    pub findings: Seq<Finding>,
}

/// Analysis so far, and the outlines it has dealt with, ids filled in.
pub struct Analyzed {
    pub state: AnalysisModel,
    pub outline: Outline,
}

/// Analysis so far, and the outlines it has dealt with, ids filled in.
pub struct AnalyzedAll {
    pub state: AnalysisModel,
    pub outlines: Seq<Outline>,
}

/// The id after `id`. Ids do not wrap: past the last one, every node
/// takes the id that stands for unregistered nodes.
pub open spec fn next_id(id: usize) -> usize {
    if id < usize::MAX {
        (id + 1) as usize
    } else {
        id
    }
}

/// The finding that `name` is declared twice.
pub open spec fn redeclared(name: Seq<char>, span: Span) -> Finding {
    Finding { message: "Identifier `"@ + name + "` has already been declared"@, span }
}

/// The scope in which a declaration with the given flags, made in
/// `scope`, registers: a function-scoped one in the nearest function or
/// program scope, any other in `scope` itself.
pub open spec fn declaring_scope(
    tables: ScopingModel,
    scope: ScopeId,
    flags: SymbolFlags,
) -> ScopeId {
    if flags.function_scoped {
        tables.hoist_target(scope)
    } else {
        scope
    }
}

impl AnalysisModel {
    /// The invariant of the state.
    pub open spec fn wf(self) -> bool {
        self.scoping.wf()
    }

    /// The state after a node is registered.
    pub open spec fn registered(self) -> AnalysisModel {
        AnalysisModel { next_node: next_id(self.next_node), ..self }
    }

    /// The state after the node `node` opens a scope under `scope`.
    pub open spec fn scoped(self, scope: ScopeId, kind: ScopeKind, node: NodeId) -> AnalysisModel {
        AnalysisModel { scoping: self.scoping.with_scope(scope, kind, node), ..self }
    }

    /// The state after a use of `name` in `scope` is registered: the use
    /// takes the next node id and resolves from `scope`.
    pub open spec fn used(
        self,
        scope: ScopeId,
        name: Seq<char>,
        flags: ReferenceFlags,
    ) -> AnalysisModel {
        AnalysisModel {
            scoping: self.scoping.with_reference(
                NodeId(self.next_node),
                self.scoping.lookup(scope, name),
                flags,
            ),
            next_node: next_id(self.next_node),
            findings: self.findings,
        }
    }

    /// The binding that a declaration of `name` made in `scope` by `node`
    /// ends up with. Where the declaring scope already declares the name,
    /// that binding is taken again; otherwise a new one is registered.
    pub open spec fn bound_symbol(
        self,
        scope: ScopeId,
        name: Seq<char>,
        flags: SymbolFlags,
    ) -> SymbolId {
        match self.scoping.declared_in(declaring_scope(self.scoping, scope, flags), name) {
            Some(existing) => existing,
            None => SymbolId(self.scoping.symbols.len() as usize),
        }
    }

    /// The state after a declaration of `name` made in `scope` by `node`.
    /// A second declaration of a name in one scope registers nothing, and
    /// is a finding unless both declarations are function-scoped.
    pub open spec fn bound(
        self,
        scope: ScopeId,
        node: NodeId,
        name: Seq<char>,
        span: Span,
        flags: SymbolFlags,
    ) -> AnalysisModel {
        let target = declaring_scope(self.scoping, scope, flags);
        match self.scoping.declared_in(target, name) {
            Some(existing) => if flags.function_scoped && self.scoping.binding(
                existing,
            ).flags.function_scoped {
                self
            } else {
                AnalysisModel { findings: self.findings.push(redeclared(name, span)), ..self }
            },
            None => AnalysisModel {
                scoping: self.scoping.with_binding(target, name, node, flags),
                ..self
            },
        }
    }
}

/// Analysis of one outline, in the scope `scope`, below the registered
/// node `node`.
pub open spec fn analyzed(
    state: AnalysisModel,
    scope: ScopeId,
    node: NodeId,
    outline: Outline,
) -> Analyzed
    decreases outline,
{
    match outline.mark {
        Mark::Plain => {
            let below = analyzed_all(state, scope, node, outline.children);
            Analyzed {
                state: below.state,
                outline: Outline { mark: Mark::Plain, children: below.outlines },
            }
        },
        Mark::Registered => {
            let below = analyzed_all(
                state.registered(),
                scope,
                NodeId(state.next_node),
                outline.children,
            );
            Analyzed {
                state: below.state,
                outline: Outline { mark: Mark::Registered, children: below.outlines },
            }
        },
        Mark::Scoped { kind, scope: _ } => {
            let opened = ScopeId(state.scoping.scopes.len() as usize);
            let below = analyzed_all(
                state.scoped(scope, kind, node),
                opened,
                node,
                outline.children,
            );
            Analyzed {
                state: below.state,
                outline: Outline {
                    mark: Mark::Scoped { kind, scope: Some(opened) },
                    children: below.outlines,
                },
            }
        },
        Mark::Use { name, access, reference: _ } => Analyzed {
            state: state.used(scope, name, access),
            outline: Outline {
                mark: Mark::Use {
                    name,
                    access,
                    reference: Some(ReferenceId(state.scoping.references.len() as usize)),
                },
                children: Seq::empty(),
            },
        },
        Mark::Binding { name, span, flags, symbol: _ } => Analyzed {
            state: state.bound(scope, node, name, span, flags),
            outline: Outline {
                mark: Mark::Binding {
                    name,
                    span,
                    flags,
                    symbol: Some(state.bound_symbol(scope, name, flags)),
                },
                children: Seq::empty(),
            },
        },
    }
}

/// Analysis of a list of outlines, first to last.
pub open spec fn analyzed_all(
    state: AnalysisModel,
    scope: ScopeId,
    node: NodeId,
    outlines: Seq<Outline>,
) -> AnalyzedAll
    decreases outlines,
{
    if outlines.len() == 0 {
        AnalyzedAll { state, outlines: Seq::empty() }
    } else {
        let before = analyzed_all(state, scope, node, outlines.drop_last());
        let last = analyzed(before.state, scope, node, outlines.last());
        AnalyzedAll { state: last.state, outlines: before.outlines.push(last.outline) }
    }
}

/// The outline without the ids that its nodes carry.
pub open spec fn erased(outline: Outline) -> Outline
    decreases outline,
{
    Outline {
        mark: match outline.mark {
            Mark::Plain => Mark::Plain,
            Mark::Registered => Mark::Registered,
            Mark::Scoped { kind, scope: _ } => Mark::Scoped { kind, scope: None },
            Mark::Use { name, access, reference: _ } => Mark::Use { name, access, reference: None },
            Mark::Binding { name, span, flags, symbol: _ } => Mark::Binding {
                name,
                span,
                flags,
                symbol: None,
            },
        },
        children: match outline.mark {
            Mark::Use { .. } => Seq::empty(),
            Mark::Binding { .. } => Seq::empty(),
            _ => erased_all(outline.children),
        },
    }
}

/// The outlines without the ids that their nodes carry.
pub open spec fn erased_all(outlines: Seq<Outline>) -> Seq<Outline>
    decreases outlines,
{
    if outlines.len() == 0 {
        Seq::empty()
    } else {
        erased_all(outlines.drop_last()).push(erased(outlines.last()))
    }
}

/// Analyzing a list and then one more outline is analyzing the longer
/// list.
pub proof fn lemma_analyzed_push(
    state: AnalysisModel,
    scope: ScopeId,
    node: NodeId,
    done: Seq<Outline>,
    next: Outline,
)
    ensures
        analyzed_all(state, scope, node, done.push(next)).state == analyzed(
            analyzed_all(state, scope, node, done).state,
            scope,
            node,
            next,
        ).state,
        analyzed_all(state, scope, node, done.push(next)).outlines == analyzed_all(
            state,
            scope,
            node,
            done,
        ).outlines.push(
            analyzed(analyzed_all(state, scope, node, done).state, scope, node, next).outline
        ),
{
    assert(done.push(next).drop_last() =~= done);
}

/// Analyzing two lists one after the other is analyzing their
/// concatenation.
pub proof fn lemma_analyzed_concat(
    state: AnalysisModel,
    scope: ScopeId,
    node: NodeId,
    first: Seq<Outline>,
    second: Seq<Outline>,
)
    ensures
        analyzed_all(state, scope, node, first + second).state == analyzed_all(
            analyzed_all(state, scope, node, first).state,
            scope,
            node,
            second,
        ).state,
        analyzed_all(state, scope, node, first + second).outlines == analyzed_all(
            state,
            scope,
            node,
            first,
        ).outlines + analyzed_all(
            analyzed_all(state, scope, node, first).state,
            scope,
            node,
            second,
        ).outlines,
    decreases second.len(),
{
    let middle = analyzed_all(state, scope, node, first);
    if second.len() == 0 {
        assert(first + second =~= first);
        assert(middle.outlines + Seq::<Outline>::empty() =~= middle.outlines);
    } else {
        lemma_analyzed_concat(state, scope, node, first, second.drop_last());
        assert((first + second).drop_last() =~= first + second.drop_last());
        assert((first + second).last() == second.last());
        let rest = analyzed_all(middle.state, scope, node, second.drop_last());
        let last = analyzed(rest.state, scope, node, second.last());
        assert((middle.outlines + rest.outlines).push(last.outline) =~= middle.outlines
            + rest.outlines.push(last.outline));
    }
}

/// Analyzing a list of one outline is analyzing the outline.
pub proof fn lemma_analyzed_one(
    state: AnalysisModel,
    scope: ScopeId,
    node: NodeId,
    outline: Outline,
)
    ensures
        analyzed_all(state, scope, node, seq![outline]).state == analyzed(
            state,
            scope,
            node,
            outline,
        ).state,
        analyzed_all(state, scope, node, seq![outline]).outlines == seq![
            analyzed(state, scope, node, outline).outline,
        ],
{
    let one = seq![outline];
    assert(one.drop_last() =~= Seq::<Outline>::empty());
    assert(one.last() == outline);
    assert(analyzed_all(state, scope, node, one.drop_last()).state == state);
    assert(analyzed_all(state, scope, node, one.drop_last()).outlines =~= Seq::<Outline>::empty());
    assert(Seq::<Outline>::empty().push(analyzed(state, scope, node, outline).outline) =~= seq![
        analyzed(state, scope, node, outline).outline,
    ]);
}

/// Lists that are the same without their ids are equally long, and the
/// same without their ids element by element.
pub proof fn lemma_erased_all(first: Seq<Outline>, second: Seq<Outline>)
    requires
        erased_all(first) == erased_all(second),
    ensures
        first.len() == second.len(),
        first.len() > 0 ==> erased_all(first.drop_last()) == erased_all(second.drop_last())
            && erased(first.last()) == erased(second.last()),
{
    lemma_erased_len(first);
    lemma_erased_len(second);
    if first.len() > 0 {
        let a = erased_all(first.drop_last());
        let b = erased_all(second.drop_last());
        assert(a.push(erased(first.last())).drop_last() =~= a);
        assert(b.push(erased(second.last())).drop_last() =~= b);
        assert(a.push(erased(first.last())).last() == erased(first.last()));
        assert(b.push(erased(second.last())).last() == erased(second.last()));
    }
}

/// Taking the ids out of a list keeps its length.
pub proof fn lemma_erased_len(outlines: Seq<Outline>)
    ensures
        erased_all(outlines).len() == outlines.len(),
    decreases outlines.len(),
{
    if outlines.len() > 0 {
        lemma_erased_len(outlines.drop_last());
    }
}

/// Analysis does not read the ids that a tree carries: two outlines that
/// are the same without their ids are analyzed alike.
pub proof fn lemma_analysis_ignores_ids(
    state: AnalysisModel,
    scope: ScopeId,
    node: NodeId,
    first: Outline,
    second: Outline,
)
    requires
        erased(first) == erased(second),
    ensures
        analyzed(state, scope, node, first) == analyzed(state, scope, node, second),
    decreases first,
{
    match first.mark {
        Mark::Plain => {
            lemma_analysis_ignores_ids_all(state, scope, node, first.children, second.children);
        },
        Mark::Registered => {
            lemma_analysis_ignores_ids_all(
                state.registered(),
                scope,
                NodeId(state.next_node),
                first.children,
                second.children,
            );
        },
        Mark::Scoped { kind, scope: _ } => {
            lemma_analysis_ignores_ids_all(
                state.scoped(scope, kind, node),
                ScopeId(state.scoping.scopes.len() as usize),
                node,
                first.children,
                second.children,
            );
        },
        Mark::Use { .. } => {},
        Mark::Binding { .. } => {},
    }
}

/// Analysis does not read the ids that a tree carries: two lists of
/// outlines that are the same without their ids are analyzed alike.
pub proof fn lemma_analysis_ignores_ids_all(
    state: AnalysisModel,
    scope: ScopeId,
    node: NodeId,
    first: Seq<Outline>,
    second: Seq<Outline>,
)
    requires
        erased_all(first) == erased_all(second),
    ensures
        analyzed_all(state, scope, node, first) == analyzed_all(state, scope, node, second),
    decreases first,
{
    lemma_erased_all(first, second);
    if first.len() > 0 {
        lemma_analysis_ignores_ids_all(state, scope, node, first.drop_last(), second.drop_last());
        let before = analyzed_all(state, scope, node, first.drop_last());
        lemma_analysis_ignores_ids(before.state, scope, node, first.last(), second.last());
    }
}

/// Analysis changes nothing of a tree but the ids that it carries.
pub proof fn lemma_analysis_keeps_source(
    state: AnalysisModel,
    scope: ScopeId,
    node: NodeId,
    outline: Outline,
)
    ensures
        erased(analyzed(state, scope, node, outline).outline) == erased(outline),
    decreases outline,
{
    match outline.mark {
        Mark::Plain => {
            lemma_analysis_keeps_source_all(state, scope, node, outline.children);
        },
        Mark::Registered => {
            lemma_analysis_keeps_source_all(
                state.registered(),
                scope,
                NodeId(state.next_node),
                outline.children,
            );
        },
        Mark::Scoped { kind, scope: _ } => {
            lemma_analysis_keeps_source_all(
                state.scoped(scope, kind, node),
                ScopeId(state.scoping.scopes.len() as usize),
                node,
                outline.children,
            );
        },
        Mark::Use { .. } => {},
        Mark::Binding { .. } => {},
    }
}

/// Analysis changes nothing of a list of trees but the ids that they
/// carry.
pub proof fn lemma_analysis_keeps_source_all(
    state: AnalysisModel,
    scope: ScopeId,
    node: NodeId,
    outlines: Seq<Outline>,
)
    ensures
        erased_all(analyzed_all(state, scope, node, outlines).outlines) == erased_all(outlines),
    decreases outlines,
{
    if outlines.len() > 0 {
        lemma_analysis_keeps_source_all(state, scope, node, outlines.drop_last());
        let before = analyzed_all(state, scope, node, outlines.drop_last());
        lemma_analysis_keeps_source(before.state, scope, node, outlines.last());
        let last = analyzed(before.state, scope, node, outlines.last());
        assert(before.outlines.push(last.outline).drop_last() =~= before.outlines);
    } else {
        assert(analyzed_all(state, scope, node, outlines).outlines =~= Seq::<Outline>::empty());
    }
}

/// Idempotent re-analysis. Analyzing a tree that an earlier analysis has
/// left unchanged but for its ids gives, from the same start, the same
/// tables, the same findings and the same ids as the earlier analysis
/// gave.
pub proof fn lemma_reanalysis(
    state: AnalysisModel,
    scope: ScopeId,
    node: NodeId,
    outlines: Seq<Outline>,
)
    ensures
        analyzed_all(state, scope, node, analyzed_all(state, scope, node, outlines).outlines)
            == analyzed_all(state, scope, node, outlines),
{
    lemma_analysis_keeps_source_all(state, scope, node, outlines);
    lemma_analysis_ignores_ids_all(
        state,
        scope,
        node,
        analyzed_all(state, scope, node, outlines).outlines,
        outlines,
    );
}

} // verus!
