//! Analysis of names and patterns.

use crate::ast::nodes::{BindingIdentifier, BindingPattern, BindingPatternKind};
use crate::semantic::laws::{lemma_extends_reflexive, lemma_extends_transitive};
use crate::semantic::outline::{
    Outline, analyzed, analyzed_all, lemma_analyzed_one, lemma_analyzed_push,
};
use crate::semantic::builder::SemanticBuilder;
use crate::semantic::skeleton::{
    name_outline, optional_pattern_outline, parameter_flags, parameters_outlines,
    pattern_elements_outlines, pattern_outline,
};
use crate::syntax::{NodeId, ScopeId, SymbolFlags, SymbolKind};
use vstd::prelude::*;
use vstd::string::StringExecFns;

verus! {

impl SemanticBuilder {
    /// Binds the name of a function or class, where it has one.
    pub(crate) fn visit_name(
        &mut self,
        scope: ScopeId,
        node: NodeId,
        name: &mut Option<BindingIdentifier>,
        flags: SymbolFlags,
    )
        requires
            old(self).wf(),
            old(self)@.scoping.has_scope(scope),
        ensures
            final(self).wf(),
            final(self)@.scoping.extends(old(self)@.scoping),
            final(self)@ == analyzed(
                old(self)@,
                scope,
                node,
                name_outline(*old(name), flags),
            ).state,
            name_outline(*final(name), flags) == analyzed(
                old(self)@,
                scope,
                node,
                name_outline(*old(name), flags),
            ).outline,
        decreases 0nat,
    {
        match name {
            Some(identifier) => {
                self.bind(scope, node, identifier, flags);
            },
            None => {
                proof {
                    lemma_extends_reflexive(self@.scoping);
                    assert(
                        analyzed_all(self@, scope, node, Seq::<Outline>::empty()).outlines
                            =~= Seq::<Outline>::empty()
                    );
                }
            },
        }
    }

    /// Binds the identifiers of a pattern, left to right.
    pub(crate) fn visit_pattern(
        &mut self,
        scope: ScopeId,
        node: NodeId,
        pattern: &mut BindingPattern,
        flags: SymbolFlags,
    )
        requires
            old(self).wf(),
            old(self)@.scoping.has_scope(scope),
        ensures
            final(self).wf(),
            final(self)@.scoping.extends(old(self)@.scoping),
            final(self)@ == analyzed(
                old(self)@,
                scope,
                node,
                pattern_outline(*old(pattern), flags),
            ).state,
            pattern_outline(*final(pattern), flags) == analyzed(
                old(self)@,
                scope,
                node,
                pattern_outline(*old(pattern), flags),
            ).outline,
        decreases *old(pattern),
    {
        proof {
            reveal(pattern_outline);
        }
        match &mut pattern.kind {
            BindingPatternKind::BindingIdentifier(identifier) => {
                self.bind(scope, node, identifier, flags);
            },
            BindingPatternKind::ArrayPattern(array) => {
                let ghost start = self@;
                let ghost elements = pattern_elements_outlines(array.elements@, flags);
                let ghost rest = optional_pattern_outline(array.rest, flags);
                self.visit_pattern_elements(scope, node, &mut array.elements, flags);
                let ghost middle = self@;
                self.visit_optional_pattern(scope, node, &mut array.rest, flags);
                proof {
                    lemma_extends_transitive(start.scoping, middle.scoping, self@.scoping);
                    let first = Outline::plain(elements);
                    lemma_analyzed_one(start, scope, node, first);
                    lemma_analyzed_push(start, scope, node, seq![first], rest);
                    assert(seq![first].push(rest) =~= seq![first, rest]);
                    let done = analyzed_all(start, scope, node, seq![first, rest]).outlines;
                    assert(done =~= seq![
                        Outline::plain(pattern_elements_outlines(array.elements@, flags)),
                        optional_pattern_outline(array.rest, flags),
                    ]);
                }
            },
        }
    }

    /// Binds the identifiers of a pattern that may be absent.
    pub(crate) fn visit_optional_pattern(
        &mut self,
        scope: ScopeId,
        node: NodeId,
        pattern: &mut Option<BindingPattern>,
        flags: SymbolFlags,
    )
        requires
            old(self).wf(),
            old(self)@.scoping.has_scope(scope),
        ensures
            final(self).wf(),
            final(self)@.scoping.extends(old(self)@.scoping),
            final(self)@ == analyzed(
                old(self)@,
                scope,
                node,
                optional_pattern_outline(*old(pattern), flags),
            ).state,
            optional_pattern_outline(*final(pattern), flags) == analyzed(
                old(self)@,
                scope,
                node,
                optional_pattern_outline(*old(pattern), flags),
            ).outline,
        decreases *old(pattern),
    {
        proof {
            reveal(pattern_outline);
        }
        match pattern {
            Some(p) => {
                self.visit_pattern(scope, node, p, flags);
            },
            None => {
                proof {
                    lemma_extends_reflexive(self@.scoping);
                    assert(
                        analyzed_all(self@, scope, node, Seq::<Outline>::empty()).outlines
                            =~= Seq::<Outline>::empty()
                    );
                }
            },
        }
    }

    /// Binds the identifiers of the elements of an array pattern.
    pub(crate) fn visit_pattern_elements(
        &mut self,
        scope: ScopeId,
        node: NodeId,
        list: &mut Vec<Option<BindingPattern>>,
        flags: SymbolFlags,
    )
        requires
            old(self).wf(),
            old(self)@.scoping.has_scope(scope),
        ensures
            final(self).wf(),
            final(self)@.scoping.extends(old(self)@.scoping),
            final(self)@ == analyzed_all(
                old(self)@,
                scope,
                node,
                pattern_elements_outlines(old(list)@, flags),
            ).state,
            pattern_elements_outlines(final(list)@, flags) == analyzed_all(
                old(self)@,
                scope,
                node,
                pattern_elements_outlines(old(list)@, flags),
            ).outlines,
        decreases old(list)@,
    {
        let ghost start = self@;
        let mut i: usize = 0;
        proof {
            assert(old(list)@.take(0) =~= Seq::<Option<BindingPattern>>::empty());
            assert(list@.take(0) =~= Seq::<Option<BindingPattern>>::empty());
            assert(pattern_elements_outlines(list@.take(0), flags) =~= Seq::<Outline>::empty());
        }
        while i < list.len()
            invariant
                i <= list.len(),
                list@.len() == old(list)@.len(),
                forall|j: int| i <= j < list@.len() ==> list@[j] == old(list)@[j],
                self.wf(),
                self@.scoping.has_scope(scope),
                start == old(self)@,
                self@.scoping.extends(start.scoping),
                self@ == analyzed_all(
                    start,
                    scope,
                    node,
                    pattern_elements_outlines(old(list)@.take(i as int), flags),
                ).state,
                pattern_elements_outlines(list@.take(i as int), flags) == analyzed_all(
                    start,
                    scope,
                    node,
                    pattern_elements_outlines(old(list)@.take(i as int), flags),
                ).outlines,
            decreases list.len() - i,
        {
            let ghost before = self@;
            let ghost done = list@.take(i as int);
            self.visit_optional_pattern(scope, node, &mut list[i], flags);
            proof {
                let was = old(list)@;
                assert(was.take(i + 1).drop_last() =~= was.take(i as int));
                assert(was.take(i + 1).last() == was[i as int]);
                assert(list@.take(i + 1).drop_last() =~= done);
                assert(list@.take(i + 1).last() == list@[i as int]);
                lemma_extends_transitive(start.scoping, before.scoping, self@.scoping);
                lemma_analyzed_push(
                    start,
                    scope,
                    node,
                    pattern_elements_outlines(was.take(i as int), flags),
                    optional_pattern_outline(was[i as int], flags),
                );
            }
            i += 1;
        }
        proof {
            assert(old(list)@.take(i as int) =~= old(list)@);
            assert(list@.take(i as int) =~= list@);
        }
    }

    /// Binds the parameters of a function.
    pub(crate) fn visit_parameters(
        &mut self,
        scope: ScopeId,
        node: NodeId,
        list: &mut Vec<BindingPattern>,
    )
        requires
            old(self).wf(),
            old(self)@.scoping.has_scope(scope),
        ensures
            final(self).wf(),
            final(self)@.scoping.extends(old(self)@.scoping),
            final(self)@ == analyzed_all(
                old(self)@,
                scope,
                node,
                parameters_outlines(old(list)@),
            ).state,
            parameters_outlines(final(list)@) == analyzed_all(
                old(self)@,
                scope,
                node,
                parameters_outlines(old(list)@),
            ).outlines,
        decreases old(list)@,
    {
        let ghost start = self@;
        let mut i: usize = 0;
        proof {
            assert(old(list)@.take(0) =~= Seq::<BindingPattern>::empty());
            assert(list@.take(0) =~= Seq::<BindingPattern>::empty());
        }
        while i < list.len()
            invariant
                i <= list.len(),
                list@.len() == old(list)@.len(),
                forall|j: int| i <= j < list@.len() ==> list@[j] == old(list)@[j],
                self.wf(),
                self@.scoping.has_scope(scope),
                start == old(self)@,
                self@.scoping.extends(start.scoping),
                self@ == analyzed_all(
                    start,
                    scope,
                    node,
                    parameters_outlines(old(list)@.take(i as int)),
                ).state,
                parameters_outlines(list@.take(i as int)) == analyzed_all(
                    start,
                    scope,
                    node,
                    parameters_outlines(old(list)@.take(i as int)),
                ).outlines,
            decreases list.len() - i,
        {
            let ghost before = self@;
            let ghost done = list@.take(i as int);
            let flags = SymbolFlags {
                kind: SymbolKind::Parameter,
                mutable: true,
                exported: false,
                function_scoped: true,
            };
            self.visit_pattern(scope, node, &mut list[i], flags);
            proof {
                let was = old(list)@;
                assert(was.take(i + 1).drop_last() =~= was.take(i as int));
                assert(was.take(i + 1).last() == was[i as int]);
                assert(list@.take(i + 1).drop_last() =~= done);
                assert(list@.take(i + 1).last() == list@[i as int]);
                lemma_extends_transitive(start.scoping, before.scoping, self@.scoping);
                lemma_analyzed_push(
                    start,
                    scope,
                    node,
                    parameters_outlines(was.take(i as int)),
                    pattern_outline(was[i as int], parameter_flags()),
                );
            }
            i += 1;
        }
        proof {
            assert(old(list)@.take(i as int) =~= old(list)@);
            assert(list@.take(i as int) =~= list@);
        }
    }
}

} // verus!
