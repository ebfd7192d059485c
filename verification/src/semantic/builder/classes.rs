//! Analysis of classes.

use crate::ast::nodes::{Class, ClassElement};
use crate::semantic::laws::lemma_extends_transitive;
use crate::semantic::outline::{
    Outline, analyzed, analyzed_all, lemma_analyzed_one, lemma_analyzed_push,
};
use crate::semantic::builder::SemanticBuilder;
use crate::semantic::skeleton::{
    class_body_outlines, class_element_outline, class_outline, function_outline, name_outline,
};
use crate::syntax::{NodeId, ScopeId, ScopeKind, SymbolFlags, SymbolKind};
use vstd::prelude::*;
use vstd::string::StringExecFns;

verus! {

impl SemanticBuilder {
    /// Analyzes the elements of a class body, first to last.
    pub(crate) fn visit_class_body(
        &mut self,
        scope: ScopeId,
        node: NodeId,
        list: &mut Vec<ClassElement>,
    )
        requires
            old(self).wf(),
            old(self)@.scoping.has_scope(scope),
        ensures
            final(self).wf(),
            final(self)@.scoping.extends(old(self)@.scoping),
            final(self)@ == analyzed_all(
                old(self)@,
                scope,
                node,
                class_body_outlines(old(list)@),
            ).state,
            class_body_outlines(final(list)@) == analyzed_all(
                old(self)@,
                scope,
                node,
                class_body_outlines(old(list)@),
            ).outlines,
        decreases old(list)@,
    {
        let ghost start = self@;
        let mut i: usize = 0;
        proof {
            assert(old(list)@.take(0) =~= Seq::<ClassElement>::empty());
            assert(list@.take(0) =~= Seq::<ClassElement>::empty());
            assert(class_body_outlines(list@.take(0)) =~= Seq::<Outline>::empty());
        }
        while i < list.len()
            invariant
                i <= list.len(),
                list@.len() == old(list)@.len(),
                forall|j: int| i <= j < list@.len() ==> list@[j] == old(list)@[j],
                self.wf(),
                self@.scoping.has_scope(scope),
                start == old(self)@,
                self@.scoping.extends(start.scoping),
                self@ == analyzed_all(
                    start,
                    scope,
                    node,
                    class_body_outlines(old(list)@.take(i as int)),
                ).state,
                class_body_outlines(list@.take(i as int)) == analyzed_all(
                    start,
                    scope,
                    node,
                    class_body_outlines(old(list)@.take(i as int)),
                ).outlines,
            decreases list.len() - i,
        {
            let ghost before = self@;
            let ghost done = list@.take(i as int);
            self.visit_class_element(scope, node, &mut list[i]);
            proof {
                let was = old(list)@;
                assert(was.take(i + 1).drop_last() =~= was.take(i as int));
                assert(was.take(i + 1).last() == was[i as int]);
                assert(list@.take(i + 1).drop_last() =~= done);
                assert(list@.take(i + 1).last() == list@[i as int]);
                lemma_extends_transitive(start.scoping, before.scoping, self@.scoping);
                lemma_analyzed_push(
                    start,
                    scope,
                    node,
                    class_body_outlines(was.take(i as int)),
                    class_element_outline(was[i as int]),
                );
            }
            i += 1;
        }
        proof {
            assert(old(list)@.take(i as int) =~= old(list)@);
            assert(list@.take(i as int) =~= list@);
        }
    }

    /// Analyzes a class: registers it, binds its name, opens its scope
    /// and analyzes its elements.
    pub(crate) fn visit_class(&mut self, scope: ScopeId, node: NodeId, class: &mut Class)
        requires
            old(self).wf(),
            old(self)@.scoping.has_scope(scope),
        ensures
            final(self).wf(),
            final(self)@.scoping.extends(old(self)@.scoping),
            final(self)@ == analyzed(old(self)@, scope, node, class_outline(*old(class))).state,
            class_outline(*final(class)) == analyzed(
                old(self)@,
                scope,
                node,
                class_outline(*old(class)),
            ).outline,
        decreases *old(class),
    {
        proof {
            reveal(class_outline);
        }
        let ghost start = self@;
        let ghost name = name_outline(class.id, SymbolFlags::spec_of_kind(SymbolKind::Class));
        let ghost body = class_body_outlines(class.body@);
        let id = self.register();
        let ghost registered = self@;
        self.visit_name(scope, id, &mut class.id, SymbolFlags::of_kind(SymbolKind::Class));
        let ghost named = self@;
        let opened = self.open_scope(scope, ScopeKind::Class, id);
        class.scope_id = Some(opened);
        let ghost inside = self@;
        self.visit_class_body(opened, id, &mut class.body);
        proof {
            lemma_extends_transitive(start.scoping, named.scoping, inside.scoping);
            lemma_extends_transitive(start.scoping, inside.scoping, self@.scoping);
            let scoped = Outline::scoped(ScopeKind::Class, old(class).scope_id, body);
            let new_name = name_outline(class.id, SymbolFlags::spec_of_kind(SymbolKind::Class));
            let new_scoped = Outline::scoped(
                ScopeKind::Class,
                Some(opened),
                class_body_outlines(class.body@),
            );
            assert(analyzed(named, scope, id, scoped).state == self@ && analyzed(
                named,
                scope,
                id,
                scoped,
            ).outline == new_scoped);
            let whole = analyzed_all(registered, scope, id, seq![name, scoped]);
            assert(whole.state == self@ && whole.outlines =~= seq![new_name, new_scoped]) by {
                lemma_analyzed_one(registered, scope, id, name);
                lemma_analyzed_push(registered, scope, id, seq![name], scoped);
                assert(seq![name].push(scoped) =~= seq![name, scoped]);
            }
            assert(class_outline(*class) == Outline::registered(seq![new_name, new_scoped]));
        }
    }

    /// Analyzes an element of a class body.
    pub(crate) fn visit_class_element(
        &mut self,
        scope: ScopeId,
        node: NodeId,
        element: &mut ClassElement,
    )
        requires
            old(self).wf(),
            old(self)@.scoping.has_scope(scope),
        ensures
            final(self).wf(),
            final(self)@.scoping.extends(old(self)@.scoping),
            final(self)@ == analyzed(
                old(self)@,
                scope,
                node,
                class_element_outline(*old(element)),
            ).state,
            class_element_outline(*final(element)) == analyzed(
                old(self)@,
                scope,
                node,
                class_element_outline(*old(element)),
            ).outline,
        decreases *old(element),
    {
        proof {
            reveal(function_outline);
        }
        match element {
            ClassElement::MethodDefinition(method) => {
                self.visit_function(scope, node, &mut method.value, false);
            },
            ClassElement::PropertyDefinition(property) => {
                self.visit_optional_expression(scope, node, &mut property.value);
            },
        }
    }
}

} // verus!
