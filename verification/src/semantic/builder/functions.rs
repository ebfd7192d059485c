//! Analysis of functions.

use crate::ast::nodes::{ArrowFunctionExpression, Function};
use crate::semantic::laws::{lemma_extends_reflexive, lemma_extends_transitive};
use crate::semantic::outline::{
    Outline, analyzed, analyzed_all, lemma_analyzed_one, lemma_analyzed_push,
};
use crate::semantic::builder::SemanticBuilder;
use crate::semantic::skeleton::{
    arrow_outline, function_outline, name_outline, nothing, parameters_outlines,
    statements_outlines,
};
use crate::syntax::{NodeId, ScopeId, ScopeKind, SymbolFlags, SymbolKind};
use vstd::prelude::*;
use vstd::string::StringExecFns;

verus! {

impl SemanticBuilder {
    /// Analyzes a function declaration: registers it, binds its name in
    /// the scope it stands in, opens its scope, binds its parameters and
    /// analyzes its body.
    #[verifier::rlimit(80)]
    pub(crate) fn visit_function_declaration(
        &mut self,
        scope: ScopeId,
        node: NodeId,
        function: &mut Function,
    )
        requires
            old(self).wf(),
            old(self)@.scoping.has_scope(scope),
        ensures
            final(self).wf(),
            final(self)@.scoping.extends(old(self)@.scoping),
            final(self)@ == analyzed(
                old(self)@,
                scope,
                node,
                function_outline(*old(function), true),
            ).state,
            function_outline(*final(function), true) == analyzed(
                old(self)@,
                scope,
                node,
                function_outline(*old(function), true),
            ).outline,
        decreases *old(function), 0nat,
    {
        proof {
            reveal(function_outline);
        }
        let ghost start = self@;
        let ghost name = name_outline(function.id, SymbolFlags::spec_of_kind(SymbolKind::Function));
        let ghost parameters = Outline::plain(parameters_outlines(function.params@));
        let ghost body = Outline::plain(statements_outlines(function.body@));
        let ghost carried = function.scope_id;
        let id = self.register();
        let ghost registered = self@;
        self.visit_name(scope, id, &mut function.id, SymbolFlags::of_kind(SymbolKind::Function));
        let ghost named = self@;
        let opened = self.open_scope(scope, ScopeKind::Function, id);
        function.scope_id = Some(opened);
        let ghost inside = self@;
        let ghost after_name = self@;
        self.visit_parameters(opened, id, &mut function.params);
        let ghost after_parameters = self@;
        self.visit_statements(opened, id, &mut function.body);
        proof {
            lemma_extends_reflexive(start.scoping);
            lemma_extends_reflexive(inside.scoping);
            lemma_extends_transitive(start.scoping, named.scoping, inside.scoping);
            lemma_extends_transitive(inside.scoping, after_name.scoping, after_parameters.scoping);
            lemma_extends_transitive(inside.scoping, after_parameters.scoping, self@.scoping);
            lemma_extends_transitive(start.scoping, inside.scoping, self@.scoping);
            let inner_name = nothing();
            let outer_name = name;
            let scoped = Outline::scoped(
                ScopeKind::Function,
                carried,
                seq![inner_name, parameters, body],
            );
            let new_name = name_outline(
                function.id,
                SymbolFlags::spec_of_kind(SymbolKind::Function),
            );
            let new_inner = nothing();
            let new_outer = new_name;
            let new_parameters = Outline::plain(parameters_outlines(function.params@));
            let new_body = Outline::plain(statements_outlines(function.body@));
            assert(analyzed(inside, opened, id, nothing()).state == inside
                && analyzed(inside, opened, id, nothing()).outline == nothing()) by {
                assert(analyzed_all(inside, opened, id, Seq::<Outline>::empty()).outlines
                    =~= Seq::<Outline>::empty());
            }
            assert(analyzed(registered, scope, id, nothing()).state == registered
                && analyzed(registered, scope, id, nothing()).outline == nothing()) by {
                assert(analyzed_all(registered, scope, id, Seq::<Outline>::empty()).outlines
                    =~= Seq::<Outline>::empty());
            }
            let below = analyzed_all(inside, opened, id, seq![inner_name, parameters, body]);
            assert(below.state == self@ && below.outlines =~= seq![
                new_inner,
                new_parameters,
                new_body,
            ]) by {
                lemma_analyzed_one(inside, opened, id, inner_name);
                lemma_analyzed_push(inside, opened, id, seq![inner_name], parameters);
                assert(seq![inner_name].push(parameters) =~= seq![inner_name, parameters]);
                lemma_analyzed_push(inside, opened, id, seq![inner_name, parameters], body);
                assert(seq![inner_name, parameters].push(body) =~= seq![
                    inner_name,
                    parameters,
                    body,
                ]);
            }
            let new_scoped = Outline::scoped(
                ScopeKind::Function,
                Some(opened),
                seq![new_inner, new_parameters, new_body],
            );
            assert(analyzed(named, scope, id, scoped).state == self@ && analyzed(
                named,
                scope,
                id,
                scoped,
            ).outline == new_scoped);
            let whole = analyzed_all(registered, scope, id, seq![outer_name, scoped]);
            assert(whole.state == self@ && whole.outlines =~= seq![new_outer, new_scoped]) by {
                lemma_analyzed_one(registered, scope, id, outer_name);
                lemma_analyzed_push(registered, scope, id, seq![outer_name], scoped);
                assert(seq![outer_name].push(scoped) =~= seq![outer_name, scoped]);
            }
            assert(
                function_outline(*old(function), true) == Outline::registered(
                    seq![outer_name, scoped]
                )
            );
            assert(
                function_outline(*function, true) == Outline::registered(
                    seq![new_outer, new_scoped]
                )
            );
        }
    }

    /// Analyzes a function expression: registers it, opens its scope, binds
    /// its name inside, binds its parameters and analyzes its body.
    #[verifier::rlimit(80)]
    pub(crate) fn visit_function_expression(
        &mut self,
        scope: ScopeId,
        node: NodeId,
        function: &mut Function,
    )
        requires
            old(self).wf(),
            old(self)@.scoping.has_scope(scope),
        ensures
            final(self).wf(),
            final(self)@.scoping.extends(old(self)@.scoping),
            final(self)@ == analyzed(
                old(self)@,
                scope,
                node,
                function_outline(*old(function), false),
            ).state,
            function_outline(*final(function), false) == analyzed(
                old(self)@,
                scope,
                node,
                function_outline(*old(function), false),
            ).outline,
        decreases *old(function), 0nat,
    {
        proof {
            reveal(function_outline);
        }
        let ghost start = self@;
        let ghost name = name_outline(function.id, SymbolFlags::spec_of_kind(SymbolKind::Function));
        let ghost parameters = Outline::plain(parameters_outlines(function.params@));
        let ghost body = Outline::plain(statements_outlines(function.body@));
        let ghost carried = function.scope_id;
        let id = self.register();
        let ghost registered = self@;
        let ghost named = self@;
        let opened = self.open_scope(scope, ScopeKind::Function, id);
        function.scope_id = Some(opened);
        let ghost inside = self@;
        self.visit_name(opened, id, &mut function.id, SymbolFlags::of_kind(SymbolKind::Function));
        let ghost after_name = self@;
        self.visit_parameters(opened, id, &mut function.params);
        let ghost after_parameters = self@;
        self.visit_statements(opened, id, &mut function.body);
        proof {
            lemma_extends_reflexive(start.scoping);
            lemma_extends_reflexive(inside.scoping);
            lemma_extends_transitive(start.scoping, named.scoping, inside.scoping);
            lemma_extends_transitive(inside.scoping, after_name.scoping, after_parameters.scoping);
            lemma_extends_transitive(inside.scoping, after_parameters.scoping, self@.scoping);
            lemma_extends_transitive(start.scoping, inside.scoping, self@.scoping);
            let inner_name = name;
            let outer_name = nothing();
            let scoped = Outline::scoped(
                ScopeKind::Function,
                carried,
                seq![inner_name, parameters, body],
            );
            let new_name = name_outline(
                function.id,
                SymbolFlags::spec_of_kind(SymbolKind::Function),
            );
            let new_inner = new_name;
            let new_outer = nothing();
            let new_parameters = Outline::plain(parameters_outlines(function.params@));
            let new_body = Outline::plain(statements_outlines(function.body@));
            assert(analyzed(inside, opened, id, nothing()).state == inside
                && analyzed(inside, opened, id, nothing()).outline == nothing()) by {
                assert(analyzed_all(inside, opened, id, Seq::<Outline>::empty()).outlines
                    =~= Seq::<Outline>::empty());
            }
            assert(analyzed(registered, scope, id, nothing()).state == registered
                && analyzed(registered, scope, id, nothing()).outline == nothing()) by {
                assert(analyzed_all(registered, scope, id, Seq::<Outline>::empty()).outlines
                    =~= Seq::<Outline>::empty());
            }
            let below = analyzed_all(inside, opened, id, seq![inner_name, parameters, body]);
            assert(below.state == self@ && below.outlines =~= seq![
                new_inner,
                new_parameters,
                new_body,
            ]) by {
                lemma_analyzed_one(inside, opened, id, inner_name);
                lemma_analyzed_push(inside, opened, id, seq![inner_name], parameters);
                assert(seq![inner_name].push(parameters) =~= seq![inner_name, parameters]);
                lemma_analyzed_push(inside, opened, id, seq![inner_name, parameters], body);
                assert(seq![inner_name, parameters].push(body) =~= seq![
                    inner_name,
                    parameters,
                    body,
                ]);
            }
            let new_scoped = Outline::scoped(
                ScopeKind::Function,
                Some(opened),
                seq![new_inner, new_parameters, new_body],
            );
            assert(analyzed(named, scope, id, scoped).state == self@ && analyzed(
                named,
                scope,
                id,
                scoped,
            ).outline == new_scoped);
            let whole = analyzed_all(registered, scope, id, seq![outer_name, scoped]);
            assert(whole.state == self@ && whole.outlines =~= seq![new_outer, new_scoped]) by {
                lemma_analyzed_one(registered, scope, id, outer_name);
                lemma_analyzed_push(registered, scope, id, seq![outer_name], scoped);
                assert(seq![outer_name].push(scoped) =~= seq![outer_name, scoped]);
            }
            assert(
                function_outline(*old(function), false) == Outline::registered(
                    seq![outer_name, scoped]
                )
            );
            assert(
                function_outline(*function, false) == Outline::registered(
                    seq![new_outer, new_scoped]
                )
            );
        }
    }

    /// Analyzes a function: a declaration binds its name in the scope it
    /// stands in, an expression inside its own.
    pub(crate) fn visit_function(
        &mut self,
        scope: ScopeId,
        node: NodeId,
        function: &mut Function,
        declaration: bool,
    )
        requires
            old(self).wf(),
            old(self)@.scoping.has_scope(scope),
        ensures
            final(self).wf(),
            final(self)@.scoping.extends(old(self)@.scoping),
            final(self)@ == analyzed(
                old(self)@,
                scope,
                node,
                function_outline(*old(function), declaration),
            ).state,
            function_outline(*final(function), declaration) == analyzed(
                old(self)@,
                scope,
                node,
                function_outline(*old(function), declaration),
            ).outline,
        decreases *old(function), 1nat,
    {
        if declaration {
            self.visit_function_declaration(scope, node, function);
        } else {
            self.visit_function_expression(scope, node, function);
        }
    }

    /// Analyzes an arrow function: registers it, opens its scope, binds
    /// its parameters and analyzes its body.
    pub(crate) fn visit_arrow(
        &mut self,
        scope: ScopeId,
        node: NodeId,
        function: &mut ArrowFunctionExpression,
    )
        requires
            old(self).wf(),
            old(self)@.scoping.has_scope(scope),
        ensures
            final(self).wf(),
            final(self)@.scoping.extends(old(self)@.scoping),
            final(self)@ == analyzed(old(self)@, scope, node, arrow_outline(*old(function))).state,
            arrow_outline(*final(function)) == analyzed(
                old(self)@,
                scope,
                node,
                arrow_outline(*old(function)),
            ).outline,
        decreases *old(function),
    {
        proof {
            reveal(arrow_outline);
        }
        let ghost start = self@;
        let ghost parameters = Outline::plain(parameters_outlines(function.params@));
        let ghost body = Outline::plain(statements_outlines(function.body@));
        let id = self.register();
        let ghost registered = self@;
        let opened = self.open_scope(scope, ScopeKind::Function, id);
        function.scope_id = Some(opened);
        let ghost inside = self@;
        self.visit_parameters(opened, id, &mut function.params);
        let ghost after_parameters = self@;
        self.visit_statements(opened, id, &mut function.body);
        proof {
            lemma_extends_transitive(inside.scoping, after_parameters.scoping, self@.scoping);
            lemma_extends_transitive(start.scoping, inside.scoping, self@.scoping);
            lemma_analyzed_one(inside, opened, id, parameters);
            lemma_analyzed_push(inside, opened, id, seq![parameters], body);
            assert(seq![parameters].push(body) =~= seq![parameters, body]);
            let scoped = Outline::scoped(
                ScopeKind::Function,
                old(function).scope_id,
                seq![parameters, body],
            );
            let new_parameters = Outline::plain(parameters_outlines(function.params@));
            let new_body = Outline::plain(statements_outlines(function.body@));
            let below = analyzed_all(inside, opened, id, seq![parameters, body]);
            assert(below.state == self@ && below.outlines =~= seq![new_parameters, new_body]);
            let new_scoped = Outline::scoped(
                ScopeKind::Function,
                Some(opened),
                seq![new_parameters, new_body],
            );
            assert(analyzed(registered, scope, id, scoped).outline == new_scoped);
            lemma_analyzed_one(registered, scope, id, scoped);
            assert(analyzed_all(registered, scope, id, seq![scoped]).outlines =~= seq![new_scoped]);
            assert(arrow_outline(*function) == Outline::registered(seq![new_scoped]));
        }
    }
}

} // verus!
