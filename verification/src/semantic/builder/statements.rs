//! Analysis of statements.

use crate::ast::nodes::{
    BlockStatement, ExpressionStatement, IfStatement, ReturnStatement, Statement, ThrowStatement,
    VariableDeclaration, VariableDeclarator,
};
use crate::semantic::laws::{lemma_extends_reflexive, lemma_extends_transitive};
use crate::semantic::outline::{
    Outline, analyzed, analyzed_all, lemma_analyzed_one, lemma_analyzed_push,
};
use crate::semantic::builder::{SemanticBuilder, flags_of_declaration};
use crate::semantic::skeleton::{
    class_outline, declaration_flags, declarator_outline, declarators_outlines, expression_outline,
    function_outline, optional_expression_outline, optional_statement_outline, pattern_outline,
    statement_outline, statements_outlines,
};
use crate::syntax::{NodeId, ScopeId, ScopeKind};
use vstd::prelude::*;
use vstd::string::StringExecFns;

verus! {

impl SemanticBuilder {
    /// Analyzes the statements of a list, first to last.
    pub(crate) fn visit_statements(
        &mut self,
        scope: ScopeId,
        node: NodeId,
        list: &mut Vec<Statement>,
    )
        requires
            old(self).wf(),
            old(self)@.scoping.has_scope(scope),
        ensures
            final(self).wf(),
            final(self)@.scoping.extends(old(self)@.scoping),
            final(self)@ == analyzed_all(
                old(self)@,
                scope,
                node,
                statements_outlines(old(list)@),
            ).state,
            statements_outlines(final(list)@) == analyzed_all(
                old(self)@,
                scope,
                node,
                statements_outlines(old(list)@),
            ).outlines,
        decreases old(list)@,
    {
        proof {
            reveal(statement_outline);
        }
        let ghost start = self@;
        let mut i: usize = 0;
        proof {
            assert(old(list)@.take(0) =~= Seq::<Statement>::empty());
            assert(list@.take(0) =~= Seq::<Statement>::empty());
            assert(statements_outlines(list@.take(0)) =~= Seq::<Outline>::empty());
        }
        while i < list.len()
            invariant
                i <= list.len(),
                list@.len() == old(list)@.len(),
                forall|j: int| i <= j < list@.len() ==> list@[j] == old(list)@[j],
                self.wf(),
                self@.scoping.has_scope(scope),
                start == old(self)@,
                self@.scoping.extends(start.scoping),
                self@ == analyzed_all(
                    start,
                    scope,
                    node,
                    statements_outlines(old(list)@.take(i as int)),
                ).state,
                statements_outlines(list@.take(i as int)) == analyzed_all(
                    start,
                    scope,
                    node,
                    statements_outlines(old(list)@.take(i as int)),
                ).outlines,
            decreases list.len() - i,
        {
            proof {
                reveal(statement_outline);
            }
            let ghost before = self@;
            let ghost done = list@.take(i as int);
            self.visit_statement(scope, node, &mut list[i]);
            proof {
                let was = old(list)@;
                assert(was.take(i + 1).drop_last() =~= was.take(i as int));
                assert(was.take(i + 1).last() == was[i as int]);
                assert(list@.take(i + 1).drop_last() =~= done);
                assert(list@.take(i + 1).last() == list@[i as int]);
                lemma_extends_transitive(start.scoping, before.scoping, self@.scoping);
                lemma_analyzed_push(
                    start,
                    scope,
                    node,
                    statements_outlines(was.take(i as int)),
                    statement_outline(was[i as int]),
                );
            }
            i += 1;
        }
        proof {
            assert(old(list)@.take(i as int) =~= old(list)@);
            assert(list@.take(i as int) =~= list@);
        }
    }

    /// Analyzes the declarators of a declaration, first to last.
    pub(crate) fn visit_declarators(
        &mut self,
        scope: ScopeId,
        node: NodeId,
        list: &mut Vec<VariableDeclarator>,
    )
        requires
            old(self).wf(),
            old(self)@.scoping.has_scope(scope),
        ensures
            final(self).wf(),
            final(self)@.scoping.extends(old(self)@.scoping),
            final(self)@ == analyzed_all(
                old(self)@,
                scope,
                node,
                declarators_outlines(old(list)@),
            ).state,
            declarators_outlines(final(list)@) == analyzed_all(
                old(self)@,
                scope,
                node,
                declarators_outlines(old(list)@),
            ).outlines,
        decreases old(list)@,
    {
        proof {
            reveal(declarator_outline);
        }
        let ghost start = self@;
        let mut i: usize = 0;
        proof {
            assert(old(list)@.take(0) =~= Seq::<VariableDeclarator>::empty());
            assert(list@.take(0) =~= Seq::<VariableDeclarator>::empty());
            assert(declarators_outlines(list@.take(0)) =~= Seq::<Outline>::empty());
        }
        while i < list.len()
            invariant
                i <= list.len(),
                list@.len() == old(list)@.len(),
                forall|j: int| i <= j < list@.len() ==> list@[j] == old(list)@[j],
                self.wf(),
                self@.scoping.has_scope(scope),
                start == old(self)@,
                self@.scoping.extends(start.scoping),
                self@ == analyzed_all(
                    start,
                    scope,
                    node,
                    declarators_outlines(old(list)@.take(i as int)),
                ).state,
                declarators_outlines(list@.take(i as int)) == analyzed_all(
                    start,
                    scope,
                    node,
                    declarators_outlines(old(list)@.take(i as int)),
                ).outlines,
            decreases list.len() - i,
        {
            proof {
                reveal(declarator_outline);
            }
            let ghost before = self@;
            let ghost done = list@.take(i as int);
            self.visit_declarator(scope, node, &mut list[i]);
            proof {
                let was = old(list)@;
                assert(was.take(i + 1).drop_last() =~= was.take(i as int));
                assert(was.take(i + 1).last() == was[i as int]);
                assert(list@.take(i + 1).drop_last() =~= done);
                assert(list@.take(i + 1).last() == list@[i as int]);
                lemma_extends_transitive(start.scoping, before.scoping, self@.scoping);
                lemma_analyzed_push(
                    start,
                    scope,
                    node,
                    declarators_outlines(was.take(i as int)),
                    declarator_outline(was[i as int]),
                );
            }
            i += 1;
        }
        proof {
            assert(old(list)@.take(i as int) =~= old(list)@);
            assert(list@.take(i as int) =~= list@);
        }
    }

    /// Analyzes a statement that may be absent.
    pub(crate) fn visit_optional_statement(
        &mut self,
        scope: ScopeId,
        node: NodeId,
        statement: &mut Option<Statement>,
    )
        requires
            old(self).wf(),
            old(self)@.scoping.has_scope(scope),
        ensures
            final(self).wf(),
            final(self)@.scoping.extends(old(self)@.scoping),
            final(self)@ == analyzed(
                old(self)@,
                scope,
                node,
                optional_statement_outline(*old(statement)),
            ).state,
            optional_statement_outline(*final(statement)) == analyzed(
                old(self)@,
                scope,
                node,
                optional_statement_outline(*old(statement)),
            ).outline,
        decreases *old(statement),
    {
        proof {
            reveal(statement_outline);
        }
        match statement {
            Some(s) => {
                self.visit_statement(scope, node, s);
            },
            None => {
                proof {
                    lemma_extends_reflexive(self@.scoping);
                    assert(
                        analyzed_all(self@, scope, node, Seq::<Outline>::empty()).outlines
                            =~= Seq::<Outline>::empty()
                    );
                }
            },
        }
    }

    /// Analyzes a declarator: registers it, binds the identifiers of its
    /// pattern, and analyzes its initializer.
    pub(crate) fn visit_declarator(
        &mut self,
        scope: ScopeId,
        node: NodeId,
        declarator: &mut VariableDeclarator,
    )
        requires
            old(self).wf(),
            old(self)@.scoping.has_scope(scope),
        ensures
            final(self).wf(),
            final(self)@.scoping.extends(old(self)@.scoping),
            final(self)@ == analyzed(
                old(self)@,
                scope,
                node,
                declarator_outline(*old(declarator)),
            ).state,
            declarator_outline(*final(declarator)) == analyzed(
                old(self)@,
                scope,
                node,
                declarator_outline(*old(declarator)),
            ).outline,
        decreases *old(declarator), 1nat,
    {
        proof {
            reveal(declarator_outline);
            reveal(pattern_outline);
        }
        self.visit_declarator_parts(scope, node, declarator);
    }

    /// Registers a declarator, binds the identifiers of its pattern, and
    /// analyzes its initializer.
    #[verifier::rlimit(60)]
    pub(crate) fn visit_declarator_parts(
        &mut self,
        scope: ScopeId,
        node: NodeId,
        part: &mut VariableDeclarator,
    )
        requires
            old(self).wf(),
            old(self)@.scoping.has_scope(scope),
        ensures
            final(self).wf(),
            final(self)@.scoping.extends(old(self)@.scoping),
            final(self)@ == analyzed(
                old(self)@,
                scope,
                node,
                Outline::registered(
                    seq![
                        pattern_outline(old(part).id, declaration_flags(old(part).kind)),
                        optional_expression_outline(old(part).init),
                    ]
                ),
            ).state,
            Outline::registered(
                seq![
                    pattern_outline(final(part).id, declaration_flags(final(part).kind)),
                    optional_expression_outline(final(part).init),
                ]
            )
                == analyzed(
                    old(self)@,
                    scope,
                    node,
                    Outline::registered(
                        seq![
                            pattern_outline(old(part).id, declaration_flags(old(part).kind)),
                            optional_expression_outline(old(part).init),
                        ]
                    ),
                ).outline,
        decreases *old(part), 0nat,
    {
        let ghost start = self@;
        let flags = flags_of_declaration(part.kind);
        let id = self.register();
        let ghost inside = self@;
        let ghost o0 = pattern_outline(part.id, declaration_flags(part.kind));
        let ghost o1 = optional_expression_outline(part.init);
        let ghost s0 = self@;
        self.visit_pattern(scope, id, &mut part.id, flags);
        let ghost s1 = self@;
        self.visit_optional_expression(scope, id, &mut part.init);
        proof {
            let s2 = self@;
            lemma_extends_transitive(start.scoping, s0.scoping, s1.scoping);
            lemma_extends_transitive(start.scoping, s1.scoping, s2.scoping);
            let n0 = pattern_outline(part.id, declaration_flags(part.kind));
            let n1 = optional_expression_outline(part.init);
            assert(
                analyzed(s0, scope, id, o0).state == s1 && analyzed(s0, scope, id, o0).outline == n0
            );
            assert(
                analyzed(s1, scope, id, o1).state == s2 && analyzed(s1, scope, id, o1).outline == n1
            );
            let all = analyzed_all(inside, scope, id, seq![o0, o1]);
            assert(all.state == self@ && all.outlines =~= seq![n0, n1]) by {
                lemma_analyzed_one(inside, scope, id, o0);
                lemma_analyzed_push(inside, scope, id, seq![o0], o1);
                assert(seq![o0].push(o1) =~= seq![o0, o1]);
            }
        }
    }

    /// Analyzes the expression of an expression statement.
    #[verifier::rlimit(60)]
    pub(crate) fn visit_expression_statement(
        &mut self,
        scope: ScopeId,
        node: NodeId,
        part: &mut ExpressionStatement,
    )
        requires
            old(self).wf(),
            old(self)@.scoping.has_scope(scope),
        ensures
            final(self).wf(),
            final(self)@.scoping.extends(old(self)@.scoping),
            final(self)@ == analyzed(
                old(self)@,
                scope,
                node,
                Outline::plain(seq![expression_outline(old(part).expression)]),
            ).state,
            Outline::plain(seq![expression_outline(final(part).expression)]) == analyzed(
                old(self)@,
                scope,
                node,
                Outline::plain(seq![expression_outline(old(part).expression)]),
            ).outline,
        decreases *old(part), 0nat,
    {
        let ghost start = self@;
        let id = node;
        let ghost inside = self@;
        let ghost o0 = expression_outline(part.expression);
        let ghost s0 = self@;
        self.visit_expression(scope, id, &mut part.expression);
        proof {
            let s1 = self@;
            lemma_extends_transitive(start.scoping, s0.scoping, s1.scoping);
            let n0 = expression_outline(part.expression);
            assert(
                analyzed(s0, scope, id, o0).state == s1 && analyzed(s0, scope, id, o0).outline == n0
            );
            let all = analyzed_all(inside, scope, id, seq![o0]);
            assert(all.state == self@ && all.outlines =~= seq![n0]) by {
                lemma_analyzed_one(inside, scope, id, o0);
            }
        }
    }

    /// Analyzes test and branches of a conditional.
    #[verifier::rlimit(60)]
    pub(crate) fn visit_if(&mut self, scope: ScopeId, node: NodeId, part: &mut IfStatement)
        requires
            old(self).wf(),
            old(self)@.scoping.has_scope(scope),
        ensures
            final(self).wf(),
            final(self)@.scoping.extends(old(self)@.scoping),
            final(self)@ == analyzed(
                old(self)@,
                scope,
                node,
                Outline::plain(
                    seq![
                        expression_outline(old(part).test),
                        statement_outline(old(part).consequent),
                        optional_statement_outline(old(part).alternate),
                    ]
                ),
            ).state,
            Outline::plain(
                seq![
                    expression_outline(final(part).test),
                    statement_outline(final(part).consequent),
                    optional_statement_outline(final(part).alternate),
                ]
            )
                == analyzed(
                    old(self)@,
                    scope,
                    node,
                    Outline::plain(
                        seq![
                            expression_outline(old(part).test),
                            statement_outline(old(part).consequent),
                            optional_statement_outline(old(part).alternate),
                        ]
                    ),
                ).outline,
        decreases *old(part), 0nat,
    {
        let ghost start = self@;
        let id = node;
        let ghost inside = self@;
        let ghost o0 = expression_outline(part.test);
        let ghost o1 = statement_outline(part.consequent);
        let ghost o2 = optional_statement_outline(part.alternate);
        let ghost s0 = self@;
        self.visit_expression(scope, id, &mut part.test);
        let ghost s1 = self@;
        self.visit_statement(scope, id, &mut part.consequent);
        let ghost s2 = self@;
        self.visit_optional_statement(scope, id, &mut part.alternate);
        proof {
            let s3 = self@;
            lemma_extends_transitive(start.scoping, s0.scoping, s1.scoping);
            lemma_extends_transitive(start.scoping, s1.scoping, s2.scoping);
            lemma_extends_transitive(start.scoping, s2.scoping, s3.scoping);
            let n0 = expression_outline(part.test);
            let n1 = statement_outline(part.consequent);
            let n2 = optional_statement_outline(part.alternate);
            assert(
                analyzed(s0, scope, id, o0).state == s1 && analyzed(s0, scope, id, o0).outline == n0
            );
            assert(
                analyzed(s1, scope, id, o1).state == s2 && analyzed(s1, scope, id, o1).outline == n1
            );
            assert(
                analyzed(s2, scope, id, o2).state == s3 && analyzed(s2, scope, id, o2).outline == n2
            );
            let all = analyzed_all(inside, scope, id, seq![o0, o1, o2]);
            assert(all.state == self@ && all.outlines =~= seq![n0, n1, n2]) by {
                lemma_analyzed_one(inside, scope, id, o0);
                lemma_analyzed_push(inside, scope, id, seq![o0], o1);
                assert(seq![o0].push(o1) =~= seq![o0, o1]);
                lemma_analyzed_push(inside, scope, id, seq![o0, o1], o2);
                assert(seq![o0, o1].push(o2) =~= seq![o0, o1, o2]);
            }
        }
    }

    /// Analyzes what a throw statement throws.
    #[verifier::rlimit(60)]
    pub(crate) fn visit_throw(&mut self, scope: ScopeId, node: NodeId, part: &mut ThrowStatement)
        requires
            old(self).wf(),
            old(self)@.scoping.has_scope(scope),
        ensures
            final(self).wf(),
            final(self)@.scoping.extends(old(self)@.scoping),
            final(self)@ == analyzed(
                old(self)@,
                scope,
                node,
                Outline::plain(seq![expression_outline(old(part).argument)]),
            ).state,
            Outline::plain(seq![expression_outline(final(part).argument)]) == analyzed(
                old(self)@,
                scope,
                node,
                Outline::plain(seq![expression_outline(old(part).argument)]),
            ).outline,
        decreases *old(part), 0nat,
    {
        let ghost start = self@;
        let id = node;
        let ghost inside = self@;
        let ghost o0 = expression_outline(part.argument);
        let ghost s0 = self@;
        self.visit_expression(scope, id, &mut part.argument);
        proof {
            let s1 = self@;
            lemma_extends_transitive(start.scoping, s0.scoping, s1.scoping);
            let n0 = expression_outline(part.argument);
            assert(
                analyzed(s0, scope, id, o0).state == s1 && analyzed(s0, scope, id, o0).outline == n0
            );
            let all = analyzed_all(inside, scope, id, seq![o0]);
            assert(all.state == self@ && all.outlines =~= seq![n0]) by {
                lemma_analyzed_one(inside, scope, id, o0);
            }
        }
    }

    /// Analyzes what a return statement returns.
    #[verifier::rlimit(60)]
    pub(crate) fn visit_return(&mut self, scope: ScopeId, node: NodeId, part: &mut ReturnStatement)
        requires
            old(self).wf(),
            old(self)@.scoping.has_scope(scope),
        ensures
            final(self).wf(),
            final(self)@.scoping.extends(old(self)@.scoping),
            final(self)@ == analyzed(
                old(self)@,
                scope,
                node,
                Outline::plain(seq![optional_expression_outline(old(part).argument)]),
            ).state,
            Outline::plain(seq![optional_expression_outline(final(part).argument)]) == analyzed(
                old(self)@,
                scope,
                node,
                Outline::plain(seq![optional_expression_outline(old(part).argument)]),
            ).outline,
        decreases *old(part), 0nat,
    {
        let ghost start = self@;
        let id = node;
        let ghost inside = self@;
        let ghost o0 = optional_expression_outline(part.argument);
        let ghost s0 = self@;
        self.visit_optional_expression(scope, id, &mut part.argument);
        proof {
            let s1 = self@;
            lemma_extends_transitive(start.scoping, s0.scoping, s1.scoping);
            let n0 = optional_expression_outline(part.argument);
            assert(
                analyzed(s0, scope, id, o0).state == s1 && analyzed(s0, scope, id, o0).outline == n0
            );
            let all = analyzed_all(inside, scope, id, seq![o0]);
            assert(all.state == self@ && all.outlines =~= seq![n0]) by {
                lemma_analyzed_one(inside, scope, id, o0);
            }
        }
    }

    /// Analyzes the declarators of a declaration.
    pub(crate) fn visit_variable_declaration(
        &mut self,
        scope: ScopeId,
        node: NodeId,
        part: &mut VariableDeclaration,
    )
        requires
            old(self).wf(),
            old(self)@.scoping.has_scope(scope),
        ensures
            final(self).wf(),
            final(self)@.scoping.extends(old(self)@.scoping),
            final(self)@ == analyzed(
                old(self)@,
                scope,
                node,
                Outline::plain(declarators_outlines(old(part).declarations@)),
            ).state,
            Outline::plain(declarators_outlines(final(part).declarations@)) == analyzed(
                old(self)@,
                scope,
                node,
                Outline::plain(declarators_outlines(old(part).declarations@)),
            ).outline,
        decreases *old(part), 0nat,
    {
        self.visit_declarators(scope, node, &mut part.declarations);
    }

    /// Analyzes a block: registers it, opens its scope and analyzes its
    /// statements inside.
    pub(crate) fn visit_block(&mut self, scope: ScopeId, node: NodeId, block: &mut BlockStatement)
        requires
            old(self).wf(),
            old(self)@.scoping.has_scope(scope),
        ensures
            final(self).wf(),
            final(self)@.scoping.extends(old(self)@.scoping),
            final(self)@ == analyzed(
                old(self)@,
                scope,
                node,
                Outline::registered(
                    seq![
                        Outline::scoped(
                            ScopeKind::Block,
                            old(block).scope_id,
                            statements_outlines(old(block).body@),
                        )
                    ]
                ),
            ).state,
            Outline::registered(
                seq![
                    Outline::scoped(
                        ScopeKind::Block,
                        final(block).scope_id,
                        statements_outlines(final(block).body@),
                    )
                ]
            )
                == analyzed(
                    old(self)@,
                    scope,
                    node,
                    Outline::registered(
                        seq![
                            Outline::scoped(
                                ScopeKind::Block,
                                old(block).scope_id,
                                statements_outlines(old(block).body@),
                            )
                        ]
                    ),
                ).outline,
        decreases *old(block), 0nat,
    {
        let ghost start = self@;
        let ghost carried = block.scope_id;
        let ghost body = statements_outlines(block.body@);
        let id = self.register();
        let ghost registered = self@;
        let opened = self.open_scope(scope, ScopeKind::Block, id);
        block.scope_id = Some(opened);
        let ghost inside = self@;
        self.visit_statements(opened, id, &mut block.body);
        proof {
            lemma_extends_transitive(start.scoping, inside.scoping, self@.scoping);
            let scoped = Outline::scoped(ScopeKind::Block, carried, body);
            let new_scoped = Outline::scoped(
                ScopeKind::Block,
                Some(opened),
                statements_outlines(block.body@),
            );
            assert(analyzed(registered, scope, id, scoped).state == self@ && analyzed(
                registered,
                scope,
                id,
                scoped,
            ).outline == new_scoped);
            lemma_analyzed_one(registered, scope, id, scoped);
        }
    }

    /// Analyzes a statement.
    pub fn visit_statement(&mut self, scope: ScopeId, node: NodeId, statement: &mut Statement)
        requires
            old(self).wf(),
            old(self)@.scoping.has_scope(scope),
        ensures
            final(self).wf(),
            final(self)@.scoping.extends(old(self)@.scoping),
            final(self)@ == analyzed(
                old(self)@,
                scope,
                node,
                statement_outline(*old(statement)),
            ).state,
            statement_outline(*final(statement)) == analyzed(
                old(self)@,
                scope,
                node,
                statement_outline(*old(statement)),
            ).outline,
        decreases *old(statement),
    {
        proof {
            reveal(statement_outline);
            reveal(function_outline);
            reveal(class_outline);
        }
        match statement {
            Statement::BlockStatement(block) => {
                self.visit_block(scope, node, block);
            },
            Statement::EmptyStatement(_) => {
                proof {
                    lemma_extends_reflexive(self@.scoping);
                    assert(
                        analyzed_all(self@, scope, node, Seq::<Outline>::empty()).outlines
                            =~= Seq::<Outline>::empty()
                    );
                }
            },
            Statement::ExpressionStatement(s) => {
                self.visit_expression_statement(scope, node, s);
            },
            Statement::IfStatement(s) => {
                self.visit_if(scope, node, s);
            },
            Statement::ReturnStatement(s) => {
                self.visit_return(scope, node, s);
            },
            Statement::ThrowStatement(s) => {
                self.visit_throw(scope, node, s);
            },
            Statement::VariableDeclaration(declaration) => {
                self.visit_variable_declaration(scope, node, declaration);
            },
            Statement::FunctionDeclaration(function) => {
                self.visit_function(scope, node, function, true);
            },
            Statement::ClassDeclaration(class) => {
                self.visit_class(scope, node, class);
            },
        }
    }
}

} // verus!
