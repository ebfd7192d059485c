//! Analysis of expressions.

use crate::ast::nodes::{
    Argument, ArrayExpression, ArrayExpressionElement, ArrowFunctionExpression,
    AssignmentExpression, AssignmentTarget, BinaryExpression, CallExpression, ChainElement,
    ComputedMemberExpression, Expression, NewExpression, ParenthesizedExpression,
    PrivateFieldExpression, StaticMemberExpression, TSAsExpression, TSNonNullExpression,
    TemplateLiteral, UnaryExpression,
};
use crate::semantic::laws::{lemma_extends_reflexive, lemma_extends_transitive};
use crate::semantic::outline::{
    Outline, analyzed, analyzed_all, lemma_analyzed_one, lemma_analyzed_push,
};
use crate::semantic::builder::{SemanticBuilder, flags_of_assignment};
use crate::semantic::skeleton::{
    argument_outline, arguments_outlines, arrow_outline, assignment_flags, chain_outline,
    element_outline, elements_outlines, expression_outline, expressions_outlines, function_outline,
    optional_expression_outline, target_outline,
};
use crate::syntax::{NodeId, ReferenceFlags, ScopeId};
use vstd::prelude::*;
use vstd::string::StringExecFns;

verus! {

impl SemanticBuilder {
    /// Analyzes the expressions of a list, first to last.
    pub(crate) fn visit_expressions(
        &mut self,
        scope: ScopeId,
        node: NodeId,
        list: &mut Vec<Expression>,
    )
        requires
            old(self).wf(),
            old(self)@.scoping.has_scope(scope),
        ensures
            final(self).wf(),
            final(self)@.scoping.extends(old(self)@.scoping),
            final(self)@ == analyzed_all(
                old(self)@,
                scope,
                node,
                expressions_outlines(old(list)@),
            ).state,
            expressions_outlines(final(list)@) == analyzed_all(
                old(self)@,
                scope,
                node,
                expressions_outlines(old(list)@),
            ).outlines,
        decreases old(list)@,
    {
        proof {
            reveal(expression_outline);
        }
        let ghost start = self@;
        let mut i: usize = 0;
        proof {
            assert(old(list)@.take(0) =~= Seq::<Expression>::empty());
            assert(list@.take(0) =~= Seq::<Expression>::empty());
            assert(expressions_outlines(list@.take(0)) =~= Seq::<Outline>::empty());
        }
        while i < list.len()
            invariant
                i <= list.len(),
                list@.len() == old(list)@.len(),
                forall|j: int| i <= j < list@.len() ==> list@[j] == old(list)@[j],
                self.wf(),
                self@.scoping.has_scope(scope),
                start == old(self)@,
                self@.scoping.extends(start.scoping),
                self@ == analyzed_all(
                    start,
                    scope,
                    node,
                    expressions_outlines(old(list)@.take(i as int)),
                ).state,
                expressions_outlines(list@.take(i as int)) == analyzed_all(
                    start,
                    scope,
                    node,
                    expressions_outlines(old(list)@.take(i as int)),
                ).outlines,
            decreases list.len() - i,
        {
            proof {
                reveal(expression_outline);
            }
            let ghost before = self@;
            let ghost done = list@.take(i as int);
            self.visit_expression(scope, node, &mut list[i]);
            proof {
                let was = old(list)@;
                assert(was.take(i + 1).drop_last() =~= was.take(i as int));
                assert(was.take(i + 1).last() == was[i as int]);
                assert(list@.take(i + 1).drop_last() =~= done);
                assert(list@.take(i + 1).last() == list@[i as int]);
                lemma_extends_transitive(start.scoping, before.scoping, self@.scoping);
                lemma_analyzed_push(
                    start,
                    scope,
                    node,
                    expressions_outlines(was.take(i as int)),
                    expression_outline(was[i as int]),
                );
            }
            i += 1;
        }
        proof {
            assert(old(list)@.take(i as int) =~= old(list)@);
            assert(list@.take(i as int) =~= list@);
        }
    }

    /// Analyzes the arguments of a call, first to last.
    pub(crate) fn visit_arguments(&mut self, scope: ScopeId, node: NodeId, list: &mut Vec<Argument>)
        requires
            old(self).wf(),
            old(self)@.scoping.has_scope(scope),
        ensures
            final(self).wf(),
            final(self)@.scoping.extends(old(self)@.scoping),
            final(self)@ == analyzed_all(
                old(self)@,
                scope,
                node,
                arguments_outlines(old(list)@),
            ).state,
            arguments_outlines(final(list)@) == analyzed_all(
                old(self)@,
                scope,
                node,
                arguments_outlines(old(list)@),
            ).outlines,
        decreases old(list)@,
    {
        let ghost start = self@;
        let mut i: usize = 0;
        proof {
            assert(old(list)@.take(0) =~= Seq::<Argument>::empty());
            assert(list@.take(0) =~= Seq::<Argument>::empty());
            assert(arguments_outlines(list@.take(0)) =~= Seq::<Outline>::empty());
        }
        while i < list.len()
            invariant
                i <= list.len(),
                list@.len() == old(list)@.len(),
                forall|j: int| i <= j < list@.len() ==> list@[j] == old(list)@[j],
                self.wf(),
                self@.scoping.has_scope(scope),
                start == old(self)@,
                self@.scoping.extends(start.scoping),
                self@ == analyzed_all(
                    start,
                    scope,
                    node,
                    arguments_outlines(old(list)@.take(i as int)),
                ).state,
                arguments_outlines(list@.take(i as int)) == analyzed_all(
                    start,
                    scope,
                    node,
                    arguments_outlines(old(list)@.take(i as int)),
                ).outlines,
            decreases list.len() - i,
        {
            let ghost before = self@;
            let ghost done = list@.take(i as int);
            self.visit_argument(scope, node, &mut list[i]);
            proof {
                let was = old(list)@;
                assert(was.take(i + 1).drop_last() =~= was.take(i as int));
                assert(was.take(i + 1).last() == was[i as int]);
                assert(list@.take(i + 1).drop_last() =~= done);
                assert(list@.take(i + 1).last() == list@[i as int]);
                lemma_extends_transitive(start.scoping, before.scoping, self@.scoping);
                lemma_analyzed_push(
                    start,
                    scope,
                    node,
                    arguments_outlines(was.take(i as int)),
                    argument_outline(was[i as int]),
                );
            }
            i += 1;
        }
        proof {
            assert(old(list)@.take(i as int) =~= old(list)@);
            assert(list@.take(i as int) =~= list@);
        }
    }

    /// Analyzes the elements of an array, first to last.
    pub(crate) fn visit_elements(
        &mut self,
        scope: ScopeId,
        node: NodeId,
        list: &mut Vec<ArrayExpressionElement>,
    )
        requires
            old(self).wf(),
            old(self)@.scoping.has_scope(scope),
        ensures
            final(self).wf(),
            final(self)@.scoping.extends(old(self)@.scoping),
            final(self)@ == analyzed_all(
                old(self)@,
                scope,
                node,
                elements_outlines(old(list)@),
            ).state,
            elements_outlines(final(list)@) == analyzed_all(
                old(self)@,
                scope,
                node,
                elements_outlines(old(list)@),
            ).outlines,
        decreases old(list)@,
    {
        let ghost start = self@;
        let mut i: usize = 0;
        proof {
            assert(old(list)@.take(0) =~= Seq::<ArrayExpressionElement>::empty());
            assert(list@.take(0) =~= Seq::<ArrayExpressionElement>::empty());
            assert(elements_outlines(list@.take(0)) =~= Seq::<Outline>::empty());
        }
        while i < list.len()
            invariant
                i <= list.len(),
                list@.len() == old(list)@.len(),
                forall|j: int| i <= j < list@.len() ==> list@[j] == old(list)@[j],
                self.wf(),
                self@.scoping.has_scope(scope),
                start == old(self)@,
                self@.scoping.extends(start.scoping),
                self@ == analyzed_all(
                    start,
                    scope,
                    node,
                    elements_outlines(old(list)@.take(i as int)),
                ).state,
                elements_outlines(list@.take(i as int)) == analyzed_all(
                    start,
                    scope,
                    node,
                    elements_outlines(old(list)@.take(i as int)),
                ).outlines,
            decreases list.len() - i,
        {
            let ghost before = self@;
            let ghost done = list@.take(i as int);
            self.visit_element(scope, node, &mut list[i]);
            proof {
                let was = old(list)@;
                assert(was.take(i + 1).drop_last() =~= was.take(i as int));
                assert(was.take(i + 1).last() == was[i as int]);
                assert(list@.take(i + 1).drop_last() =~= done);
                assert(list@.take(i + 1).last() == list@[i as int]);
                lemma_extends_transitive(start.scoping, before.scoping, self@.scoping);
                lemma_analyzed_push(
                    start,
                    scope,
                    node,
                    elements_outlines(was.take(i as int)),
                    element_outline(was[i as int]),
                );
            }
            i += 1;
        }
        proof {
            assert(old(list)@.take(i as int) =~= old(list)@);
            assert(list@.take(i as int) =~= list@);
        }
    }

    /// Analyzes an expression that may be absent.
    pub(crate) fn visit_optional_expression(
        &mut self,
        scope: ScopeId,
        node: NodeId,
        expression: &mut Option<Expression>,
    )
        requires
            old(self).wf(),
            old(self)@.scoping.has_scope(scope),
        ensures
            final(self).wf(),
            final(self)@.scoping.extends(old(self)@.scoping),
            final(self)@ == analyzed(
                old(self)@,
                scope,
                node,
                optional_expression_outline(*old(expression)),
            ).state,
            optional_expression_outline(*final(expression)) == analyzed(
                old(self)@,
                scope,
                node,
                optional_expression_outline(*old(expression)),
            ).outline,
        decreases *old(expression),
    {
        proof {
            reveal(expression_outline);
        }
        match expression {
            Some(e) => {
                self.visit_expression(scope, node, e);
            },
            None => {
                proof {
                    lemma_extends_reflexive(self@.scoping);
                    assert(
                        analyzed_all(self@, scope, node, Seq::<Outline>::empty()).outlines
                            =~= Seq::<Outline>::empty()
                    );
                }
            },
        }
    }

    /// Analyzes the expression that an argument holds.
    pub(crate) fn visit_argument(&mut self, scope: ScopeId, node: NodeId, argument: &mut Argument)
        requires
            old(self).wf(),
            old(self)@.scoping.has_scope(scope),
        ensures
            final(self).wf(),
            final(self)@.scoping.extends(old(self)@.scoping),
            final(self)@ == analyzed(
                old(self)@,
                scope,
                node,
                argument_outline(*old(argument)),
            ).state,
            argument_outline(*final(argument)) == analyzed(
                old(self)@,
                scope,
                node,
                argument_outline(*old(argument)),
            ).outline,
        decreases *old(argument),
    {
        proof {
            reveal(expression_outline);
        }
        match argument {
            Argument::Expression(e) => {
                self.visit_expression(scope, node, e);
            },
            Argument::SpreadElement(spread) => {
                self.visit_expression(scope, node, &mut spread.argument);
            },
        }
    }

    /// Analyzes the expression that an array element holds.
    pub(crate) fn visit_element(
        &mut self,
        scope: ScopeId,
        node: NodeId,
        element: &mut ArrayExpressionElement,
    )
        requires
            old(self).wf(),
            old(self)@.scoping.has_scope(scope),
        ensures
            final(self).wf(),
            final(self)@.scoping.extends(old(self)@.scoping),
            final(self)@ == analyzed(
                old(self)@,
                scope,
                node,
                element_outline(*old(element)),
            ).state,
            element_outline(*final(element)) == analyzed(
                old(self)@,
                scope,
                node,
                element_outline(*old(element)),
            ).outline,
        decreases *old(element),
    {
        proof {
            reveal(expression_outline);
        }
        match element {
            ArrayExpressionElement::Expression(e) => {
                self.visit_expression(scope, node, e);
            },
            ArrayExpressionElement::SpreadElement(spread) => {
                self.visit_expression(scope, node, &mut spread.argument);
            },
            ArrayExpressionElement::Elision(_) => {
                proof {
                    lemma_extends_reflexive(self@.scoping);
                    assert(
                        analyzed_all(self@, scope, node, Seq::<Outline>::empty()).outlines
                            =~= Seq::<Outline>::empty()
                    );
                }
            },
        }
    }

    /// Analyzes the expressions of a template.
    pub(crate) fn visit_template(
        &mut self,
        scope: ScopeId,
        node: NodeId,
        part: &mut TemplateLiteral,
    )
        requires
            old(self).wf(),
            old(self)@.scoping.has_scope(scope),
        ensures
            final(self).wf(),
            final(self)@.scoping.extends(old(self)@.scoping),
            final(self)@ == analyzed(
                old(self)@,
                scope,
                node,
                Outline::plain(expressions_outlines(old(part).expressions@)),
            ).state,
            Outline::plain(expressions_outlines(final(part).expressions@)) == analyzed(
                old(self)@,
                scope,
                node,
                Outline::plain(expressions_outlines(old(part).expressions@)),
            ).outline,
        decreases *old(part), 0nat,
    {
        self.visit_expressions(scope, node, &mut part.expressions);
    }

    /// Analyzes the elements of an array.
    pub(crate) fn visit_array(&mut self, scope: ScopeId, node: NodeId, part: &mut ArrayExpression)
        requires
            old(self).wf(),
            old(self)@.scoping.has_scope(scope),
        ensures
            final(self).wf(),
            final(self)@.scoping.extends(old(self)@.scoping),
            final(self)@ == analyzed(
                old(self)@,
                scope,
                node,
                Outline::plain(elements_outlines(old(part).elements@)),
            ).state,
            Outline::plain(elements_outlines(final(part).elements@)) == analyzed(
                old(self)@,
                scope,
                node,
                Outline::plain(elements_outlines(old(part).elements@)),
            ).outline,
        decreases *old(part), 0nat,
    {
        self.visit_elements(scope, node, &mut part.elements);
    }

    /// Analyzes an assignment: the target is a use that overwrites, and
    /// reads first unless the operator is `=`; then the value is analyzed.
    #[verifier::rlimit(60)]
    pub(crate) fn visit_assignment(
        &mut self,
        scope: ScopeId,
        node: NodeId,
        part: &mut AssignmentExpression,
    )
        requires
            old(self).wf(),
            old(self)@.scoping.has_scope(scope),
        ensures
            final(self).wf(),
            final(self)@.scoping.extends(old(self)@.scoping),
            final(self)@ == analyzed(
                old(self)@,
                scope,
                node,
                Outline::plain(
                    seq![
                        target_outline(old(part).left, assignment_flags(old(part).operator)),
                        expression_outline(old(part).right),
                    ]
                ),
            ).state,
            Outline::plain(
                seq![
                    target_outline(final(part).left, assignment_flags(final(part).operator)),
                    expression_outline(final(part).right),
                ]
            )
                == analyzed(
                    old(self)@,
                    scope,
                    node,
                    Outline::plain(
                        seq![
                            target_outline(old(part).left, assignment_flags(old(part).operator)),
                            expression_outline(old(part).right),
                        ]
                    ),
                ).outline,
        decreases *old(part), 0nat,
    {
        let ghost start = self@;
        let flags = flags_of_assignment(part.operator);
        let id = node;
        let ghost inside = self@;
        let ghost o0 = target_outline(part.left, assignment_flags(part.operator));
        let ghost o1 = expression_outline(part.right);
        let ghost s0 = self@;
        self.visit_target(scope, id, &mut part.left, flags);
        let ghost s1 = self@;
        self.visit_expression(scope, id, &mut part.right);
        proof {
            let s2 = self@;
            lemma_extends_transitive(start.scoping, s0.scoping, s1.scoping);
            lemma_extends_transitive(start.scoping, s1.scoping, s2.scoping);
            let n0 = target_outline(part.left, assignment_flags(part.operator));
            let n1 = expression_outline(part.right);
            assert(
                analyzed(s0, scope, id, o0).state == s1 && analyzed(s0, scope, id, o0).outline == n0
            );
            assert(
                analyzed(s1, scope, id, o1).state == s2 && analyzed(s1, scope, id, o1).outline == n1
            );
            let all = analyzed_all(inside, scope, id, seq![o0, o1]);
            assert(all.state == self@ && all.outlines =~= seq![n0, n1]) by {
                lemma_analyzed_one(inside, scope, id, o0);
                lemma_analyzed_push(inside, scope, id, seq![o0], o1);
                assert(seq![o0].push(o1) =~= seq![o0, o1]);
            }
        }
    }

    /// Analyzes the two sides of a binary operation.
    #[verifier::rlimit(60)]
    pub(crate) fn visit_binary(&mut self, scope: ScopeId, node: NodeId, part: &mut BinaryExpression)
        requires
            old(self).wf(),
            old(self)@.scoping.has_scope(scope),
        ensures
            final(self).wf(),
            final(self)@.scoping.extends(old(self)@.scoping),
            final(self)@ == analyzed(
                old(self)@,
                scope,
                node,
                Outline::plain(
                    seq![expression_outline(old(part).left), expression_outline(old(part).right)]
                ),
            ).state,
            Outline::plain(
                seq![expression_outline(final(part).left), expression_outline(final(part).right)]
            )
                == analyzed(
                    old(self)@,
                    scope,
                    node,
                    Outline::plain(
                        seq![
                            expression_outline(old(part).left),
                            expression_outline(old(part).right),
                        ]
                    ),
                ).outline,
        decreases *old(part), 0nat,
    {
        let ghost start = self@;
        let id = node;
        let ghost inside = self@;
        let ghost o0 = expression_outline(part.left);
        let ghost o1 = expression_outline(part.right);
        let ghost s0 = self@;
        self.visit_expression(scope, id, &mut part.left);
        let ghost s1 = self@;
        self.visit_expression(scope, id, &mut part.right);
        proof {
            let s2 = self@;
            lemma_extends_transitive(start.scoping, s0.scoping, s1.scoping);
            lemma_extends_transitive(start.scoping, s1.scoping, s2.scoping);
            let n0 = expression_outline(part.left);
            let n1 = expression_outline(part.right);
            assert(
                analyzed(s0, scope, id, o0).state == s1 && analyzed(s0, scope, id, o0).outline == n0
            );
            assert(
                analyzed(s1, scope, id, o1).state == s2 && analyzed(s1, scope, id, o1).outline == n1
            );
            let all = analyzed_all(inside, scope, id, seq![o0, o1]);
            assert(all.state == self@ && all.outlines =~= seq![n0, n1]) by {
                lemma_analyzed_one(inside, scope, id, o0);
                lemma_analyzed_push(inside, scope, id, seq![o0], o1);
                assert(seq![o0].push(o1) =~= seq![o0, o1]);
            }
        }
    }

    /// Analyzes a call: registers it, then analyzes callee and arguments.
    #[verifier::rlimit(60)]
    pub(crate) fn visit_call(&mut self, scope: ScopeId, node: NodeId, part: &mut CallExpression)
        requires
            old(self).wf(),
            old(self)@.scoping.has_scope(scope),
        ensures
            final(self).wf(),
            final(self)@.scoping.extends(old(self)@.scoping),
            final(self)@ == analyzed(
                old(self)@,
                scope,
                node,
                Outline::registered(
                    seq![
                        expression_outline(old(part).callee),
                        Outline::plain(arguments_outlines(old(part).arguments@)),
                    ]
                ),
            ).state,
            Outline::registered(
                seq![
                    expression_outline(final(part).callee),
                    Outline::plain(arguments_outlines(final(part).arguments@)),
                ]
            )
                == analyzed(
                    old(self)@,
                    scope,
                    node,
                    Outline::registered(
                        seq![
                            expression_outline(old(part).callee),
                            Outline::plain(arguments_outlines(old(part).arguments@)),
                        ]
                    ),
                ).outline,
        decreases *old(part), 0nat,
    {
        let ghost start = self@;
        let id = self.register();
        let ghost inside = self@;
        let ghost o0 = expression_outline(part.callee);
        let ghost o1 = Outline::plain(arguments_outlines(part.arguments@));
        let ghost s0 = self@;
        self.visit_expression(scope, id, &mut part.callee);
        let ghost s1 = self@;
        self.visit_arguments(scope, id, &mut part.arguments);
        proof {
            let s2 = self@;
            lemma_extends_transitive(start.scoping, s0.scoping, s1.scoping);
            lemma_extends_transitive(start.scoping, s1.scoping, s2.scoping);
            let n0 = expression_outline(part.callee);
            let n1 = Outline::plain(arguments_outlines(part.arguments@));
            assert(
                analyzed(s0, scope, id, o0).state == s1 && analyzed(s0, scope, id, o0).outline == n0
            );
            assert(
                analyzed(s1, scope, id, o1).state == s2 && analyzed(s1, scope, id, o1).outline == n1
            );
            let all = analyzed_all(inside, scope, id, seq![o0, o1]);
            assert(all.state == self@ && all.outlines =~= seq![n0, n1]) by {
                lemma_analyzed_one(inside, scope, id, o0);
                lemma_analyzed_push(inside, scope, id, seq![o0], o1);
                assert(seq![o0].push(o1) =~= seq![o0, o1]);
            }
        }
    }

    /// Analyzes a constructor call: registers it, then analyzes callee and
    /// arguments.
    #[verifier::rlimit(60)]
    pub(crate) fn visit_new(&mut self, scope: ScopeId, node: NodeId, part: &mut NewExpression)
        requires
            old(self).wf(),
            old(self)@.scoping.has_scope(scope),
        ensures
            final(self).wf(),
            final(self)@.scoping.extends(old(self)@.scoping),
            final(self)@ == analyzed(
                old(self)@,
                scope,
                node,
                Outline::registered(
                    seq![
                        expression_outline(old(part).callee),
                        Outline::plain(arguments_outlines(old(part).arguments@)),
                    ]
                ),
            ).state,
            Outline::registered(
                seq![
                    expression_outline(final(part).callee),
                    Outline::plain(arguments_outlines(final(part).arguments@)),
                ]
            )
                == analyzed(
                    old(self)@,
                    scope,
                    node,
                    Outline::registered(
                        seq![
                            expression_outline(old(part).callee),
                            Outline::plain(arguments_outlines(old(part).arguments@)),
                        ]
                    ),
                ).outline,
        decreases *old(part), 0nat,
    {
        let ghost start = self@;
        let id = self.register();
        let ghost inside = self@;
        let ghost o0 = expression_outline(part.callee);
        let ghost o1 = Outline::plain(arguments_outlines(part.arguments@));
        let ghost s0 = self@;
        self.visit_expression(scope, id, &mut part.callee);
        let ghost s1 = self@;
        self.visit_arguments(scope, id, &mut part.arguments);
        proof {
            let s2 = self@;
            lemma_extends_transitive(start.scoping, s0.scoping, s1.scoping);
            lemma_extends_transitive(start.scoping, s1.scoping, s2.scoping);
            let n0 = expression_outline(part.callee);
            let n1 = Outline::plain(arguments_outlines(part.arguments@));
            assert(
                analyzed(s0, scope, id, o0).state == s1 && analyzed(s0, scope, id, o0).outline == n0
            );
            assert(
                analyzed(s1, scope, id, o1).state == s2 && analyzed(s1, scope, id, o1).outline == n1
            );
            let all = analyzed_all(inside, scope, id, seq![o0, o1]);
            assert(all.state == self@ && all.outlines =~= seq![n0, n1]) by {
                lemma_analyzed_one(inside, scope, id, o0);
                lemma_analyzed_push(inside, scope, id, seq![o0], o1);
                assert(seq![o0].push(o1) =~= seq![o0, o1]);
            }
        }
    }

    /// Analyzes what stands in parentheses.
    #[verifier::rlimit(60)]
    pub(crate) fn visit_parenthesized(
        &mut self,
        scope: ScopeId,
        node: NodeId,
        part: &mut ParenthesizedExpression,
    )
        requires
            old(self).wf(),
            old(self)@.scoping.has_scope(scope),
        ensures
            final(self).wf(),
            final(self)@.scoping.extends(old(self)@.scoping),
            final(self)@ == analyzed(
                old(self)@,
                scope,
                node,
                Outline::plain(seq![expression_outline(old(part).expression)]),
            ).state,
            Outline::plain(seq![expression_outline(final(part).expression)]) == analyzed(
                old(self)@,
                scope,
                node,
                Outline::plain(seq![expression_outline(old(part).expression)]),
            ).outline,
        decreases *old(part), 0nat,
    {
        let ghost start = self@;
        let id = node;
        let ghost inside = self@;
        let ghost o0 = expression_outline(part.expression);
        let ghost s0 = self@;
        self.visit_expression(scope, id, &mut part.expression);
        proof {
            let s1 = self@;
            lemma_extends_transitive(start.scoping, s0.scoping, s1.scoping);
            let n0 = expression_outline(part.expression);
            assert(
                analyzed(s0, scope, id, o0).state == s1 && analyzed(s0, scope, id, o0).outline == n0
            );
            let all = analyzed_all(inside, scope, id, seq![o0]);
            assert(all.state == self@ && all.outlines =~= seq![n0]) by {
                lemma_analyzed_one(inside, scope, id, o0);
            }
        }
    }

    /// Analyzes the operand of a unary operation.
    #[verifier::rlimit(60)]
    pub(crate) fn visit_unary(&mut self, scope: ScopeId, node: NodeId, part: &mut UnaryExpression)
        requires
            old(self).wf(),
            old(self)@.scoping.has_scope(scope),
        ensures
            final(self).wf(),
            final(self)@.scoping.extends(old(self)@.scoping),
            final(self)@ == analyzed(
                old(self)@,
                scope,
                node,
                Outline::plain(seq![expression_outline(old(part).argument)]),
            ).state,
            Outline::plain(seq![expression_outline(final(part).argument)]) == analyzed(
                old(self)@,
                scope,
                node,
                Outline::plain(seq![expression_outline(old(part).argument)]),
            ).outline,
        decreases *old(part), 0nat,
    {
        let ghost start = self@;
        let id = node;
        let ghost inside = self@;
        let ghost o0 = expression_outline(part.argument);
        let ghost s0 = self@;
        self.visit_expression(scope, id, &mut part.argument);
        proof {
            let s1 = self@;
            lemma_extends_transitive(start.scoping, s0.scoping, s1.scoping);
            let n0 = expression_outline(part.argument);
            assert(
                analyzed(s0, scope, id, o0).state == s1 && analyzed(s0, scope, id, o0).outline == n0
            );
            let all = analyzed_all(inside, scope, id, seq![o0]);
            assert(all.state == self@ && all.outlines =~= seq![n0]) by {
                lemma_analyzed_one(inside, scope, id, o0);
            }
        }
    }

    /// Analyzes the expression under a type annotation.
    #[verifier::rlimit(60)]
    pub(crate) fn visit_ts_as(&mut self, scope: ScopeId, node: NodeId, part: &mut TSAsExpression)
        requires
            old(self).wf(),
            old(self)@.scoping.has_scope(scope),
        ensures
            final(self).wf(),
            final(self)@.scoping.extends(old(self)@.scoping),
            final(self)@ == analyzed(
                old(self)@,
                scope,
                node,
                Outline::plain(seq![expression_outline(old(part).expression)]),
            ).state,
            Outline::plain(seq![expression_outline(final(part).expression)]) == analyzed(
                old(self)@,
                scope,
                node,
                Outline::plain(seq![expression_outline(old(part).expression)]),
            ).outline,
        decreases *old(part), 0nat,
    {
        let ghost start = self@;
        let id = node;
        let ghost inside = self@;
        let ghost o0 = expression_outline(part.expression);
        let ghost s0 = self@;
        self.visit_expression(scope, id, &mut part.expression);
        proof {
            let s1 = self@;
            lemma_extends_transitive(start.scoping, s0.scoping, s1.scoping);
            let n0 = expression_outline(part.expression);
            assert(
                analyzed(s0, scope, id, o0).state == s1 && analyzed(s0, scope, id, o0).outline == n0
            );
            let all = analyzed_all(inside, scope, id, seq![o0]);
            assert(all.state == self@ && all.outlines =~= seq![n0]) by {
                lemma_analyzed_one(inside, scope, id, o0);
            }
        }
    }

    /// Analyzes the expression under a non-null assertion.
    #[verifier::rlimit(60)]
    pub(crate) fn visit_ts_non_null(
        &mut self,
        scope: ScopeId,
        node: NodeId,
        part: &mut TSNonNullExpression,
    )
        requires
            old(self).wf(),
            old(self)@.scoping.has_scope(scope),
        ensures
            final(self).wf(),
            final(self)@.scoping.extends(old(self)@.scoping),
            final(self)@ == analyzed(
                old(self)@,
                scope,
                node,
                Outline::plain(seq![expression_outline(old(part).expression)]),
            ).state,
            Outline::plain(seq![expression_outline(final(part).expression)]) == analyzed(
                old(self)@,
                scope,
                node,
                Outline::plain(seq![expression_outline(old(part).expression)]),
            ).outline,
        decreases *old(part), 0nat,
    {
        let ghost start = self@;
        let id = node;
        let ghost inside = self@;
        let ghost o0 = expression_outline(part.expression);
        let ghost s0 = self@;
        self.visit_expression(scope, id, &mut part.expression);
        proof {
            let s1 = self@;
            lemma_extends_transitive(start.scoping, s0.scoping, s1.scoping);
            let n0 = expression_outline(part.expression);
            assert(
                analyzed(s0, scope, id, o0).state == s1 && analyzed(s0, scope, id, o0).outline == n0
            );
            let all = analyzed_all(inside, scope, id, seq![o0]);
            assert(all.state == self@ && all.outlines =~= seq![n0]) by {
                lemma_analyzed_one(inside, scope, id, o0);
            }
        }
    }

    /// Analyzes object and subscript of a member access.
    #[verifier::rlimit(60)]
    pub(crate) fn visit_computed_member(
        &mut self,
        scope: ScopeId,
        node: NodeId,
        part: &mut ComputedMemberExpression,
    )
        requires
            old(self).wf(),
            old(self)@.scoping.has_scope(scope),
        ensures
            final(self).wf(),
            final(self)@.scoping.extends(old(self)@.scoping),
            final(self)@ == analyzed(
                old(self)@,
                scope,
                node,
                Outline::plain(
                    seq![
                        expression_outline(old(part).object),
                        expression_outline(old(part).expression),
                    ]
                ),
            ).state,
            Outline::plain(
                seq![
                    expression_outline(final(part).object),
                    expression_outline(final(part).expression),
                ]
            )
                == analyzed(
                    old(self)@,
                    scope,
                    node,
                    Outline::plain(
                        seq![
                            expression_outline(old(part).object),
                            expression_outline(old(part).expression),
                        ]
                    ),
                ).outline,
        decreases *old(part), 0nat,
    {
        let ghost start = self@;
        let id = node;
        let ghost inside = self@;
        let ghost o0 = expression_outline(part.object);
        let ghost o1 = expression_outline(part.expression);
        let ghost s0 = self@;
        self.visit_expression(scope, id, &mut part.object);
        let ghost s1 = self@;
        self.visit_expression(scope, id, &mut part.expression);
        proof {
            let s2 = self@;
            lemma_extends_transitive(start.scoping, s0.scoping, s1.scoping);
            lemma_extends_transitive(start.scoping, s1.scoping, s2.scoping);
            let n0 = expression_outline(part.object);
            let n1 = expression_outline(part.expression);
            assert(
                analyzed(s0, scope, id, o0).state == s1 && analyzed(s0, scope, id, o0).outline == n0
            );
            assert(
                analyzed(s1, scope, id, o1).state == s2 && analyzed(s1, scope, id, o1).outline == n1
            );
            let all = analyzed_all(inside, scope, id, seq![o0, o1]);
            assert(all.state == self@ && all.outlines =~= seq![n0, n1]) by {
                lemma_analyzed_one(inside, scope, id, o0);
                lemma_analyzed_push(inside, scope, id, seq![o0], o1);
                assert(seq![o0].push(o1) =~= seq![o0, o1]);
            }
        }
    }

    /// Analyzes the object of a member access.
    #[verifier::rlimit(60)]
    pub(crate) fn visit_static_member(
        &mut self,
        scope: ScopeId,
        node: NodeId,
        part: &mut StaticMemberExpression,
    )
        requires
            old(self).wf(),
            old(self)@.scoping.has_scope(scope),
        ensures
            final(self).wf(),
            final(self)@.scoping.extends(old(self)@.scoping),
            final(self)@ == analyzed(
                old(self)@,
                scope,
                node,
                Outline::plain(seq![expression_outline(old(part).object)]),
            ).state,
            Outline::plain(seq![expression_outline(final(part).object)]) == analyzed(
                old(self)@,
                scope,
                node,
                Outline::plain(seq![expression_outline(old(part).object)]),
            ).outline,
        decreases *old(part), 0nat,
    {
        let ghost start = self@;
        let id = node;
        let ghost inside = self@;
        let ghost o0 = expression_outline(part.object);
        let ghost s0 = self@;
        self.visit_expression(scope, id, &mut part.object);
        proof {
            let s1 = self@;
            lemma_extends_transitive(start.scoping, s0.scoping, s1.scoping);
            let n0 = expression_outline(part.object);
            assert(
                analyzed(s0, scope, id, o0).state == s1 && analyzed(s0, scope, id, o0).outline == n0
            );
            let all = analyzed_all(inside, scope, id, seq![o0]);
            assert(all.state == self@ && all.outlines =~= seq![n0]) by {
                lemma_analyzed_one(inside, scope, id, o0);
            }
        }
    }

    /// Analyzes the object of a private field access.
    #[verifier::rlimit(60)]
    pub(crate) fn visit_private_field(
        &mut self,
        scope: ScopeId,
        node: NodeId,
        part: &mut PrivateFieldExpression,
    )
        requires
            old(self).wf(),
            old(self)@.scoping.has_scope(scope),
        ensures
            final(self).wf(),
            final(self)@.scoping.extends(old(self)@.scoping),
            final(self)@ == analyzed(
                old(self)@,
                scope,
                node,
                Outline::plain(seq![expression_outline(old(part).object)]),
            ).state,
            Outline::plain(seq![expression_outline(final(part).object)]) == analyzed(
                old(self)@,
                scope,
                node,
                Outline::plain(seq![expression_outline(old(part).object)]),
            ).outline,
        decreases *old(part), 0nat,
    {
        let ghost start = self@;
        let id = node;
        let ghost inside = self@;
        let ghost o0 = expression_outline(part.object);
        let ghost s0 = self@;
        self.visit_expression(scope, id, &mut part.object);
        proof {
            let s1 = self@;
            lemma_extends_transitive(start.scoping, s0.scoping, s1.scoping);
            let n0 = expression_outline(part.object);
            assert(
                analyzed(s0, scope, id, o0).state == s1 && analyzed(s0, scope, id, o0).outline == n0
            );
            let all = analyzed_all(inside, scope, id, seq![o0]);
            assert(all.state == self@ && all.outlines =~= seq![n0]) by {
                lemma_analyzed_one(inside, scope, id, o0);
            }
        }
    }

    /// Analyzes the target of an assignment or update.
    pub(crate) fn visit_target(
        &mut self,
        scope: ScopeId,
        node: NodeId,
        target: &mut AssignmentTarget,
        flags: ReferenceFlags,
    )
        requires
            old(self).wf(),
            old(self)@.scoping.has_scope(scope),
        ensures
            final(self).wf(),
            final(self)@.scoping.extends(old(self)@.scoping),
            final(self)@ == analyzed(
                old(self)@,
                scope,
                node,
                target_outline(*old(target), flags),
            ).state,
            target_outline(*final(target), flags) == analyzed(
                old(self)@,
                scope,
                node,
                target_outline(*old(target), flags),
            ).outline,
        decreases *old(target),
    {
        proof {
            reveal(target_outline);
            reveal(expression_outline);
        }
        match target {
            AssignmentTarget::AssignmentTargetIdentifier(identifier) => {
                self.use_name(scope, identifier, flags);
            },
            AssignmentTarget::ComputedMemberExpression(m) => {
                self.visit_computed_member(scope, node, m);
            },
            AssignmentTarget::StaticMemberExpression(m) => {
                self.visit_static_member(scope, node, m);
            },
            AssignmentTarget::PrivateFieldExpression(m) => {
                self.visit_private_field(scope, node, m);
            },
        }
    }

    /// Analyzes the element of an optional chain.
    pub(crate) fn visit_chain(&mut self, scope: ScopeId, node: NodeId, element: &mut ChainElement)
        requires
            old(self).wf(),
            old(self)@.scoping.has_scope(scope),
        ensures
            final(self).wf(),
            final(self)@.scoping.extends(old(self)@.scoping),
            final(self)@ == analyzed(
                old(self)@,
                scope,
                node,
                chain_outline(*old(element)),
            ).state,
            chain_outline(*final(element)) == analyzed(
                old(self)@,
                scope,
                node,
                chain_outline(*old(element)),
            ).outline,
        decreases *old(element),
    {
        proof {
            reveal(chain_outline);
            reveal(expression_outline);
        }
        match element {
            ChainElement::CallExpression(call) => {
                self.visit_call(scope, node, call);
            },
            ChainElement::ComputedMemberExpression(m) => {
                self.visit_computed_member(scope, node, m);
            },
            ChainElement::StaticMemberExpression(m) => {
                self.visit_static_member(scope, node, m);
            },
            ChainElement::PrivateFieldExpression(m) => {
                self.visit_private_field(scope, node, m);
            },
        }
    }

    /// Analyzes an expression.
    pub fn visit_expression(&mut self, scope: ScopeId, node: NodeId, expression: &mut Expression)
        requires
            old(self).wf(),
            old(self)@.scoping.has_scope(scope),
        ensures
            final(self).wf(),
            final(self)@.scoping.extends(old(self)@.scoping),
            final(self)@ == analyzed(
                old(self)@,
                scope,
                node,
                expression_outline(*old(expression)),
            ).state,
            expression_outline(*final(expression)) == analyzed(
                old(self)@,
                scope,
                node,
                expression_outline(*old(expression)),
            ).outline,
        decreases *old(expression),
    {
        proof {
            reveal(expression_outline);
            reveal(target_outline);
            reveal(chain_outline);
            reveal(arrow_outline);
            reveal(function_outline);
        }
        match expression {
            Expression::BooleanLiteral(_) => {
                proof {
                    lemma_extends_reflexive(self@.scoping);
                    assert(
                        analyzed_all(self@, scope, node, Seq::<Outline>::empty()).outlines
                            =~= Seq::<Outline>::empty()
                    );
                }
            },
            Expression::NullLiteral(_) => {
                proof {
                    lemma_extends_reflexive(self@.scoping);
                    assert(
                        analyzed_all(self@, scope, node, Seq::<Outline>::empty()).outlines
                            =~= Seq::<Outline>::empty()
                    );
                }
            },
            Expression::NumericLiteral(_) => {
                proof {
                    lemma_extends_reflexive(self@.scoping);
                    assert(
                        analyzed_all(self@, scope, node, Seq::<Outline>::empty()).outlines
                            =~= Seq::<Outline>::empty()
                    );
                }
            },
            Expression::BigIntLiteral(_) => {
                proof {
                    lemma_extends_reflexive(self@.scoping);
                    assert(
                        analyzed_all(self@, scope, node, Seq::<Outline>::empty()).outlines
                            =~= Seq::<Outline>::empty()
                    );
                }
            },
            Expression::RegExpLiteral(_) => {
                proof {
                    lemma_extends_reflexive(self@.scoping);
                    assert(
                        analyzed_all(self@, scope, node, Seq::<Outline>::empty()).outlines
                            =~= Seq::<Outline>::empty()
                    );
                }
            },
            Expression::StringLiteral(_) => {
                proof {
                    lemma_extends_reflexive(self@.scoping);
                    assert(
                        analyzed_all(self@, scope, node, Seq::<Outline>::empty()).outlines
                            =~= Seq::<Outline>::empty()
                    );
                }
            },
            Expression::TemplateLiteral(template) => {
                self.visit_template(scope, node, template);
            },
            Expression::Identifier(identifier) => {
                self.use_name(scope, identifier, ReferenceFlags::Read);
            },
            Expression::ArrayExpression(array) => {
                self.visit_array(scope, node, array);
            },
            Expression::ArrowFunctionExpression(function) => {
                self.visit_arrow(scope, node, function);
            },
            Expression::AssignmentExpression(e) => {
                self.visit_assignment(scope, node, e);
            },
            Expression::BinaryExpression(e) => {
                self.visit_binary(scope, node, e);
            },
            Expression::CallExpression(e) => {
                self.visit_call(scope, node, e);
            },
            Expression::ChainExpression(e) => {
                self.visit_chain(scope, node, &mut e.expression);
            },
            Expression::FunctionExpression(function) => {
                self.visit_function(scope, node, function, false);
            },
            Expression::NewExpression(e) => {
                self.visit_new(scope, node, e);
            },
            Expression::ParenthesizedExpression(e) => {
                self.visit_parenthesized(scope, node, e);
            },
            Expression::UnaryExpression(e) => {
                self.visit_unary(scope, node, e);
            },
            Expression::UpdateExpression(e) => {
                self.visit_target(scope, node, &mut e.argument, ReferenceFlags::ReadWrite);
            },
            Expression::YieldExpression(e) => {
                self.visit_optional_expression(scope, node, &mut e.argument);
            },
            Expression::ComputedMemberExpression(e) => {
                self.visit_computed_member(scope, node, e);
            },
            Expression::StaticMemberExpression(e) => {
                self.visit_static_member(scope, node, e);
            },
            Expression::PrivateFieldExpression(e) => {
                self.visit_private_field(scope, node, e);
            },
            Expression::TSAsExpression(e) => {
                self.visit_ts_as(scope, node, e);
            },
            Expression::TSNonNullExpression(e) => {
                self.visit_ts_non_null(scope, node, e);
            },
        }
    }
}

} // verus!
