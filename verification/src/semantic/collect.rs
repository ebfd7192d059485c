//! Filling the node table.
//!
//! The table lists the registered nodes of a tree in the order in which
//! analysis registers them, so that the id that analysis gave a node is
//! the node's position in the table. With each node stands the scope it
//! stands in, read off the scope ids that analysis wrote into the tree.

use crate::ast::kind::AstKind;
use crate::ast::nodes::{
    Argument, ArrayExpressionElement, AssignmentTarget, CallExpression, ChainElement, Class,
    ClassElement, ComputedMemberExpression, Expression, Function, Program, Statement,
    VariableDeclarator,
};
use crate::semantic::nodes::{AstNode, AstNodes};
use crate::syntax::{NodeId, ScopeId};
use vstd::prelude::*;

verus! {

/// A node to register, and the scope it stands in.
pub struct NodeEntry<'a> {
    pub kind: AstKind<'a>,
    pub scope: ScopeId,
}

/// The table after `entries` are registered, in order.
pub open spec fn with_entries<'a>(table: Seq<AstNode<'a>>, entries: Seq<NodeEntry<'a>>) -> Seq<
    AstNode<'a>,
> {
    table + Seq::new(
        entries.len(),
        |i: int|
            AstNode {
                id: NodeId((table.len() + i) as usize),
                kind: entries[i].kind,
                scope_id: entries[i].scope,
            },
    )
}

/// The scope inside a node that opens one: the scope it carries, or the
/// scope around it where it carries none.
pub open spec fn inner_scope(carried: Option<ScopeId>, around: ScopeId) -> ScopeId {
    match carried {
        Some(scope) => scope,
        None => around,
    }
}

/// Registering two lists one after the other is registering their
/// concatenation.
pub proof fn lemma_entries_then<'a>(
    table: Seq<AstNode<'a>>,
    first: Seq<NodeEntry<'a>>,
    second: Seq<NodeEntry<'a>>,
)
    ensures
        with_entries(with_entries(table, first), second) == with_entries(table, first + second),
{
    assert(with_entries(with_entries(table, first), second) =~= with_entries(
        table,
        first + second,
    ));
}

/// Registering nothing leaves the table as it is.
pub proof fn lemma_entries_none<'a>(table: Seq<AstNode<'a>>)
    ensures
        with_entries(table, Seq::<NodeEntry<'a>>::empty()) == table,
{
    assert(with_entries(table, Seq::<NodeEntry<'a>>::empty()) =~= table);
}

/// The registered nodes of a list of statements.
pub open spec fn statements_entries<'a>(list: Seq<Statement>, scope: ScopeId) -> Seq<NodeEntry<'a>>
    decreases list,
{
    if list.len() == 0 {
        Seq::empty()
    } else {
        statements_entries(list.drop_last(), scope) + statement_entries(list.last(), scope)
    }
}

/// The registered nodes of a list of expressions.
pub open spec fn expressions_entries<'a>(
    list: Seq<Expression>,
    scope: ScopeId,
) -> Seq<NodeEntry<'a>>
    decreases list,
{
    if list.len() == 0 {
        Seq::empty()
    } else {
        expressions_entries(list.drop_last(), scope) + expression_entries(list.last(), scope)
    }
}

/// The registered nodes of the arguments of a call.
pub open spec fn arguments_entries<'a>(list: Seq<Argument>, scope: ScopeId) -> Seq<NodeEntry<'a>>
    decreases list,
{
    if list.len() == 0 {
        Seq::empty()
    } else {
        arguments_entries(list.drop_last(), scope) + argument_entries(list.last(), scope)
    }
}

/// The registered nodes of the elements of an array.
pub open spec fn elements_entries<'a>(
    list: Seq<ArrayExpressionElement>,
    scope: ScopeId,
) -> Seq<NodeEntry<'a>>
    decreases list,
{
    if list.len() == 0 {
        Seq::empty()
    } else {
        elements_entries(list.drop_last(), scope) + element_entries(list.last(), scope)
    }
}

/// The registered nodes of the declarators of a declaration.
pub open spec fn declarators_entries<'a>(
    list: Seq<VariableDeclarator>,
    scope: ScopeId,
) -> Seq<NodeEntry<'a>>
    decreases list,
{
    if list.len() == 0 {
        Seq::empty()
    } else {
        declarators_entries(list.drop_last(), scope) + declarator_entries(list.last(), scope)
    }
}

/// The registered nodes of a class body.
pub open spec fn class_body_entries<'a>(
    list: Seq<ClassElement>,
    scope: ScopeId,
) -> Seq<NodeEntry<'a>>
    decreases list,
{
    if list.len() == 0 {
        Seq::empty()
    } else {
        class_body_entries(list.drop_last(), scope) + class_element_entries(list.last(), scope)
    }
}

/// The registered nodes of an expression that may be absent.
pub open spec fn optional_entries<'a>(x: Option<Expression>, scope: ScopeId) -> Seq<NodeEntry<'a>>
    decreases x,
{
    match x {
        Some(e) => expression_entries(e, scope),
        None => Seq::empty(),
    }
}

/// The registered nodes of a statement that may be absent.
pub open spec fn optional_statement_entries<'a>(x: Option<Statement>, scope: ScopeId) -> Seq<
    NodeEntry<'a>,
>
    decreases x,
{
    match x {
        Some(s) => statement_entries(s, scope),
        None => Seq::empty(),
    }
}

/// The registered nodes of an argument.
pub open spec fn argument_entries<'a>(x: Argument, scope: ScopeId) -> Seq<NodeEntry<'a>>
    decreases x,
{
    match x {
        Argument::Expression(e) => expression_entries(e, scope),
        Argument::SpreadElement(s) => expression_entries(s.argument, scope),
    }
}

/// The registered nodes of an array element.
pub open spec fn element_entries<'a>(
    x: ArrayExpressionElement,
    scope: ScopeId,
) -> Seq<NodeEntry<'a>>
    decreases x,
{
    match x {
        ArrayExpressionElement::Expression(e) => expression_entries(e, scope),
        ArrayExpressionElement::SpreadElement(s) => expression_entries(s.argument, scope),
        ArrayExpressionElement::Elision(_) => Seq::empty(),
    }
}

/// The registered nodes of the target of an assignment or update.
pub open spec fn target_entries<'a>(x: AssignmentTarget, scope: ScopeId) -> Seq<NodeEntry<'a>>
    decreases x,
{
    match x {
        AssignmentTarget::AssignmentTargetIdentifier(id) => seq![
            NodeEntry { kind: AstKind::IdentifierReference(&*id), scope }
        ],
        AssignmentTarget::ComputedMemberExpression(m) => (
            expression_entries(m.object, scope) + expression_entries(m.expression, scope)
        ),
        AssignmentTarget::StaticMemberExpression(m) => expression_entries(m.object, scope),
        AssignmentTarget::PrivateFieldExpression(m) => expression_entries(m.object, scope),
    }
}

/// The registered nodes of the element of an optional chain.
pub open spec fn chain_entries<'a>(x: ChainElement, scope: ScopeId) -> Seq<NodeEntry<'a>>
    decreases x,
{
    match x {
        ChainElement::CallExpression(c) => (
            (seq![NodeEntry { kind: AstKind::CallExpression(&*c), scope }] + expression_entries(c.callee, scope)) + arguments_entries(c.arguments@, scope)
        ),
        ChainElement::ComputedMemberExpression(m) => (
            expression_entries(m.object, scope) + expression_entries(m.expression, scope)
        ),
        ChainElement::StaticMemberExpression(m) => expression_entries(m.object, scope),
        ChainElement::PrivateFieldExpression(m) => expression_entries(m.object, scope),
    }
}

/// The registered nodes of a function: the function, then those of its body, which stand in the function's scope.
pub open spec fn function_entries<'a>(x: Function, scope: ScopeId) -> Seq<NodeEntry<'a>>
    decreases x,
{
    let inside = inner_scope(x.scope_id, scope);
    (seq![NodeEntry { kind: AstKind::Function(&x), scope }] + statements_entries(x.body@, inside))
}

/// The registered nodes of a class: the class, then those of its body, which stand in the class's scope.
pub open spec fn class_entries<'a>(x: Class, scope: ScopeId) -> Seq<NodeEntry<'a>>
    decreases x,
{
    let inside = inner_scope(x.scope_id, scope);
    (seq![NodeEntry { kind: AstKind::Class(&x), scope }] + class_body_entries(x.body@, inside))
}

/// The registered nodes of an element of a class body.
pub open spec fn class_element_entries<'a>(x: ClassElement, scope: ScopeId) -> Seq<NodeEntry<'a>>
    decreases x,
{
    match x {
        ClassElement::MethodDefinition(m) => function_entries(m.value, scope),
        ClassElement::PropertyDefinition(p) => optional_entries(p.value, scope),
    }
}

/// The registered nodes of a declarator: the declarator, then those of its initializer.
pub open spec fn declarator_entries<'a>(x: VariableDeclarator, scope: ScopeId) -> Seq<NodeEntry<'a>>
    decreases x,
{
    (
        seq![NodeEntry { kind: AstKind::VariableDeclarator(&x), scope }] + optional_entries(
            x.init,
            scope,
        )
    )
}

/// The registered nodes of a statement, in the order in which analysis registers them.
pub open spec fn statement_entries<'a>(x: Statement, scope: ScopeId) -> Seq<NodeEntry<'a>>
    decreases x,
{
    match x {
        Statement::BlockStatement(b) => (
            seq![NodeEntry { kind: AstKind::BlockStatement(&*b), scope }] + statements_entries(
                b.body@,
                inner_scope(b.scope_id, scope),
            )
        ),
        Statement::EmptyStatement(_) => Seq::empty(),
        Statement::ExpressionStatement(s) => expression_entries(s.expression, scope),
        Statement::IfStatement(s) => (
            (expression_entries(s.test, scope) + statement_entries(s.consequent, scope)) + optional_statement_entries(s.alternate, scope)
        ),
        Statement::ReturnStatement(s) => optional_entries(s.argument, scope),
        Statement::ThrowStatement(s) => expression_entries(s.argument, scope),
        Statement::VariableDeclaration(d) => declarators_entries(d.declarations@, scope),
        Statement::FunctionDeclaration(f) => function_entries(*f, scope),
        Statement::ClassDeclaration(c) => class_entries(*c, scope),
    }
}

/// The registered nodes of an expression, in the order in which analysis registers them.
pub open spec fn expression_entries<'a>(x: Expression, scope: ScopeId) -> Seq<NodeEntry<'a>>
    decreases x,
{
    match x {
        Expression::BooleanLiteral(_) => Seq::empty(),
        Expression::NullLiteral(_) => Seq::empty(),
        Expression::NumericLiteral(_) => Seq::empty(),
        Expression::BigIntLiteral(_) => Seq::empty(),
        Expression::RegExpLiteral(_) => Seq::empty(),
        Expression::StringLiteral(_) => Seq::empty(),
        Expression::TemplateLiteral(t) => expressions_entries(t.expressions@, scope),
        Expression::Identifier(id) => seq![
            NodeEntry { kind: AstKind::IdentifierReference(&*id), scope }
        ],
        Expression::ArrayExpression(a) => elements_entries(a.elements@, scope),
        Expression::ArrowFunctionExpression(f) => (
            seq![NodeEntry { kind: AstKind::ArrowFunctionExpression(&*f), scope }] + statements_entries(f.body@, inner_scope(f.scope_id, scope))
        ),
        Expression::AssignmentExpression(e) => (
            target_entries(e.left, scope) + expression_entries(e.right, scope)
        ),
        Expression::BinaryExpression(e) => (
            expression_entries(e.left, scope) + expression_entries(e.right, scope)
        ),
        Expression::CallExpression(e) => (
            (seq![NodeEntry { kind: AstKind::CallExpression(&*e), scope }] + expression_entries(e.callee, scope)) + arguments_entries(e.arguments@, scope)
        ),
        Expression::ChainExpression(e) => chain_entries(e.expression, scope),
        Expression::FunctionExpression(f) => function_entries(*f, scope),
        Expression::NewExpression(e) => (
            (seq![NodeEntry { kind: AstKind::NewExpression(&*e), scope }] + expression_entries(e.callee, scope)) + arguments_entries(e.arguments@, scope)
        ),
        Expression::ParenthesizedExpression(e) => expression_entries(e.expression, scope),
        Expression::UnaryExpression(e) => expression_entries(e.argument, scope),
        Expression::UpdateExpression(e) => target_entries(e.argument, scope),
        Expression::YieldExpression(e) => optional_entries(e.argument, scope),
        Expression::ComputedMemberExpression(e) => (
            expression_entries(e.object, scope) + expression_entries(e.expression, scope)
        ),
        Expression::StaticMemberExpression(e) => expression_entries(e.object, scope),
        Expression::PrivateFieldExpression(e) => expression_entries(e.object, scope),
        Expression::TSAsExpression(e) => expression_entries(e.expression, scope),
        Expression::TSNonNullExpression(e) => expression_entries(e.expression, scope),
    }
}

/// Registers the nodes of a list of statements.
fn collect_statements<'a>(nodes: &mut AstNodes<'a>, scope: ScopeId, list: &'a Vec<Statement>)
    requires
        old(nodes).wf(),
    ensures
        final(nodes).wf(),
        final(nodes)@ == with_entries(old(nodes)@, statements_entries(list@, scope)),
    decreases list@,
{
    let mut i: usize = 0;
    proof {
        assert(list@.take(0) =~= Seq::<Statement>::empty());
        lemma_entries_none(nodes@);
    }
    while i < list.len()
        invariant
            i <= list.len(),
            nodes.wf(),
            nodes@ == with_entries(old(nodes)@, statements_entries(list@.take(i as int), scope)),
        decreases list.len() - i,
    {
        collect_statement(nodes, scope, &list[i]);
        proof {
            assert(list@.take(i + 1).drop_last() =~= list@.take(i as int));
            assert(list@.take(i + 1).last() == list@[i as int]);
            lemma_entries_then(
                old(nodes)@,
                statements_entries(list@.take(i as int), scope),
                statement_entries(list@[i as int], scope),
            );
        }
        i += 1;
    }
    proof {
        assert(list@.take(i as int) =~= list@);
    }
}

/// Registers the nodes of a list of expressions.
fn collect_expressions<'a>(nodes: &mut AstNodes<'a>, scope: ScopeId, list: &'a Vec<Expression>)
    requires
        old(nodes).wf(),
    ensures
        final(nodes).wf(),
        final(nodes)@ == with_entries(old(nodes)@, expressions_entries(list@, scope)),
    decreases list@,
{
    let mut i: usize = 0;
    proof {
        assert(list@.take(0) =~= Seq::<Expression>::empty());
        lemma_entries_none(nodes@);
    }
    while i < list.len()
        invariant
            i <= list.len(),
            nodes.wf(),
            nodes@ == with_entries(old(nodes)@, expressions_entries(list@.take(i as int), scope)),
        decreases list.len() - i,
    {
        collect_expression(nodes, scope, &list[i]);
        proof {
            assert(list@.take(i + 1).drop_last() =~= list@.take(i as int));
            assert(list@.take(i + 1).last() == list@[i as int]);
            lemma_entries_then(
                old(nodes)@,
                expressions_entries(list@.take(i as int), scope),
                expression_entries(list@[i as int], scope),
            );
        }
        i += 1;
    }
    proof {
        assert(list@.take(i as int) =~= list@);
    }
}

/// Registers the nodes of the arguments of a call.
fn collect_arguments<'a>(nodes: &mut AstNodes<'a>, scope: ScopeId, list: &'a Vec<Argument>)
    requires
        old(nodes).wf(),
    ensures
        final(nodes).wf(),
        final(nodes)@ == with_entries(old(nodes)@, arguments_entries(list@, scope)),
    decreases list@,
{
    let mut i: usize = 0;
    proof {
        assert(list@.take(0) =~= Seq::<Argument>::empty());
        lemma_entries_none(nodes@);
    }
    while i < list.len()
        invariant
            i <= list.len(),
            nodes.wf(),
            nodes@ == with_entries(old(nodes)@, arguments_entries(list@.take(i as int), scope)),
        decreases list.len() - i,
    {
        collect_argument(nodes, scope, &list[i]);
        proof {
            assert(list@.take(i + 1).drop_last() =~= list@.take(i as int));
            assert(list@.take(i + 1).last() == list@[i as int]);
            lemma_entries_then(
                old(nodes)@,
                arguments_entries(list@.take(i as int), scope),
                argument_entries(list@[i as int], scope),
            );
        }
        i += 1;
    }
    proof {
        assert(list@.take(i as int) =~= list@);
    }
}

/// Registers the nodes of the elements of an array.
fn collect_elements<'a>(
    nodes: &mut AstNodes<'a>,
    scope: ScopeId,
    list: &'a Vec<ArrayExpressionElement>,
)
    requires
        old(nodes).wf(),
    ensures
        final(nodes).wf(),
        final(nodes)@ == with_entries(old(nodes)@, elements_entries(list@, scope)),
    decreases list@,
{
    let mut i: usize = 0;
    proof {
        assert(list@.take(0) =~= Seq::<ArrayExpressionElement>::empty());
        lemma_entries_none(nodes@);
    }
    while i < list.len()
        invariant
            i <= list.len(),
            nodes.wf(),
            nodes@ == with_entries(old(nodes)@, elements_entries(list@.take(i as int), scope)),
        decreases list.len() - i,
    {
        collect_element(nodes, scope, &list[i]);
        proof {
            assert(list@.take(i + 1).drop_last() =~= list@.take(i as int));
            assert(list@.take(i + 1).last() == list@[i as int]);
            lemma_entries_then(
                old(nodes)@,
                elements_entries(list@.take(i as int), scope),
                element_entries(list@[i as int], scope),
            );
        }
        i += 1;
    }
    proof {
        assert(list@.take(i as int) =~= list@);
    }
}

/// Registers the nodes of the declarators of a declaration.
fn collect_declarators<'a>(
    nodes: &mut AstNodes<'a>,
    scope: ScopeId,
    list: &'a Vec<VariableDeclarator>,
)
    requires
        old(nodes).wf(),
    ensures
        final(nodes).wf(),
        final(nodes)@ == with_entries(old(nodes)@, declarators_entries(list@, scope)),
    decreases list@,
{
    let mut i: usize = 0;
    proof {
        assert(list@.take(0) =~= Seq::<VariableDeclarator>::empty());
        lemma_entries_none(nodes@);
    }
    while i < list.len()
        invariant
            i <= list.len(),
            nodes.wf(),
            nodes@ == with_entries(old(nodes)@, declarators_entries(list@.take(i as int), scope)),
        decreases list.len() - i,
    {
        collect_declarator(nodes, scope, &list[i]);
        proof {
            assert(list@.take(i + 1).drop_last() =~= list@.take(i as int));
            assert(list@.take(i + 1).last() == list@[i as int]);
            lemma_entries_then(
                old(nodes)@,
                declarators_entries(list@.take(i as int), scope),
                declarator_entries(list@[i as int], scope),
            );
        }
        i += 1;
    }
    proof {
        assert(list@.take(i as int) =~= list@);
    }
}

/// Registers the nodes of a class body.
fn collect_class_body<'a>(nodes: &mut AstNodes<'a>, scope: ScopeId, list: &'a Vec<ClassElement>)
    requires
        old(nodes).wf(),
    ensures
        final(nodes).wf(),
        final(nodes)@ == with_entries(old(nodes)@, class_body_entries(list@, scope)),
    decreases list@,
{
    let mut i: usize = 0;
    proof {
        assert(list@.take(0) =~= Seq::<ClassElement>::empty());
        lemma_entries_none(nodes@);
    }
    while i < list.len()
        invariant
            i <= list.len(),
            nodes.wf(),
            nodes@ == with_entries(old(nodes)@, class_body_entries(list@.take(i as int), scope)),
        decreases list.len() - i,
    {
        collect_class_element(nodes, scope, &list[i]);
        proof {
            assert(list@.take(i + 1).drop_last() =~= list@.take(i as int));
            assert(list@.take(i + 1).last() == list@[i as int]);
            lemma_entries_then(
                old(nodes)@,
                class_body_entries(list@.take(i as int), scope),
                class_element_entries(list@[i as int], scope),
            );
        }
        i += 1;
    }
    proof {
        assert(list@.take(i as int) =~= list@);
    }
}

/// Registers the nodes of an expression that may be absent.
fn collect_optional<'a>(nodes: &mut AstNodes<'a>, scope: ScopeId, x: &'a Option<Expression>)
    requires
        old(nodes).wf(),
    ensures
        final(nodes).wf(),
        final(nodes)@ == with_entries(old(nodes)@, optional_entries(*x, scope)),
    decreases *x,
{
    match x {
        Some(e) => {
            collect_expression(nodes, scope, e);
        },
        None => {
            proof {
                lemma_entries_none(nodes@);
            }
        },
    }
}

/// Registers the nodes of a statement that may be absent.
fn collect_optional_statement<'a>(
    nodes: &mut AstNodes<'a>,
    scope: ScopeId,
    x: &'a Option<Statement>,
)
    requires
        old(nodes).wf(),
    ensures
        final(nodes).wf(),
        final(nodes)@ == with_entries(old(nodes)@, optional_statement_entries(*x, scope)),
    decreases *x,
{
    match x {
        Some(s) => {
            collect_statement(nodes, scope, s);
        },
        None => {
            proof {
                lemma_entries_none(nodes@);
            }
        },
    }
}

/// The registered nodes of an argument.
fn collect_argument<'a>(nodes: &mut AstNodes<'a>, scope: ScopeId, x: &'a Argument)
    requires
        old(nodes).wf(),
    ensures
        final(nodes).wf(),
        final(nodes)@ == with_entries(old(nodes)@, argument_entries(*x, scope)),
    decreases *x,
{
    match x {
        Argument::Expression(e) => {
            let ghost start = nodes@;
            collect_expression(nodes, scope, e);
        },
        Argument::SpreadElement(s) => {
            let ghost start = nodes@;
            collect_expression(nodes, scope, &s.argument);
        },
    }
}

/// The registered nodes of an array element.
fn collect_element<'a>(nodes: &mut AstNodes<'a>, scope: ScopeId, x: &'a ArrayExpressionElement)
    requires
        old(nodes).wf(),
    ensures
        final(nodes).wf(),
        final(nodes)@ == with_entries(old(nodes)@, element_entries(*x, scope)),
    decreases *x,
{
    match x {
        ArrayExpressionElement::Expression(e) => {
            let ghost start = nodes@;
            collect_expression(nodes, scope, e);
        },
        ArrayExpressionElement::SpreadElement(s) => {
            let ghost start = nodes@;
            collect_expression(nodes, scope, &s.argument);
        },
        ArrayExpressionElement::Elision(_) => {
            let ghost start = nodes@;
            proof {
                lemma_entries_none(nodes@);
            }
        },
    }
}

/// The registered nodes of the target of an assignment or update.
fn collect_target<'a>(nodes: &mut AstNodes<'a>, scope: ScopeId, x: &'a AssignmentTarget)
    requires
        old(nodes).wf(),
    ensures
        final(nodes).wf(),
        final(nodes)@ == with_entries(old(nodes)@, target_entries(*x, scope)),
    decreases *x,
{
    match x {
        AssignmentTarget::AssignmentTargetIdentifier(id) => {
            let ghost start = nodes@;
            let ghost table = nodes@;
            nodes.add_node(AstKind::IdentifierReference(&*id), scope);
            proof {
                assert(
                    nodes@ =~= with_entries(
                        table,
                        seq![NodeEntry { kind: AstKind::IdentifierReference(&*id), scope }],
                    )
                );
            }
        },
        AssignmentTarget::ComputedMemberExpression(m) => {
            let ghost start = nodes@;
            collect_expression(nodes, scope, &m.object);
            collect_expression(nodes, scope, &m.expression);
            proof {
                lemma_entries_then(
                    start,
                    expression_entries(m.object, scope),
                    expression_entries(m.expression, scope),
                );
            }
        },
        AssignmentTarget::StaticMemberExpression(m) => {
            let ghost start = nodes@;
            collect_expression(nodes, scope, &m.object);
        },
        AssignmentTarget::PrivateFieldExpression(m) => {
            let ghost start = nodes@;
            collect_expression(nodes, scope, &m.object);
        },
    }
}

/// The registered nodes of the element of an optional chain.
fn collect_chain<'a>(nodes: &mut AstNodes<'a>, scope: ScopeId, x: &'a ChainElement)
    requires
        old(nodes).wf(),
    ensures
        final(nodes).wf(),
        final(nodes)@ == with_entries(old(nodes)@, chain_entries(*x, scope)),
    decreases *x,
{
    match x {
        ChainElement::CallExpression(c) => {
            let ghost start = nodes@;
            let ghost table = nodes@;
            nodes.add_node(AstKind::CallExpression(&*c), scope);
            proof {
                assert(
                    nodes@ =~= with_entries(
                        table,
                        seq![NodeEntry { kind: AstKind::CallExpression(&*c), scope }],
                    )
                );
            }
            collect_expression(nodes, scope, &c.callee);
            proof {
                lemma_entries_then(
                    start,
                    seq![NodeEntry { kind: AstKind::CallExpression(&*c), scope }],
                    expression_entries(c.callee, scope),
                );
            }
            collect_arguments(nodes, scope, &c.arguments);
            proof {
                lemma_entries_then(
                    start,
                    (
                        seq![NodeEntry { kind: AstKind::CallExpression(&*c), scope }] + expression_entries(c.callee, scope)
                    ),
                    arguments_entries(c.arguments@, scope),
                );
            }
        },
        ChainElement::ComputedMemberExpression(m) => {
            let ghost start = nodes@;
            collect_expression(nodes, scope, &m.object);
            collect_expression(nodes, scope, &m.expression);
            proof {
                lemma_entries_then(
                    start,
                    expression_entries(m.object, scope),
                    expression_entries(m.expression, scope),
                );
            }
        },
        ChainElement::StaticMemberExpression(m) => {
            let ghost start = nodes@;
            collect_expression(nodes, scope, &m.object);
        },
        ChainElement::PrivateFieldExpression(m) => {
            let ghost start = nodes@;
            collect_expression(nodes, scope, &m.object);
        },
    }
}

/// The registered nodes of a function: the function, then those of its body, which stand in the function's scope.
fn collect_function<'a>(nodes: &mut AstNodes<'a>, scope: ScopeId, x: &'a Function)
    requires
        old(nodes).wf(),
    ensures
        final(nodes).wf(),
        final(nodes)@ == with_entries(old(nodes)@, function_entries(*x, scope)),
    decreases *x,
{
    let inside = match x.scope_id {
        Some(s) => s,
        None => scope,
    };
    let ghost start = nodes@;
    let ghost table = nodes@;
    nodes.add_node(AstKind::Function(x), scope);
    proof {
        assert(
            nodes@ =~= with_entries(table, seq![NodeEntry { kind: AstKind::Function(&*x), scope }])
        );
    }
    collect_statements(nodes, inside, &x.body);
    proof {
        lemma_entries_then(
            start,
            seq![NodeEntry { kind: AstKind::Function(&*x), scope }],
            statements_entries(x.body@, inside),
        );
    }
}

/// The registered nodes of a class: the class, then those of its body, which stand in the class's scope.
fn collect_class<'a>(nodes: &mut AstNodes<'a>, scope: ScopeId, x: &'a Class)
    requires
        old(nodes).wf(),
    ensures
        final(nodes).wf(),
        final(nodes)@ == with_entries(old(nodes)@, class_entries(*x, scope)),
    decreases *x,
{
    let inside = match x.scope_id {
        Some(s) => s,
        None => scope,
    };
    let ghost start = nodes@;
    let ghost table = nodes@;
    nodes.add_node(AstKind::Class(x), scope);
    proof {
        assert(
            nodes@ =~= with_entries(table, seq![NodeEntry { kind: AstKind::Class(&*x), scope }])
        );
    }
    collect_class_body(nodes, inside, &x.body);
    proof {
        lemma_entries_then(
            start,
            seq![NodeEntry { kind: AstKind::Class(&*x), scope }],
            class_body_entries(x.body@, inside),
        );
    }
}

/// The registered nodes of an element of a class body.
fn collect_class_element<'a>(nodes: &mut AstNodes<'a>, scope: ScopeId, x: &'a ClassElement)
    requires
        old(nodes).wf(),
    ensures
        final(nodes).wf(),
        final(nodes)@ == with_entries(old(nodes)@, class_element_entries(*x, scope)),
    decreases *x,
{
    match x {
        ClassElement::MethodDefinition(m) => {
            let ghost start = nodes@;
            collect_function(nodes, scope, &m.value);
        },
        ClassElement::PropertyDefinition(p) => {
            let ghost start = nodes@;
            collect_optional(nodes, scope, &p.value);
        },
    }
}

/// The registered nodes of a declarator: the declarator, then those of its initializer.
fn collect_declarator<'a>(nodes: &mut AstNodes<'a>, scope: ScopeId, x: &'a VariableDeclarator)
    requires
        old(nodes).wf(),
    ensures
        final(nodes).wf(),
        final(nodes)@ == with_entries(old(nodes)@, declarator_entries(*x, scope)),
    decreases *x,
{
    let ghost start = nodes@;
    let ghost table = nodes@;
    nodes.add_node(AstKind::VariableDeclarator(x), scope);
    proof {
        assert(
            nodes@ =~= with_entries(
                table,
                seq![NodeEntry { kind: AstKind::VariableDeclarator(&*x), scope }],
            )
        );
    }
    collect_optional(nodes, scope, &x.init);
    proof {
        lemma_entries_then(
            start,
            seq![NodeEntry { kind: AstKind::VariableDeclarator(&*x), scope }],
            optional_entries(x.init, scope),
        );
    }
}

/// The scope inside a node that opens one.
fn inside_of(carried: Option<ScopeId>, around: ScopeId) -> (inside: ScopeId)
    ensures
        inside == inner_scope(carried, around),
{
    match carried {
        Some(scope) => scope,
        None => around,
    }
}

/// The registered nodes of a statement, in the order in which analysis registers them.
fn collect_statement<'a>(nodes: &mut AstNodes<'a>, scope: ScopeId, x: &'a Statement)
    requires
        old(nodes).wf(),
    ensures
        final(nodes).wf(),
        final(nodes)@ == with_entries(old(nodes)@, statement_entries(*x, scope)),
    decreases *x,
{
    match x {
        Statement::BlockStatement(b) => {
            let ghost start = nodes@;
            let ghost table = nodes@;
            nodes.add_node(AstKind::BlockStatement(&*b), scope);
            proof {
                assert(
                    nodes@ =~= with_entries(
                        table,
                        seq![NodeEntry { kind: AstKind::BlockStatement(&*b), scope }],
                    )
                );
            }
            collect_statements(nodes, inside_of(b.scope_id, scope), &b.body);
            proof {
                lemma_entries_then(
                    start,
                    seq![NodeEntry { kind: AstKind::BlockStatement(&*b), scope }],
                    statements_entries(b.body@, inner_scope(b.scope_id, scope)),
                );
            }
        },
        Statement::EmptyStatement(_) => {
            let ghost start = nodes@;
            proof {
                lemma_entries_none(nodes@);
            }
        },
        Statement::ExpressionStatement(s) => {
            let ghost start = nodes@;
            collect_expression(nodes, scope, &s.expression);
        },
        Statement::IfStatement(s) => {
            let ghost start = nodes@;
            collect_expression(nodes, scope, &s.test);
            collect_statement(nodes, scope, &s.consequent);
            proof {
                lemma_entries_then(
                    start,
                    expression_entries(s.test, scope),
                    statement_entries(s.consequent, scope),
                );
            }
            collect_optional_statement(nodes, scope, &s.alternate);
            proof {
                lemma_entries_then(
                    start,
                    (expression_entries(s.test, scope) + statement_entries(s.consequent, scope)),
                    optional_statement_entries(s.alternate, scope),
                );
            }
        },
        Statement::ReturnStatement(s) => {
            let ghost start = nodes@;
            collect_optional(nodes, scope, &s.argument);
        },
        Statement::ThrowStatement(s) => {
            let ghost start = nodes@;
            collect_expression(nodes, scope, &s.argument);
        },
        Statement::VariableDeclaration(d) => {
            let ghost start = nodes@;
            collect_declarators(nodes, scope, &d.declarations);
        },
        Statement::FunctionDeclaration(f) => {
            let ghost start = nodes@;
            collect_function(nodes, scope, &*f);
        },
        Statement::ClassDeclaration(c) => {
            let ghost start = nodes@;
            collect_class(nodes, scope, &*c);
        },
    }
}

/// The registered nodes of an expression, in the order in which analysis registers them.
fn collect_expression<'a>(nodes: &mut AstNodes<'a>, scope: ScopeId, x: &'a Expression)
    requires
        old(nodes).wf(),
    ensures
        final(nodes).wf(),
        final(nodes)@ == with_entries(old(nodes)@, expression_entries(*x, scope)),
    decreases *x,
{
    match x {
        Expression::BooleanLiteral(_) => {
            let ghost start = nodes@;
            proof {
                lemma_entries_none(nodes@);
            }
        },
        Expression::NullLiteral(_) => {
            let ghost start = nodes@;
            proof {
                lemma_entries_none(nodes@);
            }
        },
        Expression::NumericLiteral(_) => {
            let ghost start = nodes@;
            proof {
                lemma_entries_none(nodes@);
            }
        },
        Expression::BigIntLiteral(_) => {
            let ghost start = nodes@;
            proof {
                lemma_entries_none(nodes@);
            }
        },
        Expression::RegExpLiteral(_) => {
            let ghost start = nodes@;
            proof {
                lemma_entries_none(nodes@);
            }
        },
        Expression::StringLiteral(_) => {
            let ghost start = nodes@;
            proof {
                lemma_entries_none(nodes@);
            }
        },
        Expression::TemplateLiteral(t) => {
            let ghost start = nodes@;
            collect_expressions(nodes, scope, &t.expressions);
        },
        Expression::Identifier(id) => {
            let ghost start = nodes@;
            let ghost table = nodes@;
            nodes.add_node(AstKind::IdentifierReference(&*id), scope);
            proof {
                assert(
                    nodes@ =~= with_entries(
                        table,
                        seq![NodeEntry { kind: AstKind::IdentifierReference(&*id), scope }],
                    )
                );
            }
        },
        Expression::ArrayExpression(a) => {
            let ghost start = nodes@;
            collect_elements(nodes, scope, &a.elements);
        },
        Expression::ArrowFunctionExpression(f) => {
            let ghost start = nodes@;
            let ghost table = nodes@;
            nodes.add_node(AstKind::ArrowFunctionExpression(&*f), scope);
            proof {
                assert(
                    nodes@ =~= with_entries(
                        table,
                        seq![NodeEntry { kind: AstKind::ArrowFunctionExpression(&*f), scope }],
                    )
                );
            }
            collect_statements(nodes, inside_of(f.scope_id, scope), &f.body);
            proof {
                lemma_entries_then(
                    start,
                    seq![NodeEntry { kind: AstKind::ArrowFunctionExpression(&*f), scope }],
                    statements_entries(f.body@, inner_scope(f.scope_id, scope)),
                );
            }
        },
        Expression::AssignmentExpression(e) => {
            let ghost start = nodes@;
            collect_target(nodes, scope, &e.left);
            collect_expression(nodes, scope, &e.right);
            proof {
                lemma_entries_then(
                    start,
                    target_entries(e.left, scope),
                    expression_entries(e.right, scope),
                );
            }
        },
        Expression::BinaryExpression(e) => {
            let ghost start = nodes@;
            collect_expression(nodes, scope, &e.left);
            collect_expression(nodes, scope, &e.right);
            proof {
                lemma_entries_then(
                    start,
                    expression_entries(e.left, scope),
                    expression_entries(e.right, scope),
                );
            }
        },
        Expression::CallExpression(e) => {
            let ghost start = nodes@;
            let ghost table = nodes@;
            nodes.add_node(AstKind::CallExpression(&*e), scope);
            proof {
                assert(
                    nodes@ =~= with_entries(
                        table,
                        seq![NodeEntry { kind: AstKind::CallExpression(&*e), scope }],
                    )
                );
            }
            collect_expression(nodes, scope, &e.callee);
            proof {
                lemma_entries_then(
                    start,
                    seq![NodeEntry { kind: AstKind::CallExpression(&*e), scope }],
                    expression_entries(e.callee, scope),
                );
            }
            collect_arguments(nodes, scope, &e.arguments);
            proof {
                lemma_entries_then(
                    start,
                    (
                        seq![NodeEntry { kind: AstKind::CallExpression(&*e), scope }] + expression_entries(e.callee, scope)
                    ),
                    arguments_entries(e.arguments@, scope),
                );
            }
        },
        Expression::ChainExpression(e) => {
            let ghost start = nodes@;
            collect_chain(nodes, scope, &e.expression);
        },
        Expression::FunctionExpression(f) => {
            let ghost start = nodes@;
            collect_function(nodes, scope, &*f);
        },
        Expression::NewExpression(e) => {
            let ghost start = nodes@;
            let ghost table = nodes@;
            nodes.add_node(AstKind::NewExpression(&*e), scope);
            proof {
                assert(
                    nodes@ =~= with_entries(
                        table,
                        seq![NodeEntry { kind: AstKind::NewExpression(&*e), scope }],
                    )
                );
            }
            collect_expression(nodes, scope, &e.callee);
            proof {
                lemma_entries_then(
                    start,
                    seq![NodeEntry { kind: AstKind::NewExpression(&*e), scope }],
                    expression_entries(e.callee, scope),
                );
            }
            collect_arguments(nodes, scope, &e.arguments);
            proof {
                lemma_entries_then(
                    start,
                    (
                        seq![NodeEntry { kind: AstKind::NewExpression(&*e), scope }] + expression_entries(e.callee, scope)
                    ),
                    arguments_entries(e.arguments@, scope),
                );
            }
        },
        Expression::ParenthesizedExpression(e) => {
            let ghost start = nodes@;
            collect_expression(nodes, scope, &e.expression);
        },
        Expression::UnaryExpression(e) => {
            let ghost start = nodes@;
            collect_expression(nodes, scope, &e.argument);
        },
        Expression::UpdateExpression(e) => {
            let ghost start = nodes@;
            collect_target(nodes, scope, &e.argument);
        },
        Expression::YieldExpression(e) => {
            let ghost start = nodes@;
            collect_optional(nodes, scope, &e.argument);
        },
        Expression::ComputedMemberExpression(e) => {
            let ghost start = nodes@;
            collect_expression(nodes, scope, &e.object);
            collect_expression(nodes, scope, &e.expression);
            proof {
                lemma_entries_then(
                    start,
                    expression_entries(e.object, scope),
                    expression_entries(e.expression, scope),
                );
            }
        },
        Expression::StaticMemberExpression(e) => {
            let ghost start = nodes@;
            collect_expression(nodes, scope, &e.object);
        },
        Expression::PrivateFieldExpression(e) => {
            let ghost start = nodes@;
            collect_expression(nodes, scope, &e.object);
        },
        Expression::TSAsExpression(e) => {
            let ghost start = nodes@;
            collect_expression(nodes, scope, &e.expression);
        },
        Expression::TSNonNullExpression(e) => {
            let ghost start = nodes@;
            collect_expression(nodes, scope, &e.expression);
        },
    }
}

/// The registered nodes of a program: the program itself, which stands
/// in the program scope, then those of its statements.
pub open spec fn program_entries<'a>(program: &'a Program<'a>) -> Seq<NodeEntry<'a>> {
    seq![NodeEntry { kind: AstKind::Program(program), scope: ScopeId(0) }] + statements_entries(
        program.body@,
        ScopeId(0),
    )
}

/// The node table of an analyzed program.
pub fn collect_nodes<'a>(program: &'a Program<'a>) -> (nodes: AstNodes<'a>)
    ensures
        nodes.wf(),
        nodes@ == with_entries(Seq::empty(), program_entries(program)),
{
    let mut nodes = AstNodes::new();
    let scope = ScopeId(0);
    nodes.add_node(AstKind::Program(program), scope);
    proof {
        assert(nodes@ =~= with_entries(
            Seq::empty(),
            seq![NodeEntry { kind: AstKind::Program(program), scope: ScopeId(0) }],
        ));
    }
    collect_statements(&mut nodes, scope, &program.body);
    proof {
        lemma_entries_then(
            Seq::empty(),
            seq![NodeEntry { kind: AstKind::Program(program), scope: ScopeId(0) }],
            statements_entries(program.body@, ScopeId(0)),
        );
    }
    nodes
}

} // verus!
