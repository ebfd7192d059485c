//! The order in which the walk visits a tree that no hook changes.

use crate::ast::nodes::{
    Argument, ArrayExpressionElement, AssignmentTarget, ChainElement, ClassElement, Expression,
    Program, Statement, VariableDeclarator,
};
use crate::traverse::context::Visit;
use vstd::prelude::*;

verus! {

/// A node that hooks run on.
pub enum Child {
    Statement(Statement),
    Expression(Expression),
}

/// The statements of a list, as children.
pub open spec fn of_statements(statements: Seq<Statement>) -> Seq<Child> {
    Seq::new(statements.len(), |i: int| Child::Statement(statements[i]))
}

/// The expressions of a list, as children.
pub open spec fn of_expressions(expressions: Seq<Expression>) -> Seq<Child> {
    Seq::new(expressions.len(), |i: int| Child::Expression(expressions[i]))
}

/// An optional expression, as children.
pub open spec fn of_optional(expression: Option<Expression>) -> Seq<Child> {
    match expression {
        Some(e) => seq![Child::Expression(e)],
        None => Seq::empty(),
    }
}

/// The expression that an argument holds.
pub open spec fn argument_expression(argument: Argument) -> Expression {
    match argument {
        Argument::Expression(e) => e,
        Argument::SpreadElement(spread) => spread.argument,
    }
}

/// The expressions of an argument list, as children: each argument gives
/// one, a spread the expression it spreads.
pub open spec fn of_arguments(arguments: Seq<Argument>) -> Seq<Child> {
    Seq::new(arguments.len(), |i: int| Child::Expression(argument_expression(arguments[i])))
}

/// The expressions of one array element: a hole has none.
pub open spec fn of_element(element: ArrayExpressionElement) -> Seq<Child> {
    match element {
        ArrayExpressionElement::Expression(e) => seq![Child::Expression(e)],
        ArrayExpressionElement::SpreadElement(spread) => seq![Child::Expression(spread.argument)],
        ArrayExpressionElement::Elision(_) => Seq::empty(),
    }
}

/// The expressions of the elements of an array, as children.
pub open spec fn of_elements(elements: Seq<ArrayExpressionElement>) -> Seq<Child>
    decreases elements.len(),
{
    if elements.len() == 0 {
        Seq::empty()
    } else {
        of_elements(elements.drop_last()) + of_element(elements.last())
    }
}

/// The initializers of a list of declarators, as children.
pub open spec fn of_declarators(declarators: Seq<VariableDeclarator>) -> Seq<Child>
    decreases declarators.len(),
{
    if declarators.len() == 0 {
        Seq::empty()
    } else {
        of_declarators(declarators.drop_last()) + of_optional(declarators.last().init)
    }
}

/// What the walk visits below one element of a class body: the
/// statements of a method, the value of a property.
pub open spec fn of_class_element(element: ClassElement) -> Seq<Child> {
    match element {
        ClassElement::MethodDefinition(method) => of_statements(method.value.body@),
        ClassElement::PropertyDefinition(property) => of_optional(property.value),
    }
}

/// What the walk visits below a class body.
pub open spec fn of_class_body(body: Seq<ClassElement>) -> Seq<Child>
    decreases body.len(),
{
    if body.len() == 0 {
        Seq::empty()
    } else {
        of_class_body(body.drop_last()) + of_class_element(body.last())
    }
}

/// The expressions below the target of an assignment or update. A plain
/// identifier has none.
pub open spec fn of_target(target: AssignmentTarget) -> Seq<Child> {
    match target {
        AssignmentTarget::AssignmentTargetIdentifier(_) => Seq::empty(),
        AssignmentTarget::ComputedMemberExpression(m) => seq![
            Child::Expression(m.object),
            Child::Expression(m.expression),
        ],
        AssignmentTarget::StaticMemberExpression(m) => seq![Child::Expression(m.object)],
        AssignmentTarget::PrivateFieldExpression(m) => seq![Child::Expression(m.object)],
    }
}

/// The expressions below the element of an optional chain.
pub open spec fn of_chain(element: ChainElement) -> Seq<Child> {
    match element {
        ChainElement::CallExpression(call) => seq![Child::Expression(call.callee)] + of_arguments(
            call.arguments@,
        ),
        ChainElement::ComputedMemberExpression(m) => seq![
            Child::Expression(m.object),
            Child::Expression(m.expression),
        ],
        ChainElement::StaticMemberExpression(m) => seq![Child::Expression(m.object)],
        ChainElement::PrivateFieldExpression(m) => seq![Child::Expression(m.object)],
    }
}

/// The nodes that the walk visits directly below a statement, in the
/// order in which it visits them.
pub open spec fn statement_children(statement: Statement) -> Seq<Child> {
    match statement {
        Statement::BlockStatement(block) => of_statements(block.body@),
        Statement::EmptyStatement(_) => Seq::empty(),
        Statement::ExpressionStatement(s) => seq![Child::Expression(s.expression)],
        Statement::IfStatement(s) => seq![
            Child::Expression(s.test),
            Child::Statement(s.consequent),
        ] + match s.alternate {
            Some(alternate) => seq![Child::Statement(alternate)],
            None => Seq::empty(),
        },
        Statement::ReturnStatement(s) => of_optional(s.argument),
        Statement::ThrowStatement(s) => seq![Child::Expression(s.argument)],
        Statement::VariableDeclaration(declaration) => of_declarators(declaration.declarations@),
        Statement::FunctionDeclaration(function) => of_statements(function.body@),
        Statement::ClassDeclaration(class) => of_class_body(class.body@),
    }
}

/// The nodes that the walk visits directly below an expression, in the
/// order in which it visits them.
pub open spec fn expression_children(expression: Expression) -> Seq<Child> {
    match expression {
        Expression::BooleanLiteral(_) => Seq::empty(),
        Expression::NullLiteral(_) => Seq::empty(),
        Expression::NumericLiteral(_) => Seq::empty(),
        Expression::BigIntLiteral(_) => Seq::empty(),
        Expression::RegExpLiteral(_) => Seq::empty(),
        Expression::StringLiteral(_) => Seq::empty(),
        Expression::TemplateLiteral(template) => of_expressions(template.expressions@),
        Expression::Identifier(_) => Seq::empty(),
        Expression::ArrayExpression(array) => of_elements(array.elements@),
        Expression::ArrowFunctionExpression(function) => of_statements(function.body@),
        Expression::AssignmentExpression(e) => of_target(e.left) + seq![Child::Expression(e.right)],
        Expression::BinaryExpression(e) => seq![
            Child::Expression(e.left),
            Child::Expression(e.right),
        ],
        Expression::CallExpression(e) => seq![Child::Expression(e.callee)] + of_arguments(
            e.arguments@,
        ),
        Expression::ChainExpression(e) => of_chain(e.expression),
        Expression::FunctionExpression(function) => of_statements(function.body@),
        Expression::NewExpression(e) => seq![Child::Expression(e.callee)] + of_arguments(
            e.arguments@,
        ),
        Expression::ParenthesizedExpression(e) => seq![Child::Expression(e.expression)],
        Expression::UnaryExpression(e) => seq![Child::Expression(e.argument)],
        Expression::UpdateExpression(e) => of_target(e.argument),
        Expression::YieldExpression(e) => of_optional(e.argument),
        Expression::ComputedMemberExpression(e) => seq![
            Child::Expression(e.object),
            Child::Expression(e.expression),
        ],
        Expression::StaticMemberExpression(e) => seq![Child::Expression(e.object)],
        Expression::PrivateFieldExpression(e) => seq![Child::Expression(e.object)],
        Expression::TSAsExpression(e) => seq![Child::Expression(e.expression)],
        Expression::TSNonNullExpression(e) => seq![Child::Expression(e.expression)],
    }
}

/// The visits of a walk over `child` that may descend `depth` levels: the
/// node is entered, its children are toured in order one level less deep,
/// and the node is left. At depth zero nothing is visited.
pub open spec fn tour(child: Child, depth: nat) -> Seq<Visit>
    decreases depth, 0nat,
{
    if depth == 0 {
        Seq::empty()
    } else {
        match child {
            Child::Statement(s) => seq![Visit::EnterStatement(s.spec_span())] + tour_all(
                statement_children(s),
                (depth - 1) as nat,
            ) + seq![Visit::ExitStatement(s.spec_span())],
            Child::Expression(e) => seq![Visit::EnterExpression(e.spec_span())] + tour_all(
                expression_children(e),
                (depth - 1) as nat,
            ) + seq![Visit::ExitExpression(e.spec_span())],
        }
    }
}

/// The visits of a walk over `children`, first to last.
pub open spec fn tour_all(children: Seq<Child>, depth: nat) -> Seq<Visit>
    decreases depth, 1 + children.len(),
{
    if children.len() == 0 {
        Seq::empty()
    } else {
        tour_all(children.drop_last(), depth) + tour(children.last(), depth)
    }
}

/// Whether a walk over `child` that may descend `depth` levels reaches
/// every node.
pub open spec fn fits(child: Child, depth: nat) -> bool
    decreases depth, 0nat,
{
    depth > 0 && match child {
        Child::Statement(s) => fits_all(statement_children(s), (depth - 1) as nat),
        Child::Expression(e) => fits_all(expression_children(e), (depth - 1) as nat),
    }
}

/// Whether a walk over `children` reaches every node.
pub open spec fn fits_all(children: Seq<Child>, depth: nat) -> bool
    decreases depth, 1 + children.len(),
{
    children.len() == 0 || (fits_all(children.drop_last(), depth) && fits(children.last(), depth))
}

/// The visits of a walk over a whole program.
pub open spec fn program_tour(program: Program, depth: nat) -> Seq<Visit> {
    seq![Visit::EnterProgram] + tour_all(of_statements(program.body@), depth) + seq![
        Visit::ExitProgram,
    ]
}

/// Touring two lists one after the other is touring their concatenation.
pub proof fn lemma_tour_concat(first: Seq<Child>, second: Seq<Child>, depth: nat)
    ensures
        tour_all(first + second, depth) == tour_all(first, depth) + tour_all(second, depth),
        fits_all(first + second, depth) == (fits_all(first, depth) && fits_all(second, depth)),
    decreases second.len(),
{
    if second.len() == 0 {
        assert(first + second =~= first);
        assert(tour_all(first, depth) + Seq::<Visit>::empty() =~= tour_all(first, depth));
    } else {
        lemma_tour_concat(first, second.drop_last(), depth);
        assert((first + second).drop_last() =~= first + second.drop_last());
        assert((first + second).last() == second.last());
        assert(tour_all(first, depth) + (tour_all(second.drop_last(), depth) + tour(
            second.last(),
            depth,
        )) =~= tour_all(first, depth) + tour_all(second.drop_last(), depth) + tour(
            second.last(),
            depth,
        ));
    }
}

/// Touring a list of one node is touring the node.
pub proof fn lemma_tour_one(child: Child, depth: nat)
    ensures
        tour_all(seq![child], depth) == tour(child, depth),
        fits_all(seq![child], depth) == fits(child, depth),
{
    let one = seq![child];
    assert(one.drop_last() =~= Seq::<Child>::empty());
    assert(one.last() == child);
    assert(tour_all(one.drop_last(), depth) =~= Seq::<Visit>::empty());
    assert(fits_all(one.drop_last(), depth));
    assert(Seq::<Visit>::empty() + tour(child, depth) =~= tour(child, depth));
}

/// How many nodes a walk over `child` that may descend `depth` levels
/// reaches.
pub open spec fn reached(child: Child, depth: nat) -> nat
    decreases depth, 0nat,
{
    if depth == 0 {
        0
    } else {
        1 + match child {
            Child::Statement(s) => reached_all(statement_children(s), (depth - 1) as nat),
            Child::Expression(e) => reached_all(expression_children(e), (depth - 1) as nat),
        }
    }
}

/// How many nodes a walk over `children` reaches.
pub open spec fn reached_all(children: Seq<Child>, depth: nat) -> nat
    decreases depth, 1 + children.len(),
{
    if children.len() == 0 {
        0
    } else {
        reached_all(children.drop_last(), depth) + reached(children.last(), depth)
    }
}

/// How many of the visits enter a statement or an expression.
pub open spec fn enters(visits: Seq<Visit>) -> nat
    decreases visits.len(),
{
    if visits.len() == 0 {
        0
    } else {
        enters(visits.drop_last()) + match visits.last() {
            Visit::EnterStatement(_) => 1nat,
            Visit::EnterExpression(_) => 1nat,
            _ => 0nat,
        }
    }
}

/// How many of the visits leave a statement or an expression.
pub open spec fn exits(visits: Seq<Visit>) -> nat
    decreases visits.len(),
{
    if visits.len() == 0 {
        0
    } else {
        exits(visits.drop_last()) + match visits.last() {
            Visit::ExitStatement(_) => 1nat,
            Visit::ExitExpression(_) => 1nat,
            _ => 0nat,
        }
    }
}

/// The visits of two stretches of a walk add up.
pub proof fn lemma_visits_add_up(first: Seq<Visit>, second: Seq<Visit>)
    ensures
        enters(first + second) == enters(first) + enters(second),
        exits(first + second) == exits(first) + exits(second),
    decreases second.len(),
{
    if second.len() == 0 {
        assert(first + second =~= first);
    } else {
        lemma_visits_add_up(first, second.drop_last());
        assert((first + second).drop_last() =~= first + second.drop_last());
        assert((first + second).last() == second.last());
    }
}

/// What one visit counts for.
proof fn lemma_one_visit(visit: Visit)
    ensures
        enters(seq![visit]) == match visit {
            Visit::EnterStatement(_) => 1nat,
            Visit::EnterExpression(_) => 1nat,
            _ => 0nat,
        },
        exits(seq![visit]) == match visit {
            Visit::ExitStatement(_) => 1nat,
            Visit::ExitExpression(_) => 1nat,
            _ => 0nat,
        },
{
    let one = seq![visit];
    assert(one.drop_last() =~= Seq::<Visit>::empty());
    assert(one.last() == visit);
    assert(enters(one.drop_last()) == 0);
    assert(exits(one.drop_last()) == 0);
}

/// Traversal completeness. A walk that no hook disturbs enters every node
/// within its reach exactly once and leaves it exactly once: the tour of
/// a node holds as many enters, and as many exits, as there are nodes
/// within reach.
pub proof fn lemma_tour_visits_each_node_once(child: Child, depth: nat)
    ensures
        enters(tour(child, depth)) == reached(child, depth),
        exits(tour(child, depth)) == reached(child, depth),
    decreases depth, 0nat,
{
    if depth > 0 {
        let below = match child {
            Child::Statement(s) => statement_children(s),
            Child::Expression(e) => expression_children(e),
        };
        let enter = match child {
            Child::Statement(s) => Visit::EnterStatement(s.spec_span()),
            Child::Expression(e) => Visit::EnterExpression(e.spec_span()),
        };
        let exit = match child {
            Child::Statement(s) => Visit::ExitStatement(s.spec_span()),
            Child::Expression(e) => Visit::ExitExpression(e.spec_span()),
        };
        let middle = tour_all(below, (depth - 1) as nat);
        lemma_tour_visits_all_once(below, (depth - 1) as nat);
        assert(tour(child, depth) == seq![enter] + middle + seq![exit]);
        lemma_visits_add_up(seq![enter], middle);
        lemma_visits_add_up(seq![enter] + middle, seq![exit]);
        lemma_one_visit(enter);
        lemma_one_visit(exit);
    }
}

/// The same, for a list of nodes.
pub proof fn lemma_tour_visits_all_once(children: Seq<Child>, depth: nat)
    ensures
        enters(tour_all(children, depth)) == reached_all(children, depth),
        exits(tour_all(children, depth)) == reached_all(children, depth),
    decreases depth, 1 + children.len(),
{
    if children.len() > 0 {
        lemma_tour_visits_all_once(children.drop_last(), depth);
        lemma_tour_visits_each_node_once(children.last(), depth);
        lemma_visits_add_up(tour_all(children.drop_last(), depth), tour(children.last(), depth));
    }
}

/// Every node that is entered is left after its children: a tour that is
/// not empty begins by entering its node and ends by leaving it.
pub proof fn lemma_tour_is_bracketed(child: Child, depth: nat)
    requires
        depth > 0,
    ensures
        tour(child, depth).len() >= 2,
        tour(child, depth).first() == match child {
            Child::Statement(s) => Visit::EnterStatement(s.spec_span()),
            Child::Expression(e) => Visit::EnterExpression(e.spec_span()),
        },
        tour(child, depth).last() == match child {
            Child::Statement(s) => Visit::ExitStatement(s.spec_span()),
            Child::Expression(e) => Visit::ExitExpression(e.spec_span()),
        },
{
}

} // verus!
