//! The outline of every kind of node.

use crate::ast::nodes::{
    Argument, ArrayExpressionElement, ArrowFunctionExpression, AssignmentOperator, AssignmentTarget,
    BindingIdentifier, BindingPattern, BindingPatternKind, ChainElement, Class, ClassElement,
    Expression, Function, IdentifierReference, Program, Statement, VariableDeclarationKind,
    VariableDeclarator,
};
use crate::semantic::outline::{Mark, Outline};
use crate::syntax::{ReferenceFlags, ScopeKind, SymbolFlags, SymbolKind};
use vstd::prelude::*;

verus! {

/// The outline of a node that analysis passes by.
pub open spec fn nothing() -> Outline {
    Outline::plain(Seq::empty())
}

/// The flags of what a declaration of the given kind binds: `var` binds
/// for the whole function, `const` binds for good.
pub open spec fn declaration_flags(kind: VariableDeclarationKind) -> SymbolFlags {
    SymbolFlags {
        kind: SymbolKind::Variable,
        mutable: kind != VariableDeclarationKind::Const,
        exported: false,
        function_scoped: kind == VariableDeclarationKind::Var,
    }
}

/// The flags of a parameter.
pub open spec fn parameter_flags() -> SymbolFlags {
    SymbolFlags {
        kind: SymbolKind::Parameter,
        mutable: true,
        exported: false,
        function_scoped: true,
    }
}

/// How the target of an assignment with the given operator is touched:
/// `=` only overwrites, every other operator reads first.
pub open spec fn assignment_flags(operator: AssignmentOperator) -> ReferenceFlags {
    if operator == AssignmentOperator::Assign {
        ReferenceFlags::Write
    } else {
        ReferenceFlags::ReadWrite
    }
}

/// An identifier in declaring position binds its name.
pub open spec fn binding_outline(identifier: BindingIdentifier, flags: SymbolFlags) -> Outline {
    Outline {
        mark: Mark::Binding {
            name: identifier.name@,
            span: identifier.span,
            flags,
            symbol: identifier.symbol_id,
        },
        children: Seq::empty(),
    }
}

/// The name of a function or class, where it has one.
pub open spec fn name_outline(name: Option<BindingIdentifier>, flags: SymbolFlags) -> Outline {
    match name {
        Some(identifier) => binding_outline(identifier, flags),
        None => nothing(),
    }
}

/// An identifier in use position uses its name.
pub open spec fn use_outline(identifier: IdentifierReference, flags: ReferenceFlags) -> Outline {
    Outline {
        mark: Mark::Use {
            name: identifier.name@,
            access: flags,
            reference: identifier.reference_id,
        },
        children: Seq::empty(),
    }
}

/// A pattern binds the identifiers in it, left to right.
#[verifier::opaque]
pub open spec fn pattern_outline(pattern: BindingPattern, flags: SymbolFlags) -> Outline
    decreases pattern,
{
    match pattern.kind {
        BindingPatternKind::BindingIdentifier(identifier) => binding_outline(*identifier, flags),
        BindingPatternKind::ArrayPattern(array) => Outline::plain(seq![
            Outline::plain(pattern_elements_outlines(array.elements@, flags)),
            optional_pattern_outline(array.rest, flags),
        ]),
    }
}

/// A pattern that may be absent.
pub open spec fn optional_pattern_outline(
    pattern: Option<BindingPattern>,
    flags: SymbolFlags,
) -> Outline
    decreases pattern,
{
    match pattern {
        Some(p) => pattern_outline(p, flags),
        None => nothing(),
    }
}

/// The elements of an array pattern.
pub open spec fn pattern_elements_outlines(
    elements: Seq<Option<BindingPattern>>,
    flags: SymbolFlags,
) -> Seq<Outline>
    decreases elements,
{
    if elements.len() == 0 {
        Seq::empty()
    } else {
        pattern_elements_outlines(elements.drop_last(), flags).push(
            optional_pattern_outline(elements.last(), flags),
        )
    }
}

/// The parameters of a function.
pub open spec fn parameters_outlines(parameters: Seq<BindingPattern>) -> Seq<Outline>
    decreases parameters,
{
    if parameters.len() == 0 {
        Seq::empty()
    } else {
        parameters_outlines(parameters.drop_last()).push(
            pattern_outline(parameters.last(), parameter_flags()),
        )
    }
}

/// A function is registered and opens a function scope that holds its
/// parameters and its body. The name of a declaration is bound outside
/// that scope, by the function; the name of a function expression is
/// bound inside it.
#[verifier::opaque]
pub open spec fn function_outline(function: Function, declaration: bool) -> Outline
    decreases function,
{
    let name = name_outline(function.id, SymbolFlags::spec_of_kind(SymbolKind::Function));
    Outline::registered(seq![
        if declaration {
            name
        } else {
            nothing()
        },
        Outline::scoped(ScopeKind::Function, function.scope_id, seq![
            if declaration {
                nothing()
            } else {
                name
            },
            Outline::plain(parameters_outlines(function.params@)),
            Outline::plain(statements_outlines(function.body@)),
        ]),
    ])
}

/// An arrow function is registered and opens a function scope that holds
/// its parameters and its body.
#[verifier::opaque]
pub open spec fn arrow_outline(function: ArrowFunctionExpression) -> Outline
    decreases function,
{
    Outline::registered(seq![
        Outline::scoped(ScopeKind::Function, function.scope_id, seq![
            Outline::plain(parameters_outlines(function.params@)),
            Outline::plain(statements_outlines(function.body@)),
        ]),
    ])
}

/// A class is registered, binds its name outside, and opens a class scope
/// that holds its elements.
#[verifier::opaque]
pub open spec fn class_outline(class: Class) -> Outline
    decreases class,
{
    Outline::registered(seq![
        name_outline(class.id, SymbolFlags::spec_of_kind(SymbolKind::Class)),
        Outline::scoped(ScopeKind::Class, class.scope_id, class_body_outlines(class.body@)),
    ])
}

/// An element of a class body: a method is a function, a property its
/// value.
pub open spec fn class_element_outline(element: ClassElement) -> Outline
    decreases element,
{
    match element {
        ClassElement::MethodDefinition(method) => function_outline(method.value, false),
        ClassElement::PropertyDefinition(property) => optional_expression_outline(property.value),
    }
}

/// The elements of a class body.
pub open spec fn class_body_outlines(body: Seq<ClassElement>) -> Seq<Outline>
    decreases body,
{
    if body.len() == 0 {
        Seq::empty()
    } else {
        class_body_outlines(body.drop_last()).push(class_element_outline(body.last()))
    }
}

/// A declarator is registered and binds the identifiers of its pattern,
/// then its initializer is looked at.
#[verifier::opaque]
pub open spec fn declarator_outline(declarator: VariableDeclarator) -> Outline
    decreases declarator,
{
    Outline::registered(seq![
        pattern_outline(declarator.id, declaration_flags(declarator.kind)),
        optional_expression_outline(declarator.init),
    ])
}

/// The declarators of a declaration.
pub open spec fn declarators_outlines(declarators: Seq<VariableDeclarator>) -> Seq<Outline>
    decreases declarators,
{
    if declarators.len() == 0 {
        Seq::empty()
    } else {
        declarators_outlines(declarators.drop_last()).push(declarator_outline(declarators.last()))
    }
}

/// The outline of a statement.
#[verifier::opaque]
pub open spec fn statement_outline(statement: Statement) -> Outline
    decreases statement,
{
    match statement {
        Statement::BlockStatement(block) => Outline::registered(seq![
            Outline::scoped(ScopeKind::Block, block.scope_id, statements_outlines(block.body@)),
        ]),
        Statement::EmptyStatement(_) => nothing(),
        Statement::ExpressionStatement(s) => Outline::plain(seq![expression_outline(s.expression)]),
        Statement::IfStatement(s) => Outline::plain(seq![
            expression_outline(s.test),
            statement_outline(s.consequent),
            optional_statement_outline(s.alternate),
        ]),
        Statement::ReturnStatement(s) => Outline::plain(
            seq![optional_expression_outline(s.argument)]
        ),
        Statement::ThrowStatement(s) => Outline::plain(seq![expression_outline(s.argument)]),
        Statement::VariableDeclaration(declaration) => Outline::plain(
            declarators_outlines(declaration.declarations@)
        ),
        Statement::FunctionDeclaration(function) => function_outline(*function, true),
        Statement::ClassDeclaration(class) => class_outline(*class),
    }
}

/// A statement that may be absent.
pub open spec fn optional_statement_outline(statement: Option<Statement>) -> Outline
    decreases statement,
{
    match statement {
        Some(s) => statement_outline(s),
        None => nothing(),
    }
}

/// The statements of a list.
pub open spec fn statements_outlines(statements: Seq<Statement>) -> Seq<Outline>
    decreases statements,
{
    if statements.len() == 0 {
        Seq::empty()
    } else {
        statements_outlines(statements.drop_last()).push(statement_outline(statements.last()))
    }
}

/// The outline of an expression.
#[verifier::opaque]
pub open spec fn expression_outline(expression: Expression) -> Outline
    decreases expression,
{
    match expression {
        Expression::BooleanLiteral(_) => nothing(),
        Expression::NullLiteral(_) => nothing(),
        Expression::NumericLiteral(_) => nothing(),
        Expression::BigIntLiteral(_) => nothing(),
        Expression::RegExpLiteral(_) => nothing(),
        Expression::StringLiteral(_) => nothing(),
        Expression::TemplateLiteral(template) => Outline::plain(
            expressions_outlines(template.expressions@)
        ),
        Expression::Identifier(identifier) => use_outline(*identifier, ReferenceFlags::Read),
        Expression::ArrayExpression(array) => Outline::plain(elements_outlines(array.elements@)),
        Expression::ArrowFunctionExpression(function) => arrow_outline(*function),
        Expression::AssignmentExpression(e) => Outline::plain(seq![
            target_outline(e.left, assignment_flags(e.operator)),
            expression_outline(e.right),
        ]),
        Expression::BinaryExpression(e) => Outline::plain(
            seq![expression_outline(e.left), expression_outline(e.right)]
        ),
        Expression::CallExpression(e) => Outline::registered(seq![
            expression_outline(e.callee),
            Outline::plain(arguments_outlines(e.arguments@)),
        ]),
        Expression::ChainExpression(e) => chain_outline(e.expression),
        Expression::FunctionExpression(function) => function_outline(*function, false),
        Expression::NewExpression(e) => Outline::registered(seq![
            expression_outline(e.callee),
            Outline::plain(arguments_outlines(e.arguments@)),
        ]),
        Expression::ParenthesizedExpression(e) => Outline::plain(
            seq![expression_outline(e.expression)]
        ),
        Expression::UnaryExpression(e) => Outline::plain(seq![expression_outline(e.argument)]),
        Expression::UpdateExpression(e) => target_outline(e.argument, ReferenceFlags::ReadWrite),
        Expression::YieldExpression(e) => optional_expression_outline(e.argument),
        Expression::ComputedMemberExpression(e) => Outline::plain(
            seq![expression_outline(e.object), expression_outline(e.expression)]
        ),
        Expression::StaticMemberExpression(e) => Outline::plain(seq![expression_outline(e.object)]),
        Expression::PrivateFieldExpression(e) => Outline::plain(seq![expression_outline(e.object)]),
        Expression::TSAsExpression(e) => Outline::plain(seq![expression_outline(e.expression)]),
        Expression::TSNonNullExpression(e) => Outline::plain(
            seq![expression_outline(e.expression)]
        ),
    }
}

/// An expression that may be absent.
pub open spec fn optional_expression_outline(expression: Option<Expression>) -> Outline
    decreases expression,
{
    match expression {
        Some(e) => expression_outline(e),
        None => nothing(),
    }
}

/// The expressions of a list.
pub open spec fn expressions_outlines(expressions: Seq<Expression>) -> Seq<Outline>
    decreases expressions,
{
    if expressions.len() == 0 {
        Seq::empty()
    } else {
        expressions_outlines(expressions.drop_last()).push(expression_outline(expressions.last()))
    }
}

/// An argument is the expression it holds.
pub open spec fn argument_outline(argument: Argument) -> Outline
    decreases argument,
{
    match argument {
        Argument::Expression(e) => expression_outline(e),
        Argument::SpreadElement(spread) => expression_outline(spread.argument),
    }
}

/// The arguments of a call.
pub open spec fn arguments_outlines(arguments: Seq<Argument>) -> Seq<Outline>
    decreases arguments,
{
    if arguments.len() == 0 {
        Seq::empty()
    } else {
        arguments_outlines(arguments.drop_last()).push(argument_outline(arguments.last()))
    }
}

/// An array element is the expression it holds; a hole is nothing.
pub open spec fn element_outline(element: ArrayExpressionElement) -> Outline
    decreases element,
{
    match element {
        ArrayExpressionElement::Expression(e) => expression_outline(e),
        ArrayExpressionElement::SpreadElement(spread) => expression_outline(spread.argument),
        ArrayExpressionElement::Elision(_) => nothing(),
    }
}

/// The elements of an array.
pub open spec fn elements_outlines(elements: Seq<ArrayExpressionElement>) -> Seq<Outline>
    decreases elements,
{
    if elements.len() == 0 {
        Seq::empty()
    } else {
        elements_outlines(elements.drop_last()).push(element_outline(elements.last()))
    }
}

/// The target of an assignment or update: an identifier is a use with
/// the given flags; of a member access the object is read.
#[verifier::opaque]
pub open spec fn target_outline(target: AssignmentTarget, flags: ReferenceFlags) -> Outline
    decreases target,
{
    match target {
        AssignmentTarget::AssignmentTargetIdentifier(identifier) => use_outline(*identifier, flags),
        AssignmentTarget::ComputedMemberExpression(m) => Outline::plain(
            seq![expression_outline(m.object), expression_outline(m.expression)]
        ),
        AssignmentTarget::StaticMemberExpression(m) => Outline::plain(
            seq![expression_outline(m.object)]
        ),
        AssignmentTarget::PrivateFieldExpression(m) => Outline::plain(
            seq![expression_outline(m.object)]
        ),
    }
}

/// The element of an optional chain.
#[verifier::opaque]
pub open spec fn chain_outline(element: ChainElement) -> Outline
    decreases element,
{
    match element {
        ChainElement::CallExpression(call) => Outline::registered(seq![
            expression_outline(call.callee),
            Outline::plain(arguments_outlines(call.arguments@)),
        ]),
        ChainElement::ComputedMemberExpression(m) => Outline::plain(
            seq![expression_outline(m.object), expression_outline(m.expression)]
        ),
        ChainElement::StaticMemberExpression(m) => Outline::plain(
            seq![expression_outline(m.object)]
        ),
        ChainElement::PrivateFieldExpression(m) => Outline::plain(
            seq![expression_outline(m.object)]
        ),
    }
}

/// The outline of a program: the program is the first registered node
/// and owns the program scope, so what is left to analyze is its
/// statements.
pub open spec fn program_outline(program: Program) -> Seq<Outline> {
    statements_outlines(program.body@)
}

} // verus!
