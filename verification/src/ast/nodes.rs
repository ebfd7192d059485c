//! Node types.

use crate::span::Span;
use crate::syntax::{ReferenceId, ScopeId, SymbolId};
use vstd::prelude::*;

verus! {

/// The root of one compilation unit.
#[derive(Debug, PartialEq)]
pub struct Program<'a> {
    pub span: Span,
    /// The text the tree was parsed from.
    pub source_text: &'a str,
    pub body: Vec<Statement>,
    pub scope_id: Option<ScopeId>,
}

#[derive(Debug, PartialEq)]
pub enum Statement {
    BlockStatement(Box<BlockStatement>),
    EmptyStatement(Box<EmptyStatement>),
    ExpressionStatement(Box<ExpressionStatement>),
    IfStatement(Box<IfStatement>),
    ReturnStatement(Box<ReturnStatement>),
    ThrowStatement(Box<ThrowStatement>),
    VariableDeclaration(Box<VariableDeclaration>),
    FunctionDeclaration(Box<Function>),
    ClassDeclaration(Box<Class>),
}

#[derive(Debug, PartialEq)]
pub enum Expression {
    BooleanLiteral(Box<BooleanLiteral>),
    NullLiteral(Box<NullLiteral>),
    NumericLiteral(Box<NumericLiteral>),
    BigIntLiteral(Box<BigIntLiteral>),
    RegExpLiteral(Box<RegExpLiteral>),
    StringLiteral(Box<StringLiteral>),
    TemplateLiteral(Box<TemplateLiteral>),
    Identifier(Box<IdentifierReference>),
    ArrayExpression(Box<ArrayExpression>),
    ArrowFunctionExpression(Box<ArrowFunctionExpression>),
    AssignmentExpression(Box<AssignmentExpression>),
    BinaryExpression(Box<BinaryExpression>),
    CallExpression(Box<CallExpression>),
    ChainExpression(Box<ChainExpression>),
    FunctionExpression(Box<Function>),
    NewExpression(Box<NewExpression>),
    ParenthesizedExpression(Box<ParenthesizedExpression>),
    UnaryExpression(Box<UnaryExpression>),
    UpdateExpression(Box<UpdateExpression>),
    YieldExpression(Box<YieldExpression>),
    ComputedMemberExpression(Box<ComputedMemberExpression>),
    StaticMemberExpression(Box<StaticMemberExpression>),
    PrivateFieldExpression(Box<PrivateFieldExpression>),
    TSAsExpression(Box<TSAsExpression>),
    TSNonNullExpression(Box<TSNonNullExpression>),
}

#[derive(Debug, PartialEq)]
pub struct BlockStatement {
    pub span: Span,
    pub body: Vec<Statement>,
    pub scope_id: Option<ScopeId>,
}

#[derive(Debug, PartialEq)]
pub struct EmptyStatement {
    pub span: Span,
}

#[derive(Debug, PartialEq)]
pub struct ExpressionStatement {
    pub span: Span,
    pub expression: Expression,
}

#[derive(Debug, PartialEq)]
pub struct IfStatement {
    pub span: Span,
    pub test: Expression,
    pub consequent: Statement,
    pub alternate: Option<Statement>,
}

#[derive(Debug, PartialEq)]
pub struct ReturnStatement {
    pub span: Span,
    pub argument: Option<Expression>,
}

#[derive(Debug, PartialEq)]
pub struct ThrowStatement {
    pub span: Span,
    pub argument: Expression,
}

#[derive(Debug, Clone, Copy, PartialEq, Eq, Structural)]
pub enum VariableDeclarationKind {
    Var,
    Const,
    Let,
}

#[derive(Debug, PartialEq)]
pub struct VariableDeclaration {
    pub span: Span,
    pub kind: VariableDeclarationKind,
    pub declarations: Vec<VariableDeclarator>,
}

#[derive(Debug, PartialEq)]
pub struct VariableDeclarator {
    pub span: Span,
    pub kind: VariableDeclarationKind,
    pub id: BindingPattern,
    pub init: Option<Expression>,
}

#[derive(Debug, PartialEq)]
pub struct BindingPattern {
    pub kind: BindingPatternKind,
}

#[derive(Debug, PartialEq)]
pub enum BindingPatternKind {
    BindingIdentifier(Box<BindingIdentifier>),
    ArrayPattern(Box<ArrayPattern>),
}

/// An identifier in declaring position.
#[derive(Debug, PartialEq)]
pub struct BindingIdentifier {
    pub span: Span,
    pub name: String,
    pub symbol_id: Option<SymbolId>,
}

#[derive(Debug, PartialEq)]
pub struct ArrayPattern {
    pub span: Span,
    /// Holes in the pattern are `None`.
    pub elements: Vec<Option<BindingPattern>>,
    pub rest: Option<BindingPattern>,
}

/// An identifier in use position.
#[derive(Debug, PartialEq)]
pub struct IdentifierReference {
    pub span: Span,
    pub name: String,
    pub reference_id: Option<ReferenceId>,
}

/// An identifier that names a property and binds nothing.
#[derive(Debug, PartialEq)]
pub struct IdentifierName {
    pub span: Span,
    pub name: String,
}

#[derive(Debug, PartialEq)]
pub struct PrivateIdentifier {
    pub span: Span,
    pub name: String,
}

#[derive(Debug, PartialEq)]
pub struct Function {
    pub span: Span,
    pub id: Option<BindingIdentifier>,
    pub generator: bool,
    pub params: Vec<BindingPattern>,
    pub body: Vec<Statement>,
    pub scope_id: Option<ScopeId>,
}

#[derive(Debug, PartialEq)]
pub struct Class {
    pub span: Span,
    pub id: Option<BindingIdentifier>,
    pub body: Vec<ClassElement>,
    pub scope_id: Option<ScopeId>,
}

#[derive(Debug, PartialEq)]
pub enum ClassElement {
    MethodDefinition(Box<MethodDefinition>),
    PropertyDefinition(Box<PropertyDefinition>),
}

#[derive(Debug, PartialEq)]
pub enum PropertyKey {
    StaticIdentifier(Box<IdentifierName>),
    PrivateIdentifier(Box<PrivateIdentifier>),
}

#[derive(Debug, PartialEq)]
pub struct MethodDefinition {
    pub span: Span,
    pub key: PropertyKey,
    pub value: Function,
}

#[derive(Debug, PartialEq)]
pub struct PropertyDefinition {
    pub span: Span,
    pub key: PropertyKey,
    pub value: Option<Expression>,
}

#[derive(Debug, PartialEq)]
pub struct BooleanLiteral {
    pub span: Span,
    pub value: bool,
}

#[derive(Debug, PartialEq)]
pub struct NullLiteral {
    pub span: Span,
}

#[derive(Debug, PartialEq)]
pub struct NumericLiteral {
    pub span: Span,
    /// The literal as written.
    pub raw: String,
}

#[derive(Debug, PartialEq)]
pub struct BigIntLiteral {
    pub span: Span,
    /// The literal as written, with its `n`.
    pub raw: String,
}

#[derive(Debug, PartialEq)]
pub struct RegExpLiteral {
    pub span: Span,
    pub regex: RegExp,
}

/// Pattern and flags of a regular expression literal.
#[derive(Debug, PartialEq)]
pub struct RegExp {
    pub pattern: RegExpPattern,
    pub flags: RegExpFlags,
}

/// The pattern of a regular expression literal, parsed or not.
#[derive(Debug, PartialEq)]
pub enum RegExpPattern {
    /// Not parsed: the text between the slashes.
    Raw(Box<RawPattern>),
    /// Parsed and found wrong: the text between the slashes.
    Invalid(Box<RawPattern>),
    /// Parsed.
    Pattern(Box<Pattern>),
}

#[derive(Debug, PartialEq)]
pub struct RawPattern {
    pub text: String,
}

/// The flags after the closing slash of a regular expression literal.
#[derive(Debug, Clone, Copy, PartialEq, Eq, Structural)]
pub struct RegExpFlags {
    /// `g`
    pub global: bool,
    /// `i`
    pub ignore_case: bool,
    /// `m`
    pub multiline: bool,
    /// `s`
    pub dot_all: bool,
    /// `u`
    pub unicode: bool,
    /// `y`
    pub sticky: bool,
    /// `d`
    pub has_indices: bool,
    /// `v`
    pub unicode_sets: bool,
}

/// A parsed pattern: a disjunction of alternatives.
#[derive(Debug, PartialEq)]
pub struct Pattern {
    /// Where the pattern stands in the source text.
    pub span: Span,
    pub alternatives: Vec<Alternative>,
}

/// One alternative of a disjunction: a sequence of terms.
#[derive(Debug, PartialEq)]
pub struct Alternative {
    pub span: Span,
    pub terms: Vec<Term>,
}

#[derive(Debug, Clone, Copy, PartialEq, Eq, Structural)]
pub enum LookAroundAssertionKind {
    Lookahead,
    NegativeLookahead,
    Lookbehind,
    NegativeLookbehind,
}

/// What a pass reads of one top-level term of a parsed pattern.
#[derive(Debug, Clone, Copy, PartialEq, Eq, Structural)]
pub enum Term {
    CapturingGroup,
    UnicodePropertyEscape,
    LookAroundAssertion(LookAroundAssertionKind),
    /// Any other term.
    Other,
}

#[derive(Debug, PartialEq)]
pub struct StringLiteral {
    pub span: Span,
    pub value: String,
}

#[derive(Debug, PartialEq)]
pub struct TemplateLiteral {
    pub span: Span,
    pub quasis: Vec<String>,
    pub expressions: Vec<Expression>,
}

#[derive(Debug, PartialEq)]
pub struct ArrayExpression {
    pub span: Span,
    pub elements: Vec<ArrayExpressionElement>,
}

#[derive(Debug, PartialEq)]
pub enum ArrayExpressionElement {
    SpreadElement(Box<SpreadElement>),
    /// A hole, as in `[, a]`.
    Elision(Box<Elision>),
    Expression(Expression),
}

#[derive(Debug, PartialEq)]
pub struct Elision {
    pub span: Span,
}

#[derive(Debug, PartialEq)]
pub struct SpreadElement {
    pub span: Span,
    pub argument: Expression,
}

#[derive(Debug, PartialEq)]
pub enum Argument {
    SpreadElement(Box<SpreadElement>),
    Expression(Expression),
}

#[derive(Debug, PartialEq)]
pub struct ArrowFunctionExpression {
    pub span: Span,
    pub params: Vec<BindingPattern>,
    pub body: Vec<Statement>,
    pub scope_id: Option<ScopeId>,
}

#[derive(Debug, Clone, Copy, PartialEq, Eq, Structural)]
pub enum AssignmentOperator {
    /// `=`
    Assign,
    /// `+=`
    Addition,
    /// `-=`
    Subtraction,
    /// `*=`
    Multiplication,
    /// `/=`
    Division,
    /// `||=`
    LogicalOr,
    /// `&&=`
    LogicalAnd,
    /// `??=`
    LogicalNullish,
}

#[derive(Debug, PartialEq)]
pub enum AssignmentTarget {
    AssignmentTargetIdentifier(Box<IdentifierReference>),
    ComputedMemberExpression(Box<ComputedMemberExpression>),
    StaticMemberExpression(Box<StaticMemberExpression>),
    PrivateFieldExpression(Box<PrivateFieldExpression>),
}

#[derive(Debug, PartialEq)]
pub struct AssignmentExpression {
    pub span: Span,
    pub operator: AssignmentOperator,
    pub left: AssignmentTarget,
    pub right: Expression,
}

#[derive(Debug, Clone, Copy, PartialEq, Eq, Structural)]
pub enum BinaryOperator {
    Equality,
    Inequality,
    StrictEquality,
    StrictInequality,
    LessThan,
    GreaterThan,
    Addition,
    Subtraction,
    Multiplication,
    Division,
    In,
    Instanceof,
}

#[derive(Debug, PartialEq)]
pub struct BinaryExpression {
    pub span: Span,
    pub left: Expression,
    pub operator: BinaryOperator,
    pub right: Expression,
}

#[derive(Debug, PartialEq)]
pub struct CallExpression {
    pub span: Span,
    pub callee: Expression,
    pub arguments: Vec<Argument>,
    /// Whether the call is written `callee?.(..)`.
    pub optional: bool,
}

#[derive(Debug, PartialEq)]
pub struct NewExpression {
    pub span: Span,
    pub callee: Expression,
    pub arguments: Vec<Argument>,
}

#[derive(Debug, PartialEq)]
pub struct ChainExpression {
    pub span: Span,
    pub expression: ChainElement,
}

#[derive(Debug, PartialEq)]
pub enum ChainElement {
    CallExpression(Box<CallExpression>),
    ComputedMemberExpression(Box<ComputedMemberExpression>),
    StaticMemberExpression(Box<StaticMemberExpression>),
    PrivateFieldExpression(Box<PrivateFieldExpression>),
}

#[derive(Debug, PartialEq)]
pub struct ParenthesizedExpression {
    pub span: Span,
    pub expression: Expression,
}

#[derive(Debug, Clone, Copy, PartialEq, Eq, Structural)]
pub enum UnaryOperator {
    UnaryNegation,
    UnaryPlus,
    LogicalNot,
    BitwiseNot,
    Typeof,
    Void,
    Delete,
}

#[derive(Debug, PartialEq)]
pub struct UnaryExpression {
    pub span: Span,
    pub operator: UnaryOperator,
    pub argument: Expression,
}

#[derive(Debug, Clone, Copy, PartialEq, Eq, Structural)]
pub enum UpdateOperator {
    Increment,
    Decrement,
}

#[derive(Debug, PartialEq)]
pub struct UpdateExpression {
    pub span: Span,
    pub operator: UpdateOperator,
    pub prefix: bool,
    pub argument: AssignmentTarget,
}

#[derive(Debug, PartialEq)]
pub struct YieldExpression {
    pub span: Span,
    pub delegate: bool,
    pub argument: Option<Expression>,
}

#[derive(Debug, PartialEq)]
pub struct ComputedMemberExpression {
    pub span: Span,
    pub object: Expression,
    pub expression: Expression,
    pub optional: bool,
}

#[derive(Debug, PartialEq)]
pub struct StaticMemberExpression {
    pub span: Span,
    pub object: Expression,
    pub property: IdentifierName,
    pub optional: bool,
}

#[derive(Debug, PartialEq)]
pub struct PrivateFieldExpression {
    pub span: Span,
    pub object: Expression,
    pub field: PrivateIdentifier,
    pub optional: bool,
}

#[derive(Debug, PartialEq)]
pub struct TSAsExpression {
    pub span: Span,
    pub expression: Expression,
    pub type_annotation: TSType,
}

#[derive(Debug, PartialEq)]
pub struct TSNonNullExpression {
    pub span: Span,
    pub expression: Expression,
}

#[derive(Debug, PartialEq)]
pub enum TSType {
    TSAnyKeyword(Box<TSKeyword>),
    TSNumberKeyword(Box<TSKeyword>),
    TSStringKeyword(Box<TSKeyword>),
    TSTypeReference(Box<TSTypeReference>),
}

#[derive(Debug, PartialEq)]
pub struct TSKeyword {
    pub span: Span,
}

#[derive(Debug, PartialEq)]
pub struct TSTypeReference {
    pub span: Span,
    pub name: IdentifierName,
}

} // verus!
