//! Borrowed handles to nodes of any type.

use crate::ast::nodes::{
    ArrowFunctionExpression, BlockStatement, CallExpression, Class, Function, IdentifierReference,
    NewExpression, Program, VariableDeclarator,
};
use crate::span::Span;
use vstd::prelude::*;

verus! {

/// A borrowed node, whichever type it has.
#[derive(Debug, Clone, Copy)]
pub enum AstKind<'a> {
    Program(&'a Program<'a>),
    BlockStatement(&'a BlockStatement),
    VariableDeclarator(&'a VariableDeclarator),
    Function(&'a Function),
    Class(&'a Class),
    ArrowFunctionExpression(&'a ArrowFunctionExpression),
    CallExpression(&'a CallExpression),
    NewExpression(&'a NewExpression),
    IdentifierReference(&'a IdentifierReference),
}

impl<'a> AstKind<'a> {
    /// Where the node stands in the source text.
    pub open spec fn spec_span(self) -> Span {
        match self {
            AstKind::Program(node) => node.span,
            AstKind::BlockStatement(node) => node.span,
            AstKind::VariableDeclarator(node) => node.span,
            AstKind::Function(node) => node.span,
            AstKind::Class(node) => node.span,
            AstKind::ArrowFunctionExpression(node) => node.span,
            AstKind::CallExpression(node) => node.span,
            AstKind::NewExpression(node) => node.span,
            AstKind::IdentifierReference(node) => node.span,
        }
    }

    /// Where the node stands in the source text.
    pub fn span(&self) -> (span: Span)
        ensures
            span == self.spec_span(),
    {
        match self {
            AstKind::Program(node) => node.span,
            AstKind::BlockStatement(node) => node.span,
            AstKind::VariableDeclarator(node) => node.span,
            AstKind::Function(node) => node.span,
            AstKind::Class(node) => node.span,
            AstKind::ArrowFunctionExpression(node) => node.span,
            AstKind::CallExpression(node) => node.span,
            AstKind::NewExpression(node) => node.span,
            AstKind::IdentifierReference(node) => node.span,
        }
    }

    /// The call that the node is, if it is one.
    pub fn as_call_expression(&self) -> (call: Option<&'a CallExpression>)
        ensures
            match *self {
                AstKind::CallExpression(node) => call == Some(node),
                _ => call is None,
            },
    {
        match self {
            AstKind::CallExpression(node) => Some(*node),
            _ => None,
        }
    }

    /// The declarator that the node is, if it is one.
    pub fn as_variable_declarator(&self) -> (declarator: Option<&'a VariableDeclarator>)
        ensures
            match *self {
                AstKind::VariableDeclarator(node) => declarator == Some(node),
                _ => declarator is None,
            },
    {
        match self {
            AstKind::VariableDeclarator(node) => Some(*node),
            _ => None,
        }
    }
}

} // verus!
