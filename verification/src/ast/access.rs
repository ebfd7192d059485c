//! Questions that passes ask of single nodes.

use crate::ast::nodes::{
    Argument, ArrayExpressionElement, BindingIdentifier, BindingPattern, BindingPatternKind,
    CallExpression, ChainElement, ComputedMemberExpression, Expression, PrivateFieldExpression,
    RegExpFlags, Statement, StaticMemberExpression, TemplateLiteral,
};
use crate::span::Span;
use crate::text::push_char;
use vstd::prelude::*;

verus! {

/// A borrowed member access, whichever of the three forms it has.
pub enum MemberExpressionRef<'a> {
    ComputedMemberExpression(&'a ComputedMemberExpression),
    StaticMemberExpression(&'a StaticMemberExpression),
    PrivateFieldExpression(&'a PrivateFieldExpression),
}

/// `text`, followed by `letter` if `on` holds.
pub open spec fn with_flag(text: Seq<char>, on: bool, letter: char) -> Seq<char> {
    if on {
        text.push(letter)
    } else {
        text
    }
}

impl RegExpFlags {
    /// No flag.
    pub fn empty() -> (flags: RegExpFlags)
        ensures
            flags.spec_text() == Seq::<char>::empty(),
            !flags.global && !flags.ignore_case && !flags.multiline && !flags.dot_all
                && !flags.unicode && !flags.sticky && !flags.has_indices && !flags.unicode_sets,
    {
        RegExpFlags {
            global: false,
            ignore_case: false,
            multiline: false,
            dot_all: false,
            unicode: false,
            sticky: false,
            has_indices: false,
            unicode_sets: false,
        }
    }

    /// The flags as written after a literal's closing slash: the letters
    /// of the flags that are set, in the order `g i m s u y d v`.
    pub open spec fn spec_text(self) -> Seq<char> {
        let t = Seq::<char>::empty();
        let t = with_flag(t, self.global, 'g');
        let t = with_flag(t, self.ignore_case, 'i');
        let t = with_flag(t, self.multiline, 'm');
        let t = with_flag(t, self.dot_all, 's');
        let t = with_flag(t, self.unicode, 'u');
        let t = with_flag(t, self.sticky, 'y');
        let t = with_flag(t, self.has_indices, 'd');
        with_flag(t, self.unicode_sets, 'v')
    }

    /// The flags as written after a literal's closing slash.
    pub fn text(&self) -> (text: String)
        ensures
            text@ == self.spec_text(),
    {
        let mut text = String::new();
        if self.global {
            push_char(&mut text, 'g');
        }
        if self.ignore_case {
            push_char(&mut text, 'i');
        }
        if self.multiline {
            push_char(&mut text, 'm');
        }
        if self.dot_all {
            push_char(&mut text, 's');
        }
        if self.unicode {
            push_char(&mut text, 'u');
        }
        if self.sticky {
            push_char(&mut text, 'y');
        }
        if self.has_indices {
            push_char(&mut text, 'd');
        }
        if self.unicode_sets {
            push_char(&mut text, 'v');
        }
        text
    }
}

impl TemplateLiteral {
    pub open spec fn spec_is_no_substitution_template(&self) -> bool {
        self.expressions@.len() == 0 && self.quasis@.len() == 1
    }

    /// Whether the template is a plain string: one piece of text and no
    /// `${..}`.
    pub fn is_no_substitution_template(&self) -> (b: bool)
        ensures
            b == self.spec_is_no_substitution_template(),
    {
        self.expressions.len() == 0 && self.quasis.len() == 1
    }
}

impl ComputedMemberExpression {
    /// The property name, where the subscript is a string or a plain
    /// template.
    pub open spec fn spec_static_property_name(&self) -> Option<Seq<char>> {
        match self.expression {
            Expression::StringLiteral(lit) => Some(lit.value@),
            Expression::TemplateLiteral(lit) => if lit.spec_is_no_substitution_template() {
                Some(lit.quasis@[0]@)
            } else {
                None
            },
            _ => None,
        }
    }

    /// The property name, where the subscript is a string or a plain
    /// template.
    pub fn static_property_name(&self) -> (name: Option<&str>)
        ensures
            name is Some == self.spec_static_property_name() is Some,
            name is Some ==> name.unwrap()@ == self.spec_static_property_name().unwrap(),
    {
        match &self.expression {
            Expression::StringLiteral(lit) => Some(lit.value.as_str()),
            Expression::TemplateLiteral(lit) => {
                if lit.is_no_substitution_template() {
                    Some(lit.quasis[0].as_str())
                } else {
                    None
                }
            },
            _ => None,
        }
    }
}

impl<'a> MemberExpressionRef<'a> {
    /// The expression whose member is accessed.
    pub open spec fn spec_object(self) -> Expression {
        match self {
            MemberExpressionRef::ComputedMemberExpression(m) => m.object,
            MemberExpressionRef::StaticMemberExpression(m) => m.object,
            MemberExpressionRef::PrivateFieldExpression(m) => m.object,
        }
    }

    /// The expression whose member is accessed.
    pub fn object(&self) -> (object: &'a Expression)
        ensures
            *object == self.spec_object(),
    {
        match self {
            MemberExpressionRef::ComputedMemberExpression(m) => &m.object,
            MemberExpressionRef::StaticMemberExpression(m) => &m.object,
            MemberExpressionRef::PrivateFieldExpression(m) => &m.object,
        }
    }

    /// The name of the accessed property, where the source fixes it.
    pub open spec fn spec_static_property_name(self) -> Option<Seq<char>> {
        match self {
            MemberExpressionRef::ComputedMemberExpression(m) => m.spec_static_property_name(),
            MemberExpressionRef::StaticMemberExpression(m) => Some(m.property.name@),
            MemberExpressionRef::PrivateFieldExpression(_) => None,
        }
    }

    /// The name of the accessed property, where the source fixes it.
    pub fn static_property_name(&self) -> (name: Option<&'a str>)
        ensures
            name is Some == self.spec_static_property_name() is Some,
            name is Some ==> name.unwrap()@ == self.spec_static_property_name().unwrap(),
    {
        match self {
            MemberExpressionRef::ComputedMemberExpression(m) => m.static_property_name(),
            MemberExpressionRef::StaticMemberExpression(m) => Some(m.property.name.as_str()),
            MemberExpressionRef::PrivateFieldExpression(_) => None,
        }
    }
}

impl Statement {
    /// Where the statement stands in the source text.
    pub open spec fn spec_span(self) -> Span {
        match self {
            Statement::BlockStatement(node) => node.span,
            Statement::EmptyStatement(node) => node.span,
            Statement::ExpressionStatement(node) => node.span,
            Statement::IfStatement(node) => node.span,
            Statement::ReturnStatement(node) => node.span,
            Statement::ThrowStatement(node) => node.span,
            Statement::VariableDeclaration(node) => node.span,
            Statement::FunctionDeclaration(node) => node.span,
            Statement::ClassDeclaration(node) => node.span,
        }
    }

    /// Where the statement stands in the source text.
    pub fn span(&self) -> (span: Span)
        ensures
            span == self.spec_span(),
    {
        match self {
            Statement::BlockStatement(node) => node.span,
            Statement::EmptyStatement(node) => node.span,
            Statement::ExpressionStatement(node) => node.span,
            Statement::IfStatement(node) => node.span,
            Statement::ReturnStatement(node) => node.span,
            Statement::ThrowStatement(node) => node.span,
            Statement::VariableDeclaration(node) => node.span,
            Statement::FunctionDeclaration(node) => node.span,
            Statement::ClassDeclaration(node) => node.span,
        }
    }
}

impl Expression {
    /// Where the expression stands in the source text.
    pub open spec fn spec_span(self) -> Span {
        match self {
            Expression::BooleanLiteral(node) => node.span,
            Expression::NullLiteral(node) => node.span,
            Expression::NumericLiteral(node) => node.span,
            Expression::BigIntLiteral(node) => node.span,
            Expression::RegExpLiteral(node) => node.span,
            Expression::StringLiteral(node) => node.span,
            Expression::TemplateLiteral(node) => node.span,
            Expression::Identifier(node) => node.span,
            Expression::ArrayExpression(node) => node.span,
            Expression::ArrowFunctionExpression(node) => node.span,
            Expression::AssignmentExpression(node) => node.span,
            Expression::BinaryExpression(node) => node.span,
            Expression::CallExpression(node) => node.span,
            Expression::ChainExpression(node) => node.span,
            Expression::FunctionExpression(node) => node.span,
            Expression::NewExpression(node) => node.span,
            Expression::ParenthesizedExpression(node) => node.span,
            Expression::UnaryExpression(node) => node.span,
            Expression::UpdateExpression(node) => node.span,
            Expression::YieldExpression(node) => node.span,
            Expression::ComputedMemberExpression(node) => node.span,
            Expression::StaticMemberExpression(node) => node.span,
            Expression::PrivateFieldExpression(node) => node.span,
            Expression::TSAsExpression(node) => node.span,
            Expression::TSNonNullExpression(node) => node.span,
        }
    }

    /// Where the expression stands in the source text.
    pub fn span(&self) -> (span: Span)
        ensures
            span == self.spec_span(),
    {
        match self {
            Expression::BooleanLiteral(node) => node.span,
            Expression::NullLiteral(node) => node.span,
            Expression::NumericLiteral(node) => node.span,
            Expression::BigIntLiteral(node) => node.span,
            Expression::RegExpLiteral(node) => node.span,
            Expression::StringLiteral(node) => node.span,
            Expression::TemplateLiteral(node) => node.span,
            Expression::Identifier(node) => node.span,
            Expression::ArrayExpression(node) => node.span,
            Expression::ArrowFunctionExpression(node) => node.span,
            Expression::AssignmentExpression(node) => node.span,
            Expression::BinaryExpression(node) => node.span,
            Expression::CallExpression(node) => node.span,
            Expression::ChainExpression(node) => node.span,
            Expression::FunctionExpression(node) => node.span,
            Expression::NewExpression(node) => node.span,
            Expression::ParenthesizedExpression(node) => node.span,
            Expression::UnaryExpression(node) => node.span,
            Expression::UpdateExpression(node) => node.span,
            Expression::YieldExpression(node) => node.span,
            Expression::ComputedMemberExpression(node) => node.span,
            Expression::StaticMemberExpression(node) => node.span,
            Expression::PrivateFieldExpression(node) => node.span,
            Expression::TSAsExpression(node) => node.span,
            Expression::TSNonNullExpression(node) => node.span,
        }
    }

    /// The expression inside any number of enclosing parentheses.
    pub open spec fn spec_without_parenthesized(self) -> Expression
        decreases self,
    {
        match self {
            Expression::ParenthesizedExpression(p) => p.expression.spec_without_parenthesized(),
            _ => self,
        }
    }

    /// The expression inside any number of enclosing parentheses.
    pub fn without_parenthesized(&self) -> (inner: &Expression)
        ensures
            *inner == self.spec_without_parenthesized(),
        decreases *self,
    {
        match self {
            Expression::ParenthesizedExpression(p) => p.expression.without_parenthesized(),
            _ => self,
        }
    }

    /// The expression inside any number of enclosing parentheses and type
    /// annotations that leave the value alone.
    pub open spec fn spec_get_inner_expression(self) -> Expression
        decreases self,
    {
        match self {
            Expression::ParenthesizedExpression(p) => p.expression.spec_get_inner_expression(),
            Expression::TSAsExpression(e) => e.expression.spec_get_inner_expression(),
            Expression::TSNonNullExpression(e) => e.expression.spec_get_inner_expression(),
            _ => self,
        }
    }

    /// The expression inside any number of enclosing parentheses and type
    /// annotations that leave the value alone.
    pub fn get_inner_expression(&self) -> (inner: &Expression)
        ensures
            *inner == self.spec_get_inner_expression(),
        decreases *self,
    {
        match self {
            Expression::ParenthesizedExpression(p) => p.expression.get_inner_expression(),
            Expression::TSAsExpression(e) => e.expression.get_inner_expression(),
            Expression::TSNonNullExpression(e) => e.expression.get_inner_expression(),
            _ => self,
        }
    }

    /// Whether evaluating the expression always gives the same primitive
    /// value: a literal, a plain template, a unary operation on such a
    /// value, or one of `undefined`, `Infinity`, `NaN`.
    pub open spec fn spec_is_immutable_value(self) -> bool
        decreases self,
    {
        match self {
            Expression::BooleanLiteral(_) => true,
            Expression::NullLiteral(_) => true,
            Expression::NumericLiteral(_) => true,
            Expression::BigIntLiteral(_) => true,
            Expression::RegExpLiteral(_) => true,
            Expression::StringLiteral(_) => true,
            Expression::TemplateLiteral(lit) => lit.spec_is_no_substitution_template(),
            Expression::UnaryExpression(unary) => unary.argument.spec_is_immutable_value(),
            Expression::Identifier(ident) => ident.name@ == "undefined"@ || ident.name@
                == "Infinity"@ || ident.name@ == "NaN"@,
            _ => false,
        }
    }

    /// Whether evaluating the expression always gives the same primitive
    /// value.
    pub fn is_immutable_value(&self) -> (b: bool)
        ensures
            b == self.spec_is_immutable_value(),
        decreases *self,
    {
        match self {
            Expression::BooleanLiteral(_) => true,
            Expression::NullLiteral(_) => true,
            Expression::NumericLiteral(_) => true,
            Expression::BigIntLiteral(_) => true,
            Expression::RegExpLiteral(_) => true,
            Expression::StringLiteral(_) => true,
            Expression::TemplateLiteral(lit) => lit.is_no_substitution_template(),
            Expression::UnaryExpression(unary) => unary.argument.is_immutable_value(),
            Expression::Identifier(ident) => {
                let name = ident.name.as_str();
                name.eq("undefined") || name.eq("Infinity") || name.eq("NaN")
            },
            _ => false,
        }
    }

    pub open spec fn spec_is_member_expression(self) -> bool {
        self is ComputedMemberExpression || self is StaticMemberExpression
            || self is PrivateFieldExpression
    }

    /// The member access that the expression is, if it is one.
    pub fn as_member_expression(&self) -> (member: Option<MemberExpressionRef<'_>>)
        ensures
            member is Some == self.spec_is_member_expression(),
            match *self {
                Expression::ComputedMemberExpression(m) => member == Some(
                    MemberExpressionRef::ComputedMemberExpression(&*m),
                ),
                Expression::StaticMemberExpression(m) => member == Some(
                    MemberExpressionRef::StaticMemberExpression(&*m),
                ),
                Expression::PrivateFieldExpression(m) => member == Some(
                    MemberExpressionRef::PrivateFieldExpression(&*m),
                ),
                _ => member is None,
            },
    {
        match self {
            Expression::ComputedMemberExpression(m) => Some(
                MemberExpressionRef::ComputedMemberExpression(m),
            ),
            Expression::StaticMemberExpression(m) => Some(
                MemberExpressionRef::StaticMemberExpression(m),
            ),
            Expression::PrivateFieldExpression(m) => Some(
                MemberExpressionRef::PrivateFieldExpression(m),
            ),
            _ => None,
        }
    }
}

impl ChainElement {
    /// The member access that the element is, if it is one.
    pub fn as_member_expression(&self) -> (member: Option<MemberExpressionRef<'_>>)
        ensures
            match *self {
                ChainElement::ComputedMemberExpression(m) => member == Some(
                    MemberExpressionRef::ComputedMemberExpression(&*m),
                ),
                ChainElement::StaticMemberExpression(m) => member == Some(
                    MemberExpressionRef::StaticMemberExpression(&*m),
                ),
                ChainElement::PrivateFieldExpression(m) => member == Some(
                    MemberExpressionRef::PrivateFieldExpression(&*m),
                ),
                ChainElement::CallExpression(_) => member is None,
            },
    {
        match self {
            ChainElement::ComputedMemberExpression(m) => Some(
                MemberExpressionRef::ComputedMemberExpression(m),
            ),
            ChainElement::StaticMemberExpression(m) => Some(
                MemberExpressionRef::StaticMemberExpression(m),
            ),
            ChainElement::PrivateFieldExpression(m) => Some(
                MemberExpressionRef::PrivateFieldExpression(m),
            ),
            ChainElement::CallExpression(_) => None,
        }
    }
}

impl CallExpression {
    /// The name under which the callee is called: the identifier itself,
    /// or the property name of a member access where the source fixes it.
    pub open spec fn spec_callee_name(&self) -> Option<Seq<char>> {
        match self.callee {
            Expression::Identifier(ident) => Some(ident.name@),
            Expression::ComputedMemberExpression(m) => m.spec_static_property_name(),
            Expression::StaticMemberExpression(m) => Some(m.property.name@),
            _ => None,
        }
    }

    /// The name under which the callee is called.
    pub fn callee_name(&self) -> (name: Option<&str>)
        ensures
            name is Some == self.spec_callee_name() is Some,
            name is Some ==> name.unwrap()@ == self.spec_callee_name().unwrap(),
    {
        match &self.callee {
            Expression::Identifier(ident) => Some(ident.name.as_str()),
            expr => match expr.as_member_expression() {
                Some(member) => member.static_property_name(),
                None => None,
            },
        }
    }
}

impl Argument {
    /// The argument as an expression; a spread is none.
    pub fn as_expression(&self) -> (expression: Option<&Expression>)
        ensures
            match *self {
                Argument::Expression(e) => expression == Some(&e),
                Argument::SpreadElement(_) => expression is None,
            },
    {
        match self {
            Argument::Expression(e) => Some(e),
            Argument::SpreadElement(_) => None,
        }
    }
}

impl ArrayExpressionElement {
    /// The element as an expression; a spread or a hole is none.
    pub fn as_expression(&self) -> (expression: Option<&Expression>)
        ensures
            match *self {
                ArrayExpressionElement::Expression(e) => expression == Some(&e),
                _ => expression is None,
            },
    {
        match self {
            ArrayExpressionElement::Expression(e) => Some(e),
            _ => None,
        }
    }
}

impl BindingPattern {
    /// The identifier that the pattern binds, where the pattern is a
    /// single identifier.
    pub fn get_binding_identifier(&self) -> (identifier: Option<&BindingIdentifier>)
        ensures
            match self.kind {
                BindingPatternKind::BindingIdentifier(id) => identifier == Some(&*id),
                _ => identifier is None,
            },
    {
        match &self.kind {
            BindingPatternKind::BindingIdentifier(id) => Some(id),
            _ => None,
        }
    }
}

} // verus!
