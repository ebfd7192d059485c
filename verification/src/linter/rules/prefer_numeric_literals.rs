//! Rule: prefer binary, octal and hexadecimal literals to `parseInt`.
//!
//! `parseInt("111110111", 2)` and `Number.parseInt("767", 8)` turn a
//! string of digits into a number at run time. Since the language has
//! literals for the three radixes, the rule asks for those instead:
//! `0b111110111`, `0o767`, `0x1F7`.

use crate::ast::kind::AstKind;
use crate::ast::nodes::{
    Argument, CallExpression, ChainElement, Expression, IdentifierReference, StaticMemberExpression,
};
use crate::linter::ast_util::{get_symbol_id_of_variable, symbol_of_variable};
use crate::diagnostic::{Diagnostic, Severity};
use crate::linter::context::LintContext;
use crate::linter::rule::Rule;
use crate::semantic::model::ScopingModel;
use crate::semantic::nodes::AstNode;
use crate::span::Span;
use vstd::prelude::*;
use vstd::string::StringExecFns;

verus! {

/// The rule.
#[derive(Debug, Default, Clone, Copy)]
pub struct PreferNumericLiterals;

impl PreferNumericLiterals {
    /// The name of the rule.
    pub const NAME: &'static str = "prefer-numeric-literals";
}

/// The name of the kind of literal that stands for the radix written as
/// `raw`: the radixes 2, 8 and 16 have one.
pub open spec fn radix_name(raw: Seq<char>) -> Option<Seq<char>> {
    if raw == "2"@ {
        Some("binary"@)
    } else if raw == "8"@ {
        Some("octal"@)
    } else if raw == "16"@ {
        Some("hexadecimal"@)
    } else {
        None
    }
}

/// The name of the rule.
pub open spec fn rule_name() -> Seq<char> {
    "prefer-numeric-literals"@
}

/// The text of the finding for the kind of literal called `name`.
pub open spec fn finding_message(name: Seq<char>) -> Seq<char> {
    "Use "@ + name + " literals instead of parseInt()."@
}

/// Whether the argument is a string in the source: a string literal or a
/// template.
pub open spec fn spec_is_string_type(argument: Argument) -> bool {
    argument matches Argument::Expression(e) && (e is StringLiteral || e is TemplateLiteral)
}

/// Whether a call through `ident` is a call of the global `parseInt`:
/// `ident` is bound to nothing in the program, and, where the call goes
/// through the member access `member`, that access is `Number.parseInt`.
pub open spec fn spec_is_parse_int_call(
    tables: ScopingModel,
    ident: IdentifierReference,
    member: Option<StaticMemberExpression>,
) -> bool {
    match member {
        Some(m) => ident.name@ == "Number"@ && m.property.name@ == "parseInt"@
            && symbol_of_variable(tables, ident) is None,
        None => symbol_of_variable(tables, ident) is None,
    }
}

/// Whether the callee of `call` is the global `parseInt`, written as
/// `parseInt` or as `Number.parseInt`, with or without parentheses or an
/// optional chain.
pub open spec fn calls_parse_int(tables: ScopingModel, call: CallExpression) -> bool {
    match call.callee.spec_without_parenthesized() {
        Expression::Identifier(ident) => ident.name@ == "parseInt"@ && spec_is_parse_int_call(
            tables,
            *ident,
            None,
        ),
        Expression::StaticMemberExpression(member) => match member.object {
            Expression::Identifier(ident) => spec_is_parse_int_call(tables, *ident, Some(*member)),
            Expression::ParenthesizedExpression(paren) => match paren.expression {
                Expression::Identifier(ident) => spec_is_parse_int_call(
                    tables,
                    *ident,
                    Some(*member),
                ),
                _ => false,
            },
            _ => false,
        },
        Expression::ChainExpression(chain) => match chain.expression {
            ChainElement::StaticMemberExpression(member) => match member.object {
                Expression::Identifier(ident) => spec_is_parse_int_call(
                    tables,
                    *ident,
                    Some(*member),
                ),
                _ => false,
            },
            _ => false,
        },
        _ => false,
    }
}

/// The kind of literal that the arguments of `call` ask for: there are
/// two arguments, the first a string in the source whose value is fixed,
/// the second a numeric literal written as one of the radixes 2, 8, 16.
pub open spec fn arguments_finding(call: CallExpression) -> Option<Seq<char>> {
    if call.arguments@.len() != 2 {
        None
    } else {
        match (call.arguments@[0], call.arguments@[1]) {
            (Argument::Expression(text), Argument::Expression(Expression::NumericLiteral(radix))) => {
                if spec_is_string_type(call.arguments@[0]) && text.spec_is_immutable_value() {
                    radix_name(radix.raw@)
                } else {
                    None
                }
            },
            _ => None,
        }
    }
}

/// What the rule finds at `call`: the kind of literal to use, where the
/// call is one of `parseInt` that a literal can take the place of.
pub open spec fn finding(tables: ScopingModel, call: CallExpression) -> Option<Seq<char>> {
    if calls_parse_int(tables, call) {
        arguments_finding(call)
    } else {
        None
    }
}

/// The finding for the kind of literal called `name`, about `span`.
pub fn prefer_numeric_literals_diagnostic(span: Span, name: &str) -> (diagnostic: Diagnostic)
    ensures
        diagnostic.severity == Severity::Warning,
        diagnostic.span == span,
        diagnostic.message@ == finding_message(name@),
        diagnostic.rule@ == rule_name(),
{
    let mut message = String::from_str("Use ");
    message.append(name);
    message.append(" literals instead of parseInt().");
    Diagnostic::warn(message, span).with_rule(PreferNumericLiterals::NAME)
}

/// Whether the argument is a string in the source.
pub fn is_string_type(argument: &Argument) -> (b: bool)
    ensures
        b == spec_is_string_type(*argument),
{
    match argument {
        Argument::Expression(Expression::StringLiteral(_)) => true,
        Argument::Expression(Expression::TemplateLiteral(_)) => true,
        _ => false,
    }
}

/// Whether a call through `ident` is a call of the global `parseInt`.
pub fn is_parse_int_call(
    ctx: &LintContext<'_>,
    ident: &IdentifierReference,
    static_member_expr: Option<&StaticMemberExpression>,
) -> (b: bool)
    ensures
        b == spec_is_parse_int_call(
            ctx.spec_scoping()@,
            *ident,
            match static_member_expr {
                Some(m) => Some(*m),
                None => None,
            },
        ),
{
    match static_member_expr {
        Some(member) => ident.name.as_str().eq("Number") && member.property.name.as_str().eq(
            "parseInt",
        ) && get_symbol_id_of_variable(ident, ctx.scoping()).is_none(),
        None => get_symbol_id_of_variable(ident, ctx.scoping()).is_none(),
    }
}

/// The name of the kind of literal that stands for the radix written as
/// `raw`.
pub fn radix_literal_name(raw: &str) -> (name: Option<&'static str>)
    ensures
        name is Some == radix_name(raw@) is Some,
        name is Some ==> name.unwrap()@ == radix_name(raw@).unwrap(),
{
    if raw.eq("2") {
        Some("binary")
    } else if raw.eq("8") {
        Some("octal")
    } else if raw.eq("16") {
        Some("hexadecimal")
    } else {
        None
    }
}

/// Records a finding about `call_expr` if its arguments ask for a
/// literal.
pub fn check_arguments(call_expr: &CallExpression, ctx: &mut LintContext<'_>)
    ensures
        final(ctx).spec_scoping() == old(ctx).spec_scoping(),
        final(ctx).spec_nodes() == old(ctx).spec_nodes(),
        match arguments_finding(*call_expr) {
            Some(name) => {
                &&& final(ctx).spec_diagnostics().len() == old(ctx).spec_diagnostics().len() + 1
                &&& final(ctx).spec_diagnostics().drop_last() == old(ctx).spec_diagnostics()
                &&& final(ctx).spec_diagnostics().last().severity == Severity::Warning
                &&& final(ctx).spec_diagnostics().last().span == call_expr.span
                &&& final(ctx).spec_diagnostics().last().message@ == finding_message(name)
                &&& final(ctx).spec_diagnostics().last().rule@ == rule_name()
            },
            None => final(ctx).spec_diagnostics() == old(ctx).spec_diagnostics(),
        },
{
    if call_expr.arguments.len() != 2 {
        return ;
    }
    let string_arg = &call_expr.arguments[0];
    let text = match string_arg.as_expression() {
        Some(text) => text,
        None => {
            return ;
        },
    };
    if !is_string_type(string_arg) || !text.is_immutable_value() {
        return ;
    }
    let radix = match &call_expr.arguments[1] {
        Argument::Expression(Expression::NumericLiteral(radix)) => radix,
        _ => {
            return ;
        },
    };
    match radix_literal_name(radix.raw.as_str()) {
        Some(name) => {
            ctx.diagnostic(prefer_numeric_literals_diagnostic(call_expr.span, name));
            proof {
                assert(ctx.spec_diagnostics().drop_last() =~= old(ctx).spec_diagnostics());
            }
        },
        None => {},
    }
}

impl Rule for PreferNumericLiterals {
    /// Records a finding if `node` is a call of the global `parseInt`
    /// that a literal can take the place of.
    fn run<'a>(&self, node: &AstNode<'a>, ctx: &mut LintContext<'a>)
        ensures
            match node.kind {
                AstKind::CallExpression(call) => match finding(old(ctx).spec_scoping()@, *call) {
                    Some(name) => {
                        &&& final(ctx).spec_diagnostics().len() == old(ctx).spec_diagnostics().len()
                            + 1
                        &&& final(ctx).spec_diagnostics().drop_last() == old(
                            ctx,
                        ).spec_diagnostics()
                        &&& final(ctx).spec_diagnostics().last().severity == Severity::Warning
                        &&& final(ctx).spec_diagnostics().last().span == call.span
                        &&& final(ctx).spec_diagnostics().last().message@ == finding_message(name)
                        &&& final(ctx).spec_diagnostics().last().rule@ == rule_name()
                    },
                    None => final(ctx).spec_diagnostics() == old(ctx).spec_diagnostics(),
                },
                _ => final(ctx).spec_diagnostics() == old(ctx).spec_diagnostics(),
            },
    {
        let call_expr = match node.kind() {
            AstKind::CallExpression(call_expr) => call_expr,
            _ => {
                return ;
            },
        };
        let is_parse_int = match call_expr.callee.without_parenthesized() {
            Expression::Identifier(ident) => ident.name.as_str().eq("parseInt")
                && is_parse_int_call(ctx, ident, None),
            Expression::StaticMemberExpression(member_expr) => match &member_expr.object {
                Expression::Identifier(ident) => is_parse_int_call(ctx, ident, Some(member_expr)),
                Expression::ParenthesizedExpression(paren_expr) => match &paren_expr.expression {
                    Expression::Identifier(ident) => is_parse_int_call(
                        ctx,
                        ident,
                        Some(member_expr),
                    ),
                    _ => false,
                },
                _ => false,
            },
            Expression::ChainExpression(chain_expr) => match &chain_expr.expression {
                ChainElement::StaticMemberExpression(member_expr) => match &member_expr.object {
                    Expression::Identifier(ident) => is_parse_int_call(
                        ctx,
                        ident,
                        Some(member_expr),
                    ),
                    _ => false,
                },
                _ => false,
            },
            _ => false,
        };
        if is_parse_int {
            check_arguments(call_expr, ctx);
        }
    }
}

} // verus!
