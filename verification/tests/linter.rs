use jscore::ast::kind::AstKind;
use jscore::ast::nodes::{
    BinaryExpression, BinaryOperator, BooleanLiteral, CallExpression, ComputedMemberExpression,
    Expression, IdentifierReference, NullLiteral, NumericLiteral, ParenthesizedExpression,
    StringLiteral, TSAsExpression, TSKeyword, TSNonNullExpression, TSType, TemplateLiteral,
    UnaryExpression, UnaryOperator,
};
use jscore::diagnostic::{Diagnostic, Severity};
use jscore::linter::ast_util::get_symbol_id_of_variable;
use jscore::linter::config::next::{NextPluginSettings, OneOrMany};
use jscore::linter::context::LintContext;
use jscore::linter::rules::prefer_numeric_literals::{
    check_arguments, is_string_type, prefer_numeric_literals_diagnostic, radix_literal_name,
};
use jscore::linter::rules::security::custom::{CustomSecret, CustomSecretError};
use jscore::parser::comments::{Comment, CommentKind, CommentWhitespace};
use jscore::semantic::nodes::AstNodes;
use jscore::semantic::scoping::Scoping;
use jscore::span::Span;
use jscore::syntax::{NodeId, ReferenceFlags, ReferenceId, ScopeId, SymbolFlags, SymbolKind};
use std::borrow::Cow;

fn sp() -> Span {
    Span::new(0, 0)
}

fn id(name: &str) -> Expression {
    Expression::Identifier(Box::new(IdentifierReference {
        span: sp(),
        name: name.to_string(),
        reference_id: None,
    }))
}

fn text(value: &str) -> Expression {
    Expression::StringLiteral(Box::new(StringLiteral { span: sp(), value: value.to_string() }))
}

fn num(raw: &str) -> Expression {
    Expression::NumericLiteral(Box::new(NumericLiteral { span: sp(), raw: raw.to_string() }))
}

#[test]
fn root_dirs_of_the_single_form_and_of_the_list_form() {
    let unset = NextPluginSettings::default();
    assert!(unset.get_root_dirs().is_empty());
    assert!(matches!(unset.get_root_dirs(), Cow::Borrowed(_)));

    let one = NextPluginSettings::new(OneOrMany::One("apps/dashboard/".to_string()));
    assert_eq!(one.get_root_dirs().as_ref(), ["apps/dashboard/".to_string()]);
    assert!(matches!(one.get_root_dirs(), Cow::Owned(_)));

    let many = NextPluginSettings::new(OneOrMany::Many(vec!["a/".to_string(), "b/".to_string()]));
    assert_eq!(many.get_root_dirs().as_ref(), ["a/".to_string(), "b/".to_string()]);
    assert!(matches!(many.get_root_dirs(), Cow::Borrowed(_)));
    assert_eq!(OneOrMany::<String>::default(), OneOrMany::Many(Vec::new()));
}

#[test]
fn comment_whitespace_starts_without_nodes() {
    let comments = vec![
        Comment::new(CommentKind::SingleLine, Span::new(2, 9)),
        Comment::new(CommentKind::MultiLine, Span::new(12, 20)),
    ];
    let whitespace = CommentWhitespace::new(0, 24, comments.clone());
    assert_eq!(whitespace.start, 0);
    assert_eq!(whitespace.end, 24);
    assert_eq!(whitespace.comments, comments);
    assert!(whitespace.leading_node.is_none());
    assert!(whitespace.trailing_node.is_none());
    assert!(whitespace.containing_node.is_none());

    let call = CallExpression { span: Span::new(30, 35), callee: id("f"), arguments: vec![], optional: false };
    let mut whitespace = CommentWhitespace::new(24, 30, Vec::new());
    whitespace.trailing_node = Some(AstKind::CallExpression(&call));
    assert_eq!(whitespace.trailing_node.unwrap().span(), Span::new(30, 35));
    assert!(whitespace.trailing_node.unwrap().as_call_expression().is_some());
    assert!(whitespace.trailing_node.unwrap().as_variable_declarator().is_none());
}

#[test]
fn a_custom_secret_detects_what_its_pattern_matches() {
    let secret = CustomSecret::new(
        "my-token".to_string(),
        "Do not commit tokens".to_string(),
        8,
        Some(64),
        r"^tok_[a-z0-9]{8}$",
    )
    .unwrap();
    assert_eq!(secret.rule_name(), "my-token");
    assert_eq!(secret.message(), "Do not commit tokens");
    assert_eq!(secret.min_len(), 8);
    assert_eq!(secret.max_len(), Some(64));
    assert!(secret.detect("tok_abcd1234"));
    assert!(!secret.detect("tok_ABCD1234"));
    assert!(!secret.detect("^tok_[a-z0-9]{8}$"));

    let made = |min, max, pattern| {
        CustomSecret::new("n".to_string(), "m".to_string(), min, max, pattern).err()
    };
    assert_eq!(made(0, None, "a"), Some(CustomSecretError::ZeroMinLen));
    assert_eq!(made(0, Some(0), "("), Some(CustomSecretError::ZeroMinLen));
    assert_eq!(made(1, Some(0), "("), Some(CustomSecretError::ZeroMaxLen));
    assert_eq!(made(1, Some(1), "("), Some(CustomSecretError::InvalidPattern));
    assert_eq!(made(1, None, "a"), None);
    assert_eq!(
        CustomSecret::from_compiled("n".to_string(), "m".to_string(), 1, None, None).err(),
        Some(CustomSecretError::InvalidPattern)
    );
}

#[test]
fn the_finding_names_the_kind_of_literal() {
    let found = prefer_numeric_literals_diagnostic(Span::new(4, 9), "octal");
    assert_eq!(
        found,
        Diagnostic {
            severity: Severity::Warning,
            message: "Use octal literals instead of parseInt().".to_string(),
            span: Span::new(4, 9),
            rule: "prefer-numeric-literals",
        }
    );
    assert_eq!(radix_literal_name("2"), Some("binary"));
    assert_eq!(radix_literal_name("8"), Some("octal"));
    assert_eq!(radix_literal_name("16"), Some("hexadecimal"));
    assert_eq!(radix_literal_name("10"), None);
    assert_eq!(radix_literal_name("02"), None);
    assert_eq!(Diagnostic::error("e".to_string(), sp()).severity, Severity::Error);
    assert_eq!(Diagnostic::error("e".to_string(), sp()).rule, "");
    assert_eq!(Diagnostic::warn("w".to_string(), sp()).with_rule("r").rule, "r");
}

fn argument(expression: Expression) -> jscore::ast::nodes::Argument {
    jscore::ast::nodes::Argument::Expression(expression)
}

#[test]
fn only_strings_with_a_fixed_value_and_a_numeric_radix_are_findings() {
    let template = |quasis: Vec<&str>, expressions| {
        Expression::TemplateLiteral(Box::new(TemplateLiteral {
            span: sp(),
            quasis: quasis.into_iter().map(|q| q.to_string()).collect(),
            expressions,
        }))
    };
    assert!(is_string_type(&argument(text("11"))));
    assert!(is_string_type(&argument(template(vec!["11"], vec![]))));
    assert!(!is_string_type(&argument(num("11"))));
    assert!(!is_string_type(&jscore::ast::nodes::Argument::SpreadElement(Box::new(
        jscore::ast::nodes::SpreadElement { span: sp(), argument: text("11") }
    ))));

    let scoping = Scoping::new(NodeId(0));
    let nodes = AstNodes::new();
    let run = |arguments: Vec<jscore::ast::nodes::Argument>| {
        let call = CallExpression { span: Span::new(1, 5), callee: id("parseInt"), arguments, optional: false };
        let mut ctx = LintContext::new(&scoping, &nodes);
        check_arguments(&call, &mut ctx);
        ctx.diagnostics().len()
    };
    assert_eq!(run(vec![argument(text("11")), argument(num("2"))]), 1);
    assert_eq!(run(vec![argument(text("11"))]), 0);
    assert_eq!(run(vec![argument(text("11")), argument(num("2")), argument(num("3"))]), 0);
    assert_eq!(run(vec![argument(template(vec!["1", ""], vec![id("x")])), argument(num("2"))]), 0);
    assert_eq!(run(vec![argument(text("11")), argument(text("2"))]), 0);
    assert_eq!(
        run(vec![
            argument(text("11")),
            jscore::ast::nodes::Argument::SpreadElement(Box::new(
                jscore::ast::nodes::SpreadElement { span: sp(), argument: id("rest") }
            )),
        ]),
        0
    );
}

#[test]
fn a_use_that_the_tables_do_not_hold_counts_as_free() {
    let mut scoping = Scoping::new(NodeId(0));
    let bound = scoping.declare(ScopeId(0), "x", NodeId(1), SymbolFlags::of_kind(SymbolKind::Variable));
    let resolved = scoping.resolve_reference(ScopeId(0), "x", NodeId(2), ReferenceFlags::Read);
    let free = scoping.resolve_reference(ScopeId(0), "y", NodeId(3), ReferenceFlags::Read);
    let identifier = |reference_id| IdentifierReference { span: sp(), name: "x".to_string(), reference_id };
    assert_eq!(get_symbol_id_of_variable(&identifier(Some(resolved)), &scoping), Some(bound));
    assert_eq!(get_symbol_id_of_variable(&identifier(Some(free)), &scoping), None);
    assert_eq!(get_symbol_id_of_variable(&identifier(None), &scoping), None);
    assert_eq!(get_symbol_id_of_variable(&identifier(Some(ReferenceId(7))), &scoping), None);
}

#[test]
fn expressions_answer_questions_about_themselves() {
    let paren = |expression| {
        Expression::ParenthesizedExpression(Box::new(ParenthesizedExpression { span: sp(), expression }))
    };
    let wrapped = paren(paren(id("x")));
    assert_eq!(wrapped.without_parenthesized(), &id("x"));
    let typed = Expression::TSAsExpression(Box::new(TSAsExpression {
        span: sp(),
        expression: paren(Expression::TSNonNullExpression(Box::new(TSNonNullExpression {
            span: sp(),
            expression: id("x"),
        }))),
        type_annotation: TSType::TSAnyKeyword(Box::new(TSKeyword { span: sp() })),
    }));
    assert_eq!(typed.get_inner_expression(), &id("x"));
    assert!(matches!(typed.without_parenthesized(), Expression::TSAsExpression(_)));

    let not = |argument| {
        Expression::UnaryExpression(Box::new(UnaryExpression {
            span: sp(),
            operator: UnaryOperator::LogicalNot,
            argument,
        }))
    };
    assert!(text("a").is_immutable_value());
    assert!(num("1").is_immutable_value());
    assert!(Expression::NullLiteral(Box::new(NullLiteral { span: sp() })).is_immutable_value());
    assert!(not(Expression::BooleanLiteral(Box::new(BooleanLiteral { span: sp(), value: true })))
        .is_immutable_value());
    assert!(id("undefined").is_immutable_value());
    assert!(id("NaN").is_immutable_value());
    assert!(id("Infinity").is_immutable_value());
    assert!(!id("x").is_immutable_value());
    assert!(!not(id("x")).is_immutable_value());
    assert!(!Expression::BinaryExpression(Box::new(BinaryExpression {
        span: sp(),
        left: num("1"),
        operator: BinaryOperator::Addition,
        right: num("2"),
    }))
    .is_immutable_value());

    let computed = |expression| ComputedMemberExpression { span: sp(), object: id("o"), expression, optional: false };
    assert_eq!(computed(text("key")).static_property_name(), Some("key"));
    assert_eq!(computed(id("key")).static_property_name(), None);
    let call = |callee| CallExpression { span: sp(), callee, arguments: vec![], optional: false };
    assert_eq!(call(id("f")).callee_name(), Some("f"));
    assert_eq!(
        call(Expression::ComputedMemberExpression(Box::new(computed(text("m"))))).callee_name(),
        Some("m")
    );
    assert_eq!(call(num("1")).callee_name(), None);
    assert_eq!(Span::new(3, 7).size(), 4);
    assert_eq!(Span::new(7, 3).size(), 0);
    assert!(Span::synthesized().is_synthesized());
    assert_eq!(Span::new(1, 3).source_text("héllo"), Some("é"));
    assert_eq!(Span::new(2, 3).source_text("héllo"), None);
}
