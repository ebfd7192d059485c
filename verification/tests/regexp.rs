use jscore::ast::nodes::{
    Alternative, Argument, Expression, ExpressionStatement, LookAroundAssertionKind, Pattern,
    Program, RawPattern, RegExp as RegExpNode, RegExpFlags, RegExpLiteral, RegExpPattern,
    Statement, Term,
};
use jscore::semantic::scoping::Scoping;
use jscore::span::Span;
use jscore::syntax::{NodeId, ReferenceFlags, ReferenceId, ScopeId, SymbolFlags, SymbolKind};
use jscore::transformer::context::TransformCtx;
use jscore::transformer::regexp::{RegExp, RegExpOptions};
use jscore::traverse::context::TraverseCtx;
use jscore::traverse::walk::walk_program;

fn pass(options: RegExpOptions) -> RegExp<'static> {
    RegExp::new(options, TransformCtx::new(""))
}

fn none() -> RegExpOptions {
    RegExpOptions::default()
}

fn all() -> RegExpOptions {
    RegExpOptions {
        sticky_flag: true,
        unicode_flag: true,
        dot_all_flag: true,
        look_behind_assertions: true,
        named_capture_groups: true,
        unicode_property_escapes: true,
        match_indices: true,
        set_notation: true,
    }
}

fn unicode() -> RegExpFlags {
    RegExpFlags { unicode: true, ..RegExpFlags::empty() }
}

#[test]
fn flags_that_the_target_lacks_are_unsupported() {
    let plain = RegExpFlags::empty();
    assert!(!pass(all()).has_unsupported_regular_expression_flags(plain));
    assert!(!pass(none()).has_unsupported_regular_expression_flags(RegExpFlags {
        dot_all: true,
        sticky: true,
        unicode: true,
        has_indices: true,
        unicode_sets: true,
        ..plain
    }));
    let each = [
        (RegExpFlags { dot_all: true, ..plain }, RegExpOptions { dot_all_flag: true, ..none() }),
        (RegExpFlags { sticky: true, ..plain }, RegExpOptions { sticky_flag: true, ..none() }),
        (RegExpFlags { unicode: true, ..plain }, RegExpOptions { unicode_flag: true, ..none() }),
        (RegExpFlags { has_indices: true, ..plain }, RegExpOptions { match_indices: true, ..none() }),
        (RegExpFlags { unicode_sets: true, ..plain }, RegExpOptions { set_notation: true, ..none() }),
    ];
    for (flags, options) in each {
        assert!(pass(options).has_unsupported_regular_expression_flags(flags));
        assert!(!pass(none()).has_unsupported_regular_expression_flags(flags));
    }
    for flags in [
        RegExpFlags { global: true, ..plain },
        RegExpFlags { ignore_case: true, ..plain },
        RegExpFlags { multiline: true, ..plain },
    ] {
        assert!(pass(none()).has_unsupported_regular_expression_flags(flags));
    }
}

#[test]
fn flags_are_written_in_a_fixed_order() {
    let every = RegExpFlags {
        global: true,
        ignore_case: true,
        multiline: true,
        dot_all: true,
        unicode: true,
        sticky: true,
        has_indices: true,
        unicode_sets: true,
    };
    assert_eq!(every.text(), "gimsuydv");
    assert_eq!(RegExpFlags::empty().text(), "");
    assert_eq!(RegExpFlags { sticky: true, global: true, ..RegExpFlags::empty() }.text(), "gy");
}

#[test]
fn raw_patterns_are_scanned_for_unsupported_syntax() {
    let plain = RegExpFlags::empty();
    let look_behind = pass(RegExpOptions { look_behind_assertions: true, ..none() });
    assert!(look_behind.has_unsupported_regex_syntax_raw("(?<=a)b", plain));
    assert!(look_behind.has_unsupported_regex_syntax_raw("x(?<!a)b", plain));
    assert!(!look_behind.has_unsupported_regex_syntax_raw("(?=a)b", plain));
    assert!(!look_behind.has_unsupported_regex_syntax_raw("(?<name>a)", plain));
    assert!(!look_behind.has_unsupported_regex_syntax_raw("[(?<=a)]b", plain));
    assert!(!look_behind.has_unsupported_regex_syntax_raw(r"[\](?<=a)]b", plain));

    let named = pass(RegExpOptions { named_capture_groups: true, ..none() });
    assert!(named.has_unsupported_regex_syntax_raw("(?<name>a)", plain));
    assert!(!named.has_unsupported_regex_syntax_raw("(?<name", plain));
    assert!(named.has_unsupported_regex_syntax_raw("(?<=a)>", plain));
    assert!(!named.has_unsupported_regex_syntax_raw("(?<=a)", plain));
    assert!(!named.has_unsupported_regex_syntax_raw("(a)(?:b)", plain));

    let escapes = pass(RegExpOptions { unicode_property_escapes: true, ..none() });
    assert!(escapes.has_unsupported_regex_syntax_raw(r"\p{L}", unicode()));
    assert!(escapes.has_unsupported_regex_syntax_raw(r"a\P{L}b", unicode()));
    assert!(!escapes.has_unsupported_regex_syntax_raw(r"\p{L}", plain));
    assert!(!escapes.has_unsupported_regex_syntax_raw(r"\p{L", unicode()));
    assert!(!escapes.has_unsupported_regex_syntax_raw(r"\pL}", unicode()));
    assert!(!escapes.has_unsupported_regex_syntax_raw(r"\p", unicode()));
    assert!(!escapes.has_unsupported_regex_syntax_raw(r"\d+", unicode()));

    for options in [none(), all()] {
        let scanner = pass(options);
        assert!(scanner.has_unsupported_regex_syntax_raw(")", plain));
        assert!(scanner.has_unsupported_regex_syntax_raw("(a))", plain));
        assert!(!scanner.has_unsupported_regex_syntax_raw("((a)b)", plain));
        assert!(!scanner.has_unsupported_regex_syntax_raw("", plain));
        assert!(!scanner.has_unsupported_regex_syntax_raw("[)]", plain));
        assert!(!scanner.has_unsupported_regex_syntax_raw("[", plain));
        assert!(!scanner.has_unsupported_regex_syntax_raw("[\\", plain));
    }
    assert!(!pass(none()).has_unsupported_regex_syntax_raw("(?<=a)(?<n>b)\\p{L}", unicode()));
}

fn parsed(terms: Vec<Vec<Term>>) -> Pattern {
    Pattern {
        span: Span::new(1, 4),
        alternatives: terms
            .into_iter()
            .map(|terms| Alternative { span: Span::new(0, 0), terms })
            .collect(),
    }
}

#[test]
fn parsed_patterns_are_searched_for_unsupported_terms() {
    let look = |kind| Term::LookAroundAssertion(kind);
    let pattern = parsed(vec![
        vec![Term::Other, look(LookAroundAssertionKind::Lookahead)],
        vec![Term::Other, Term::CapturingGroup],
    ]);
    assert!(!pass(none()).has_unsupported_regular_expression_pattern(&pattern));
    assert!(pass(RegExpOptions { named_capture_groups: true, ..none() })
        .has_unsupported_regular_expression_pattern(&pattern));
    assert!(!pass(RegExpOptions { look_behind_assertions: true, ..none() })
        .has_unsupported_regular_expression_pattern(&pattern));
    assert!(!pass(RegExpOptions { unicode_property_escapes: true, ..none() })
        .has_unsupported_regular_expression_pattern(&pattern));
    let behind = parsed(vec![vec![], vec![look(LookAroundAssertionKind::NegativeLookbehind)]]);
    assert!(pass(RegExpOptions { look_behind_assertions: true, ..none() })
        .has_unsupported_regular_expression_pattern(&behind));
    let behind = parsed(vec![vec![look(LookAroundAssertionKind::Lookbehind)]]);
    assert!(pass(all()).has_unsupported_regular_expression_pattern(&behind));
    let escape = parsed(vec![vec![Term::UnicodePropertyEscape]]);
    assert!(pass(RegExpOptions { unicode_property_escapes: true, ..none() })
        .has_unsupported_regular_expression_pattern(&escape));
    assert!(!pass(all()).has_unsupported_regular_expression_pattern(&parsed(vec![])));
}

fn literal(pattern: RegExpPattern, flags: RegExpFlags) -> Expression {
    Expression::RegExpLiteral(Box::new(RegExpLiteral {
        span: Span::new(3, 9),
        regex: RegExpNode { pattern, flags },
    }))
}

fn raw(text: &str) -> RegExpPattern {
    RegExpPattern::Raw(Box::new(RawPattern { text: text.to_string() }))
}

fn text_argument(argument: &Argument) -> (&str, Span) {
    match argument {
        Argument::Expression(Expression::StringLiteral(s)) => (s.value.as_str(), s.span),
        other => panic!("not a string: {other:?}"),
    }
}

#[test]
fn an_unsupported_literal_becomes_a_constructor_call() {
    let mut scoping = Scoping::new(NodeId(0));
    let constructor =
        scoping.declare(ScopeId(0), "RegExp", NodeId(1), SymbolFlags::of_kind(SymbolKind::Class));
    let mut ctx = TraverseCtx::new(scoping);
    let transform = pass(RegExpOptions { sticky_flag: true, ..none() });
    let mut expression =
        literal(raw(r"a\d\\b"), RegExpFlags { sticky: true, dot_all: true, ..RegExpFlags::empty() });
    transform.rewrite(&mut expression, &mut ctx);
    let call = match &expression {
        Expression::NewExpression(call) => call,
        other => panic!("not rewritten: {other:?}"),
    };
    assert_eq!(call.span, Span::new(3, 9));
    let callee = match &call.callee {
        Expression::Identifier(i) => i,
        other => panic!("not an identifier: {other:?}"),
    };
    assert_eq!(callee.name, "RegExp");
    assert_eq!(callee.span, Span::new(3, 9));
    assert_eq!(callee.reference_id, Some(ReferenceId(0)));
    assert_eq!(call.arguments.len(), 2);
    assert_eq!(text_argument(&call.arguments[0]), (r"a\\d\\\\b", Span::new(3, 9)));
    assert_eq!(text_argument(&call.arguments[1]), ("sy", Span::new(3, 9)));
    let scoping = ctx.into_scoping();
    let entry = scoping.get_reference(ReferenceId(0));
    assert_eq!(entry.symbol_id(), Some(constructor));
    assert_eq!(entry.flags, ReferenceFlags::Read);
    assert_eq!(entry.node, NodeId::dummy());
    assert_eq!(scoping.references_of(constructor), &vec![ReferenceId(0)]);
}

#[test]
fn a_supported_literal_is_left_alone() {
    let mut ctx = TraverseCtx::new(Scoping::new(NodeId(0)));
    let transform = pass(RegExpOptions { sticky_flag: true, ..none() });
    let flags = RegExpFlags { dot_all: true, ..RegExpFlags::empty() };
    let mut expression = literal(raw("a+"), flags);
    transform.rewrite(&mut expression, &mut ctx);
    assert_eq!(expression, literal(raw("a+"), flags));
    // A pattern that did not parse is never rewritten.
    let invalid = || RegExpPattern::Invalid(Box::new(RawPattern { text: "(".to_string() }));
    let sticky = RegExpFlags { sticky: true, ..RegExpFlags::empty() };
    let mut expression = literal(invalid(), sticky);
    transform.rewrite(&mut expression, &mut ctx);
    assert_eq!(expression, literal(invalid(), sticky));
    assert_eq!(ctx.into_scoping().references_len(), 0);
}

#[test]
fn a_parsed_pattern_gives_the_text_that_its_span_covers() {
    let source = "x = /é(?<n>a)/y;";
    let start = source.find('/').unwrap() as u32 + 1;
    let end = source.rfind('/').unwrap() as u32;
    let transform = RegExp::new(
        RegExpOptions { named_capture_groups: true, ..none() },
        TransformCtx::new(source),
    );
    let pattern = |span| {
        RegExpPattern::Pattern(Box::new(Pattern {
            span,
            alternatives: vec![Alternative {
                span: Span::new(0, 0),
                terms: vec![Term::Other, Term::CapturingGroup],
            }],
        }))
    };
    let mut ctx = TraverseCtx::new(Scoping::new(NodeId(0)));
    let mut expression = literal(pattern(Span::new(start, end)), RegExpFlags::empty());
    transform.rewrite(&mut expression, &mut ctx);
    match &expression {
        Expression::NewExpression(call) => {
            assert_eq!(text_argument(&call.arguments[0]).0, "é(?<n>a)");
            assert_eq!(text_argument(&call.arguments[1]).0, "");
        },
        other => panic!("not rewritten: {other:?}"),
    }
    // The free use of `RegExp` is registered as unresolved.
    let scoping = ctx.into_scoping();
    assert!(scoping.get_reference(ReferenceId(0)).is_unresolved());

    // A span that cuts a character in two, or runs past the text, fits
    // nothing: the literal stays.
    for span in [Span::new(start + 1, end), Span::new(start, 400), Span::new(end, start)] {
        let mut ctx = TraverseCtx::new(Scoping::new(NodeId(0)));
        let mut expression = literal(pattern(span), RegExpFlags::empty());
        transform.rewrite(&mut expression, &mut ctx);
        assert_eq!(expression, literal(pattern(span), RegExpFlags::empty()));
    }
}

#[test]
fn the_transform_runs_as_a_pass() {
    let mut tree = Program {
        span: Span::new(0, 0),
        source_text: "",
        body: vec![
            Statement::ExpressionStatement(Box::new(ExpressionStatement {
                span: Span::new(0, 0),
                expression: literal(raw("(?<=a)b"), RegExpFlags::empty()),
            })),
            Statement::ExpressionStatement(Box::new(ExpressionStatement {
                span: Span::new(0, 0),
                expression: literal(raw("ab"), RegExpFlags::empty()),
            })),
        ],
        scope_id: None,
    };
    let mut transform = pass(RegExpOptions { look_behind_assertions: true, ..none() });
    let mut ctx = TraverseCtx::new(Scoping::new(NodeId(0)));
    assert!(walk_program(&mut transform, &mut tree, &mut ctx, 16));
    let kinds: Vec<bool> = tree
        .body
        .iter()
        .map(|s| match s {
            Statement::ExpressionStatement(s) => matches!(s.expression, Expression::NewExpression(_)),
            _ => false,
        })
        .collect();
    assert_eq!(kinds, vec![true, false]);
    assert_eq!(ctx.into_scoping().references_len(), 1);
}
