use jscore::ast::nodes::{
    Argument, BigIntLiteral, BinaryExpression, BinaryOperator, BindingIdentifier, CallExpression,
    ChainElement, ChainExpression, Class, ClassElement, ComputedMemberExpression, Expression,
    ExpressionStatement, Function, IdentifierName, IdentifierReference, MethodDefinition,
    NewExpression, NumericLiteral, ParenthesizedExpression, PrivateFieldExpression,
    PrivateIdentifier, Program, PropertyDefinition, PropertyKey, RawPattern, RegExp, RegExpFlags,
    RegExpLiteral, RegExpPattern, Statement, StaticMemberExpression, StringLiteral,
    TemplateLiteral, ThrowStatement, YieldExpression,
};
use jscore::diagnostic::{Diagnostic, Severity};
use jscore::linter::context::LintContext;
use jscore::linter::rule::Rule;
use jscore::linter::rules::prefer_numeric_literals::PreferNumericLiterals;
use jscore::semantic::builder::analyze;
use jscore::semantic::collect::collect_nodes;
use jscore::span::Span;
use jscore::syntax::NodeId;

fn sp() -> Span {
    Span::new(0, 0)
}

fn id(name: &str) -> Expression {
    Expression::Identifier(Box::new(IdentifierReference {
        span: sp(),
        name: name.to_string(),
        reference_id: None,
    }))
}

fn num(raw: &str) -> Expression {
    Expression::NumericLiteral(Box::new(NumericLiteral { span: sp(), raw: raw.to_string() }))
}

fn big(raw: &str) -> Expression {
    Expression::BigIntLiteral(Box::new(BigIntLiteral { span: sp(), raw: raw.to_string() }))
}

fn text(value: &str) -> Expression {
    Expression::StringLiteral(Box::new(StringLiteral { span: sp(), value: value.to_string() }))
}

fn template(quasis: Vec<&str>, expressions: Vec<Expression>) -> Expression {
    Expression::TemplateLiteral(Box::new(TemplateLiteral {
        span: sp(),
        quasis: quasis.into_iter().map(|q| q.to_string()).collect(),
        expressions,
    }))
}

fn regex(pattern: &str) -> Expression {
    Expression::RegExpLiteral(Box::new(RegExpLiteral {
        span: sp(),
        regex: RegExp {
            pattern: RegExpPattern::Raw(Box::new(RawPattern { text: pattern.to_string() })),
            flags: RegExpFlags::empty(),
        },
    }))
}

fn call_node(callee: Expression, arguments: Vec<Expression>, optional: bool) -> CallExpression {
    CallExpression {
        span: Span::new(1, 2),
        callee,
        arguments: arguments.into_iter().map(Argument::Expression).collect(),
        optional,
    }
}

fn call(callee: Expression, arguments: Vec<Expression>) -> Expression {
    Expression::CallExpression(Box::new(call_node(callee, arguments, false)))
}

fn member_node(object: Expression, property: &str, optional: bool) -> StaticMemberExpression {
    StaticMemberExpression {
        span: sp(),
        object,
        property: IdentifierName { span: sp(), name: property.to_string() },
        optional,
    }
}

fn member(object: Expression, property: &str) -> Expression {
    Expression::StaticMemberExpression(Box::new(member_node(object, property, false)))
}

fn computed(object: Expression, expression: Expression) -> Expression {
    Expression::ComputedMemberExpression(Box::new(ComputedMemberExpression {
        span: sp(),
        object,
        expression,
        optional: false,
    }))
}

fn private_field(object: Expression, field: &str) -> Expression {
    Expression::PrivateFieldExpression(Box::new(PrivateFieldExpression {
        span: sp(),
        object,
        field: PrivateIdentifier { span: sp(), name: field.to_string() },
        optional: false,
    }))
}

fn paren(expression: Expression) -> Expression {
    Expression::ParenthesizedExpression(Box::new(ParenthesizedExpression { span: sp(), expression }))
}

fn chain(element: ChainElement) -> Expression {
    Expression::ChainExpression(Box::new(ChainExpression { span: sp(), expression: element }))
}

fn binary(left: Expression, operator: BinaryOperator, right: Expression) -> Expression {
    Expression::BinaryExpression(Box::new(BinaryExpression { span: sp(), left, operator, right }))
}

fn strictly_equals(left: Expression, right: &str) -> Expression {
    binary(left, BinaryOperator::StrictEquality, num(right))
}

fn yields(argument: Expression) -> Expression {
    Expression::YieldExpression(Box::new(YieldExpression {
        span: sp(),
        delegate: false,
        argument: Some(argument),
    }))
}

fn stmt(expression: Expression) -> Statement {
    Statement::ExpressionStatement(Box::new(ExpressionStatement { span: sp(), expression }))
}

fn function(name: &str, generator: bool, body: Vec<Statement>) -> Function {
    Function {
        span: sp(),
        id: Some(BindingIdentifier { span: sp(), name: name.to_string(), symbol_id: None }),
        generator,
        params: Vec::new(),
        body,
        scope_id: None,
    }
}

fn generator(body: Expression) -> Statement {
    Statement::FunctionDeclaration(Box::new(function("f", true, vec![stmt(body)])))
}

fn parse_int(arguments: Vec<Expression>) -> Expression {
    call(id("parseInt"), arguments)
}

fn number_parse_int(arguments: Vec<Expression>) -> Expression {
    call(member(id("Number"), "parseInt"), arguments)
}

fn lint(source: &str, body: Vec<Statement>) -> Vec<Diagnostic> {
    let mut program = Program { span: sp(), source_text: source, body, scope_id: None };
    let semantic = analyze(&mut program);
    assert!(semantic.diagnostics.is_empty());
    let nodes = collect_nodes(&program);
    let mut ctx = LintContext::new(&semantic.scoping, &nodes);
    let rule = PreferNumericLiterals;
    for i in 0..nodes.len() {
        rule.run(nodes.get_node(NodeId(i)), &mut ctx);
    }
    ctx.into_diagnostics()
}

fn passes(source: &str, body: Vec<Statement>) {
    let found = lint(source, body);
    assert!(found.is_empty(), "unexpected finding in {source}: {found:?}");
}

fn fails(source: &str, body: Vec<Statement>, kind: &str) {
    let found = lint(source, body);
    assert_eq!(found.len(), 1, "expected one finding in {source}");
    assert_eq!(found[0].severity, Severity::Warning);
    assert_eq!(found[0].message, format!("Use {kind} literals instead of parseInt()."));
    assert_eq!(found[0].span, Span::new(1, 2));
    assert_eq!(found[0].rule, PreferNumericLiterals::NAME);
}

#[test]
fn prefer_numeric_literals_test() {
    // pass
    passes("parseInt(1);", vec![stmt(parse_int(vec![num("1")]))]);
    passes("parseInt(1, 3);", vec![stmt(parse_int(vec![num("1"), num("3")]))]);
    passes("Number.parseInt(1);", vec![stmt(number_parse_int(vec![num("1")]))]);
    passes("Number.parseInt(1, 3);", vec![stmt(number_parse_int(vec![num("1"), num("3")]))]);
    passes("0b111110111 === 503;", vec![stmt(strictly_equals(num("0b111110111"), "503"))]);
    passes("0o767 === 503;", vec![stmt(strictly_equals(num("0o767"), "503"))]);
    passes("0x1F7 === 503;", vec![stmt(strictly_equals(num("0x1F7"), "503"))]);
    passes(
        "a[parseInt](1,2);",
        vec![stmt(call(computed(id("a"), id("parseInt")), vec![num("1"), num("2")]))],
    );
    passes("parseInt(foo);", vec![stmt(parse_int(vec![id("foo")]))]);
    passes("parseInt(foo, 2);", vec![stmt(parse_int(vec![id("foo"), num("2")]))]);
    passes("Number.parseInt(foo);", vec![stmt(number_parse_int(vec![id("foo")]))]);
    passes("Number.parseInt(foo, 2);", vec![stmt(number_parse_int(vec![id("foo"), num("2")]))]);
    passes("parseInt(11, 2);", vec![stmt(parse_int(vec![num("11"), num("2")]))]);
    passes("Number.parseInt(1, 8);", vec![stmt(number_parse_int(vec![num("1"), num("8")]))]);
    passes("parseInt(1e5, 16);", vec![stmt(parse_int(vec![num("1e5"), num("16")]))]);
    passes("parseInt('11', '2');", vec![stmt(parse_int(vec![text("11"), text("2")]))]);
    passes("Number.parseInt('11', '8');", vec![stmt(number_parse_int(vec![text("11"), text("8")]))]);
    passes("parseInt(/foo/, 2);", vec![stmt(parse_int(vec![regex("foo"), num("2")]))]);
    passes(
        "parseInt(`11${foo}`, 2);",
        vec![stmt(parse_int(vec![template(vec!["11", ""], vec![id("foo")]), num("2")]))],
    );
    passes("parseInt('11', 2n);", vec![stmt(parse_int(vec![text("11"), big("2n")]))]);
    passes("Number.parseInt('11', 8n);", vec![stmt(number_parse_int(vec![text("11"), big("8n")]))]);
    passes("parseInt('11', 16n);", vec![stmt(parse_int(vec![text("11"), big("16n")]))]);
    passes(
        "parseInt(`11`, 16n);",
        vec![stmt(parse_int(vec![template(vec!["11"], vec![]), big("16n")]))],
    );
    passes("parseInt(1n, 2);", vec![stmt(parse_int(vec![big("1n"), num("2")]))]);
    passes(
        r#"class C { #parseInt; foo() { Number.#parseInt("111110111", 2); } }"#,
        vec![Statement::ClassDeclaration(Box::new(Class {
            span: sp(),
            id: Some(BindingIdentifier { span: sp(), name: "C".to_string(), symbol_id: None }),
            body: vec![
                ClassElement::PropertyDefinition(Box::new(PropertyDefinition {
                    span: sp(),
                    key: PropertyKey::PrivateIdentifier(Box::new(PrivateIdentifier {
                        span: sp(),
                        name: "parseInt".to_string(),
                    })),
                    value: None,
                })),
                ClassElement::MethodDefinition(Box::new(MethodDefinition {
                    span: sp(),
                    key: PropertyKey::StaticIdentifier(Box::new(IdentifierName {
                        span: sp(),
                        name: "foo".to_string(),
                    })),
                    value: Function {
                        span: sp(),
                        id: None,
                        generator: false,
                        params: Vec::new(),
                        body: vec![stmt(call(
                            private_field(id("Number"), "parseInt"),
                            vec![text("111110111"), num("2")],
                        ))],
                        scope_id: None,
                    },
                })),
            ],
            scope_id: None,
        }))],
    );

    // fail
    fails(
        r#"parseInt("111110111", 2) === 503;"#,
        vec![stmt(strictly_equals(parse_int(vec![text("111110111"), num("2")]), "503"))],
        "binary",
    );
    fails(
        r#"parseInt("767", 8) === 503;"#,
        vec![stmt(strictly_equals(parse_int(vec![text("767"), num("8")]), "503"))],
        "octal",
    );
    fails(
        r#"parseInt("1F7", 16) === 255;"#,
        vec![stmt(strictly_equals(parse_int(vec![text("1F7"), num("16")]), "255"))],
        "hexadecimal",
    );
    fails(
        r#"Number.parseInt("111110111", 2) === 503;"#,
        vec![stmt(strictly_equals(number_parse_int(vec![text("111110111"), num("2")]), "503"))],
        "binary",
    );
    fails(
        r#"Number.parseInt("767", 8) === 503;"#,
        vec![stmt(strictly_equals(number_parse_int(vec![text("767"), num("8")]), "503"))],
        "octal",
    );
    fails(
        r#"Number.parseInt("1F7", 16) === 255;"#,
        vec![stmt(strictly_equals(number_parse_int(vec![text("1F7"), num("16")]), "255"))],
        "hexadecimal",
    );
    fails("parseInt('7999', 8);", vec![stmt(parse_int(vec![text("7999"), num("8")]))], "octal");
    fails("parseInt('1234', 2);", vec![stmt(parse_int(vec![text("1234"), num("2")]))], "binary");
    fails("parseInt('1234.5', 8);", vec![stmt(parse_int(vec![text("1234.5"), num("8")]))], "octal");
    fails(
        "parseInt('1️⃣3️⃣3️⃣7️⃣', 16);",
        vec![stmt(parse_int(vec![text("1️⃣3️⃣3️⃣7️⃣"), num("16")]))],
        "hexadecimal",
    );
    fails(
        "Number.parseInt('7999', 8);",
        vec![stmt(number_parse_int(vec![text("7999"), num("8")]))],
        "octal",
    );
    fails(
        "Number.parseInt('1234', 2);",
        vec![stmt(number_parse_int(vec![text("1234"), num("2")]))],
        "binary",
    );
    fails(
        "Number.parseInt('1234.5', 8);",
        vec![stmt(number_parse_int(vec![text("1234.5"), num("8")]))],
        "octal",
    );
    fails(
        "Number.parseInt('1️⃣3️⃣3️⃣7️⃣', 16);",
        vec![stmt(number_parse_int(vec![text("1️⃣3️⃣3️⃣7️⃣"), num("16")]))],
        "hexadecimal",
    );
    fails(
        "parseInt(`111110111`, 2) === 503;",
        vec![stmt(strictly_equals(
            parse_int(vec![template(vec!["111110111"], vec![]), num("2")]),
            "503",
        ))],
        "binary",
    );
    fails(
        "parseInt(`767`, 8) === 503;",
        vec![stmt(strictly_equals(parse_int(vec![template(vec!["767"], vec![]), num("8")]), "503"))],
        "octal",
    );
    fails(
        "parseInt(`1F7`, 16) === 255;",
        vec![stmt(strictly_equals(parse_int(vec![template(vec!["1F7"], vec![]), num("16")]), "255"))],
        "hexadecimal",
    );
    fails("parseInt('', 8);", vec![stmt(parse_int(vec![text(""), num("8")]))], "octal");
    fails(
        "parseInt(``, 8);",
        vec![stmt(parse_int(vec![template(vec![""], vec![]), num("8")]))],
        "octal",
    );
    fails(
        "parseInt(`7999`, 8);",
        vec![stmt(parse_int(vec![template(vec!["7999"], vec![]), num("8")]))],
        "octal",
    );
    fails(
        "parseInt(`1234`, 2);",
        vec![stmt(parse_int(vec![template(vec!["1234"], vec![]), num("2")]))],
        "binary",
    );
    fails(
        "parseInt(`1234.5`, 8);",
        vec![stmt(parse_int(vec![template(vec!["1234.5"], vec![]), num("8")]))],
        "octal",
    );
    fails("parseInt('11', 2)", vec![stmt(parse_int(vec![text("11"), num("2")]))], "binary");
    fails(
        "Number.parseInt('67', 8)",
        vec![stmt(number_parse_int(vec![text("67"), num("8")]))],
        "octal",
    );
    fails(
        "5+parseInt('A', 16)",
        vec![stmt(binary(num("5"), BinaryOperator::Addition, parse_int(vec![text("A"), num("16")])))],
        "hexadecimal",
    );
    fails(
        "function *f(){ yield(Number).parseInt('11', 2) }",
        vec![generator(yields(call(
            member(paren(id("Number")), "parseInt"),
            vec![text("11"), num("2")],
        )))],
        "binary",
    );
    fails(
        "function *f(){ yield(Number.parseInt)('67', 8) }",
        vec![generator(yields(call(
            paren(member(id("Number"), "parseInt")),
            vec![text("67"), num("8")],
        )))],
        "octal",
    );
    fails(
        "function *f(){ yield(parseInt)('A', 16) }",
        vec![generator(yields(call(paren(id("parseInt")), vec![text("A"), num("16")])))],
        "hexadecimal",
    );
    fails(
        "function *f(){ yield Number.parseInt('11', 2) }",
        vec![generator(yields(number_parse_int(vec![text("11"), num("2")])))],
        "binary",
    );
    fails(
        "function *f(){ yield/**/Number.parseInt('67', 8) }",
        vec![generator(yields(number_parse_int(vec![text("67"), num("8")])))],
        "octal",
    );
    fails(
        "function *f(){ yield(parseInt('A', 16)) }",
        vec![generator(yields(paren(parse_int(vec![text("A"), num("16")]))))],
        "hexadecimal",
    );
    fails(
        "parseInt('11', 2)+5",
        vec![stmt(binary(parse_int(vec![text("11"), num("2")]), BinaryOperator::Addition, num("5")))],
        "binary",
    );
    fails(
        "Number.parseInt('17', 8)+5",
        vec![stmt(binary(
            number_parse_int(vec![text("17"), num("8")]),
            BinaryOperator::Addition,
            num("5"),
        ))],
        "octal",
    );
    fails(
        "parseInt('A', 16)+5",
        vec![stmt(binary(parse_int(vec![text("A"), num("16")]), BinaryOperator::Addition, num("5")))],
        "hexadecimal",
    );
    fails(
        "parseInt('11', 2)in foo",
        vec![stmt(binary(parse_int(vec![text("11"), num("2")]), BinaryOperator::In, id("foo")))],
        "binary",
    );
    fails(
        "Number.parseInt('17', 8)in foo",
        vec![stmt(binary(
            number_parse_int(vec![text("17"), num("8")]),
            BinaryOperator::In,
            id("foo"),
        ))],
        "octal",
    );
    fails(
        "parseInt('A', 16)in foo",
        vec![stmt(binary(parse_int(vec![text("A"), num("16")]), BinaryOperator::In, id("foo")))],
        "hexadecimal",
    );
    fails(
        "parseInt('11', 2) in foo",
        vec![stmt(binary(parse_int(vec![text("11"), num("2")]), BinaryOperator::In, id("foo")))],
        "binary",
    );
    fails(
        "Number.parseInt('17', 8)/**/in foo",
        vec![stmt(binary(
            number_parse_int(vec![text("17"), num("8")]),
            BinaryOperator::In,
            id("foo"),
        ))],
        "octal",
    );
    fails(
        "(parseInt('A', 16))in foo",
        vec![stmt(binary(
            paren(parse_int(vec![text("A"), num("16")])),
            BinaryOperator::In,
            id("foo"),
        ))],
        "hexadecimal",
    );
    let commented = [
        "/* comment */Number.parseInt('11', 2);",
        "Number/**/.parseInt('11', 2);",
        "Number//
			.parseInt('11', 2);",
        "Number./**/parseInt('11', 2);",
        "Number.parseInt(/**/'11', 2);",
        "Number.parseInt('11', /**/2);",
        "Number.parseInt('11', 2)/* comment */;",
    ];
    for source in commented {
        fails(source, vec![stmt(number_parse_int(vec![text("11"), num("2")]))], "binary");
    }
    let commented = [
        "parseInt/**/('11', 2);",
        "parseInt(//
			'11', 2);",
        "parseInt('11'/**/, 2);",
        "parseInt('11', 2 /**/);",
        "parseInt('11', 2)//comment
			;",
    ];
    for source in commented {
        fails(source, vec![stmt(parse_int(vec![text("11"), num("2")]))], "binary");
    }
    fails(
        "parseInt(`11`/**/, 2);",
        vec![stmt(parse_int(vec![template(vec!["11"], vec![]), num("2")]))],
        "binary",
    );
    fails(
        r#"parseInt?.("1F7", 16) === 255;"#,
        vec![stmt(strictly_equals(
            chain(ChainElement::CallExpression(Box::new(call_node(
                id("parseInt"),
                vec![text("1F7"), num("16")],
                true,
            )))),
            "255",
        ))],
        "hexadecimal",
    );
    fails(
        r#"Number?.parseInt("1F7", 16) === 255;"#,
        vec![stmt(strictly_equals(
            chain(ChainElement::CallExpression(Box::new(call_node(
                Expression::StaticMemberExpression(Box::new(member_node(
                    id("Number"),
                    "parseInt",
                    true,
                ))),
                vec![text("1F7"), num("16")],
                false,
            )))),
            "255",
        ))],
        "hexadecimal",
    );
    fails(
        r#"Number?.parseInt?.("1F7", 16) === 255;"#,
        vec![stmt(strictly_equals(
            chain(ChainElement::CallExpression(Box::new(call_node(
                Expression::StaticMemberExpression(Box::new(member_node(
                    id("Number"),
                    "parseInt",
                    true,
                ))),
                vec![text("1F7"), num("16")],
                true,
            )))),
            "255",
        ))],
        "hexadecimal",
    );
    fails(
        r#"(Number?.parseInt)("1F7", 16) === 255;"#,
        vec![stmt(strictly_equals(
            call(
                paren(chain(ChainElement::StaticMemberExpression(Box::new(member_node(
                    id("Number"),
                    "parseInt",
                    true,
                ))))),
                vec![text("1F7"), num("16")],
            ),
            "255",
        ))],
        "hexadecimal",
    );
    fails(
        r#"(Number?.parseInt)?.("1F7", 16) === 255;"#,
        vec![stmt(strictly_equals(
            chain(ChainElement::CallExpression(Box::new(call_node(
                paren(chain(ChainElement::StaticMemberExpression(Box::new(member_node(
                    id("Number"),
                    "parseInt",
                    true,
                ))))),
                vec![text("1F7"), num("16")],
                true,
            )))),
            "255",
        ))],
        "hexadecimal",
    );
    fails("parseInt('1_0', 2);", vec![stmt(parse_int(vec![text("1_0"), num("2")]))], "binary");
    fails(
        "Number.parseInt('5_000', 8);",
        vec![stmt(number_parse_int(vec![text("5_000"), num("8")]))],
        "octal",
    );
    fails("parseInt('0_1', 16);", vec![stmt(parse_int(vec![text("0_1"), num("16")]))], "hexadecimal");
    fails(
        "Number.parseInt('0_0', 16);",
        vec![stmt(number_parse_int(vec![text("0_0"), num("16")]))],
        "hexadecimal",
    );
    fails(
        r#"
            parseInt("767", 8) === 503;
            function foo() {
                function parseInt() {
                    throw new Error()
                }
            }
        "#,
        vec![
            stmt(strictly_equals(parse_int(vec![text("767"), num("8")]), "503")),
            Statement::FunctionDeclaration(Box::new(function(
                "foo",
                false,
                vec![Statement::FunctionDeclaration(Box::new(function(
                    "parseInt",
                    false,
                    vec![Statement::ThrowStatement(Box::new(ThrowStatement {
                        span: sp(),
                        argument: Expression::NewExpression(Box::new(NewExpression {
                            span: sp(),
                            callee: id("Error"),
                            arguments: Vec::new(),
                        })),
                    }))],
                )))],
            ))),
        ],
        "octal",
    );
}

#[test]
fn a_bound_parse_int_is_not_the_global_one() {
    // function parseInt() {} parseInt('11', 2);
    let body = vec![
        Statement::FunctionDeclaration(Box::new(function("parseInt", false, Vec::new()))),
        stmt(parse_int(vec![text("11"), num("2")])),
    ];
    passes("function parseInt() {} parseInt('11', 2);", body);
}

#[test]
fn other_radixes_and_other_callees_are_left_alone() {
    passes("parseInt('11', 10);", vec![stmt(parse_int(vec![text("11"), num("10")]))]);
    passes("parseInt('11', 0x10);", vec![stmt(parse_int(vec![text("11"), num("0x10")]))]);
    passes(
        "Math.parseInt('11', 2);",
        vec![stmt(call(member(id("Math"), "parseInt"), vec![text("11"), num("2")]))],
    );
    passes(
        "Number.parseFloat('11', 2);",
        vec![stmt(call(member(id("Number"), "parseFloat"), vec![text("11"), num("2")]))],
    );
}
