use jscore::ast::nodes::{
    Argument, ArrayExpression, ArrayExpressionElement, ArrayPattern, ArrowFunctionExpression,
    BindingIdentifier, BindingPattern, BindingPatternKind, CallExpression, Expression,
    ExpressionStatement, IdentifierName, IdentifierReference, NumericLiteral, Program,
    SpreadElement, Statement, StaticMemberExpression, StringLiteral, VariableDeclaration,
    VariableDeclarationKind, VariableDeclarator,
};
use jscore::linter::context::LintContext;
use jscore::linter::rules::no_infinite_rerender_loop::{
    get_base_object, get_id_at, use_effect_callback_and_deps, NoInfiniteRerenderLoop,
};
use jscore::semantic::builder::analyze;
use jscore::semantic::collect::collect_nodes;
use jscore::span::Span;
use jscore::syntax::NodeId;

fn sp() -> Span {
    Span::new(0, 0)
}

fn id(name: &str) -> Expression {
    Expression::Identifier(Box::new(IdentifierReference {
        span: sp(),
        name: name.to_string(),
        reference_id: None,
    }))
}

fn num(raw: &str) -> Expression {
    Expression::NumericLiteral(Box::new(NumericLiteral { span: sp(), raw: raw.to_string() }))
}

fn call(callee: &str, arguments: Vec<Expression>) -> Expression {
    Expression::CallExpression(Box::new(CallExpression {
        span: sp(),
        callee: id(callee),
        arguments: arguments.into_iter().map(Argument::Expression).collect(),
        optional: false,
    }))
}

fn stmt(expression: Expression) -> Statement {
    Statement::ExpressionStatement(Box::new(ExpressionStatement { span: sp(), expression }))
}

fn binding(name: &str) -> BindingPattern {
    BindingPattern {
        kind: BindingPatternKind::BindingIdentifier(Box::new(BindingIdentifier {
            span: sp(),
            name: name.to_string(),
            symbol_id: None,
        })),
    }
}

fn pair(first: &str, second: &str) -> BindingPattern {
    BindingPattern {
        kind: BindingPatternKind::ArrayPattern(Box::new(ArrayPattern {
            span: sp(),
            elements: vec![Some(binding(first)), Some(binding(second))],
            rest: None,
        })),
    }
}

fn constant(id: BindingPattern, init: Expression) -> Statement {
    Statement::VariableDeclaration(Box::new(VariableDeclaration {
        span: sp(),
        kind: VariableDeclarationKind::Const,
        declarations: vec![VariableDeclarator {
            span: sp(),
            kind: VariableDeclarationKind::Const,
            id,
            init: Some(init),
        }],
    }))
}

fn arrow(body: Vec<Statement>) -> Expression {
    Expression::ArrowFunctionExpression(Box::new(ArrowFunctionExpression {
        span: sp(),
        params: Vec::new(),
        body,
        scope_id: None,
    }))
}

fn array(elements: Vec<Expression>) -> Expression {
    Expression::ArrayExpression(Box::new(ArrayExpression {
        span: sp(),
        elements: elements.into_iter().map(ArrayExpressionElement::Expression).collect(),
    }))
}

fn state_pairs(program: &mut Program) -> Vec<(String, String)> {
    let semantic = analyze(program);
    assert!(semantic.diagnostics.is_empty());
    let nodes = collect_nodes(program);
    let ctx = LintContext::new(&semantic.scoping, &nodes);
    let rule = NoInfiniteRerenderLoop;
    let mut found = Vec::new();
    for i in 0..nodes.len() {
        for pair in rule.run(nodes.get_node(NodeId(i)), &ctx) {
            found.push((pair.state.name.clone(), pair.set_state.name.clone()));
        }
    }
    found
}

#[test]
fn no_infinite_rerender_loop_test() {
    let fail = r"
        const [top, setTop] = useState();
        const constant = 1;
        const Component = () => {
            const [state, setState] = useState();
            useEffect(() => {
                setState(1);
            }, [state, setTop, constant]);
        }
        ";
    let mut program = Program {
        span: sp(),
        source_text: fail,
        body: vec![
            constant(pair("top", "setTop"), call("useState", vec![])),
            constant(binding("constant"), num("1")),
            constant(
                binding("Component"),
                arrow(vec![
                    constant(pair("state", "setState"), call("useState", vec![])),
                    stmt(call(
                        "useEffect",
                        vec![
                            arrow(vec![stmt(call("setState", vec![num("1")]))]),
                            array(vec![id("state"), id("setTop"), id("constant")]),
                        ],
                    )),
                ]),
            ),
        ],
        scope_id: None,
    };
    let found = state_pairs(&mut program);
    assert_eq!(found, vec![("state".to_string(), "setState".to_string())]);
}

#[test]
fn an_effect_in_the_program_scope_has_no_state_dependencies() {
    let mut program = Program {
        span: sp(),
        source_text: "const [state, setState] = useState(); useEffect(() => {}, [state]);",
        body: vec![
            constant(pair("state", "setState"), call("useState", vec![])),
            stmt(call("useEffect", vec![arrow(vec![]), array(vec![id("state")])])),
        ],
        scope_id: None,
    };
    assert!(state_pairs(&mut program).is_empty());
}

#[test]
fn a_setter_in_the_dependencies_is_no_state_dependency() {
    let mut program = Program {
        span: sp(),
        source_text: "const C = () => { const [s, set] = useState(); useEffect(() => {}, [set, s.a]); }",
        body: vec![constant(
            binding("C"),
            arrow(vec![
                constant(pair("s", "set"), call("useState", vec![])),
                stmt(call(
                    "useEffect",
                    vec![
                        arrow(vec![]),
                        array(vec![
                            id("set"),
                            Expression::StaticMemberExpression(Box::new(StaticMemberExpression {
                                span: sp(),
                                object: id("s"),
                                property: IdentifierName { span: sp(), name: "a".to_string() },
                                optional: false,
                            })),
                        ]),
                    ],
                )),
            ]),
        )],
        scope_id: None,
    };
    assert_eq!(state_pairs(&mut program), vec![("s".to_string(), "set".to_string())]);
}

#[test]
fn use_effect_needs_a_callback_and_a_dependency_array() {
    let effect = |arguments: Vec<Argument>| CallExpression {
        span: sp(),
        callee: id("useEffect"),
        arguments,
        optional: false,
    };
    let good = effect(vec![
        Argument::Expression(arrow(vec![])),
        Argument::Expression(array(vec![id("a")])),
    ]);
    let found = use_effect_callback_and_deps(&good);
    assert!(found.is_some());
    assert_eq!(found.unwrap().1.elements.len(), 1);

    let no_deps = effect(vec![Argument::Expression(arrow(vec![]))]);
    assert!(use_effect_callback_and_deps(&no_deps).is_none());

    let not_a_function =
        effect(vec![Argument::Expression(id("f")), Argument::Expression(array(vec![]))]);
    assert!(use_effect_callback_and_deps(&not_a_function).is_none());

    let spread = effect(vec![
        Argument::Expression(arrow(vec![])),
        Argument::SpreadElement(Box::new(SpreadElement { span: sp(), argument: id("deps") })),
    ]);
    assert!(use_effect_callback_and_deps(&spread).is_none());

    let other = CallExpression {
        span: sp(),
        callee: id("useMemo"),
        arguments: vec![
            Argument::Expression(arrow(vec![])),
            Argument::Expression(array(vec![])),
        ],
        optional: false,
    };
    assert!(use_effect_callback_and_deps(&other).is_none());
}

#[test]
fn base_object_is_the_leftmost_identifier() {
    let chain = Expression::StaticMemberExpression(Box::new(StaticMemberExpression {
        span: sp(),
        object: Expression::StaticMemberExpression(Box::new(StaticMemberExpression {
            span: sp(),
            object: id("bar"),
            property: IdentifierName { span: sp(), name: "baz".to_string() },
            optional: false,
        })),
        property: IdentifierName { span: sp(), name: "qux".to_string() },
        optional: false,
    }));
    assert_eq!(get_base_object(&chain).map(|i| i.name.as_str()), Some("bar"));
    assert_eq!(get_base_object(&id("foo")).map(|i| i.name.as_str()), Some("foo"));
    let literal = Expression::StringLiteral(Box::new(StringLiteral {
        span: sp(),
        value: "not an identifier".to_string(),
    }));
    assert!(get_base_object(&literal).is_none());
}

#[test]
fn id_at_skips_holes_and_nested_patterns() {
    let pattern = ArrayPattern {
        span: sp(),
        elements: vec![Some(binding("a")), None, Some(pair("b", "c"))],
        rest: None,
    };
    assert_eq!(get_id_at(&pattern, 0).map(|i| i.name.as_str()), Some("a"));
    assert!(get_id_at(&pattern, 1).is_none());
    assert!(get_id_at(&pattern, 2).is_none());
}
