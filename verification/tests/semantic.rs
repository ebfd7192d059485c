use jscore::ast::kind::AstKind;
use jscore::ast::nodes::{
    AssignmentExpression, AssignmentOperator, AssignmentTarget, BindingIdentifier, BindingPattern,
    BindingPatternKind, BlockStatement, BooleanLiteral, Expression, ExpressionStatement, Function,
    IdentifierReference, IfStatement, NumericLiteral, Program, ReturnStatement, Statement,
    UpdateExpression, UpdateOperator, VariableDeclaration, VariableDeclarationKind,
    VariableDeclarator,
};
use jscore::diagnostic::Severity;
use jscore::semantic::builder::analyze;
use jscore::semantic::collect::collect_nodes;
use jscore::semantic::scoping::Scoping;
use jscore::span::Span;
use jscore::syntax::{
    NodeId, ReferenceFlags, ReferenceId, ScopeId, ScopeKind, SymbolFlags, SymbolId, SymbolKind,
};

fn sp() -> Span {
    Span::new(0, 0)
}

fn id(name: &str) -> Expression {
    Expression::Identifier(Box::new(reference(name)))
}

fn reference(name: &str) -> IdentifierReference {
    IdentifierReference { span: sp(), name: name.to_string(), reference_id: None }
}

fn num(raw: &str) -> Expression {
    Expression::NumericLiteral(Box::new(NumericLiteral { span: sp(), raw: raw.to_string() }))
}

fn stmt(expression: Expression) -> Statement {
    Statement::ExpressionStatement(Box::new(ExpressionStatement { span: sp(), expression }))
}

fn declare(kind: VariableDeclarationKind, name: &str, init: Option<Expression>) -> Statement {
    Statement::VariableDeclaration(Box::new(VariableDeclaration {
        span: sp(),
        kind,
        declarations: vec![VariableDeclarator {
            span: Span::new(7, 8),
            kind,
            id: BindingPattern {
                kind: BindingPatternKind::BindingIdentifier(Box::new(BindingIdentifier {
                    span: Span::new(5, 6),
                    name: name.to_string(),
                    symbol_id: None,
                })),
            },
            init,
        }],
    }))
}

fn block(body: Vec<Statement>) -> Statement {
    Statement::BlockStatement(Box::new(BlockStatement { span: sp(), body, scope_id: None }))
}

fn function(name: &str, params: Vec<&str>, body: Vec<Statement>) -> Statement {
    Statement::FunctionDeclaration(Box::new(Function {
        span: sp(),
        id: Some(BindingIdentifier { span: sp(), name: name.to_string(), symbol_id: None }),
        generator: false,
        params: params
            .into_iter()
            .map(|p| BindingPattern {
                kind: BindingPatternKind::BindingIdentifier(Box::new(BindingIdentifier {
                    span: sp(),
                    name: p.to_string(),
                    symbol_id: None,
                })),
            })
            .collect(),
        body,
        scope_id: None,
    }))
}

fn returning(argument: Expression) -> Statement {
    Statement::ReturnStatement(Box::new(ReturnStatement { span: sp(), argument: Some(argument) }))
}

fn program(body: Vec<Statement>) -> Program<'static> {
    Program { span: sp(), source_text: "", body, scope_id: None }
}

fn function_body<'a>(program: &'a Program<'_>) -> &'a Vec<Statement> {
    match &program.body[0] {
        Statement::FunctionDeclaration(f) => &f.body,
        other => panic!("not a function: {other:?}"),
    }
}

#[test]
fn a_var_in_a_block_belongs_to_the_function() {
    // function f() { if (true) { var y = 1; } }
    let mut tree = program(vec![function(
        "f",
        vec![],
        vec![Statement::IfStatement(Box::new(IfStatement {
            span: sp(),
            test: Expression::BooleanLiteral(Box::new(BooleanLiteral { span: sp(), value: true })),
            consequent: block(vec![declare(VariableDeclarationKind::Var, "y", Some(num("1")))]),
            alternate: None,
        }))],
    )]);
    let semantic = analyze(&mut tree);
    let scoping = &semantic.scoping;
    assert!(semantic.diagnostics.is_empty());
    assert_eq!(scoping.scopes_len(), 3);
    let function_scope = ScopeId(1);
    let block_scope = ScopeId(2);
    assert_eq!(scoping.scope_kind(function_scope), ScopeKind::Function);
    assert_eq!(scoping.scope_kind(block_scope), ScopeKind::Block);
    assert_eq!(scoping.parent_scope(block_scope), Some(function_scope));
    let y = scoping.find_binding(block_scope, "y").unwrap();
    assert_eq!(scoping.scope_of(y), function_scope);
    assert_eq!(scoping.get_binding_in_scope(block_scope, "y"), None);
    assert_eq!(scoping.get_binding_in_scope(function_scope, "y"), Some(y));
    assert!(scoping.symbol_flags(y).function_scoped);
}

#[test]
fn a_var_in_a_block_of_the_program_belongs_to_the_program() {
    // { var y = 1; let z = 2; }
    let mut tree = program(vec![block(vec![
        declare(VariableDeclarationKind::Var, "y", Some(num("1"))),
        declare(VariableDeclarationKind::Let, "z", Some(num("2"))),
    ])]);
    let semantic = analyze(&mut tree);
    let scoping = &semantic.scoping;
    let y = scoping.find_binding(ScopeId(1), "y").unwrap();
    let z = scoping.find_binding(ScopeId(1), "z").unwrap();
    assert_eq!(scoping.scope_of(y), ScopeId(0));
    assert_eq!(scoping.scope_of(z), ScopeId(1));
    assert_eq!(scoping.find_binding(ScopeId(0), "z"), None);
}

#[test]
fn an_inner_let_shadows_an_outer_var() {
    // function f() { var x = 1; { let x = 2; return x; } }
    let mut tree = program(vec![function(
        "f",
        vec![],
        vec![
            declare(VariableDeclarationKind::Var, "x", Some(num("1"))),
            block(vec![
                declare(VariableDeclarationKind::Let, "x", Some(num("2"))),
                returning(id("x")),
            ]),
        ],
    )]);
    let semantic = analyze(&mut tree);
    let scoping = &semantic.scoping;
    assert!(semantic.diagnostics.is_empty());
    let outer = scoping.get_binding_in_scope(ScopeId(1), "x").unwrap();
    let inner = scoping.get_binding_in_scope(ScopeId(2), "x").unwrap();
    assert_ne!(outer, inner);

    let returned = match &function_body(&tree)[1] {
        Statement::BlockStatement(b) => match &b.body[1] {
            Statement::ReturnStatement(r) => match r.argument.as_ref().unwrap() {
                Expression::Identifier(identifier) => identifier.reference_id.unwrap(),
                other => panic!("not an identifier: {other:?}"),
            },
            other => panic!("not a return: {other:?}"),
        },
        other => panic!("not a block: {other:?}"),
    };
    let entry = scoping.get_reference(returned);
    assert_eq!(entry.symbol_id(), Some(inner));
    assert_eq!(entry.flags, ReferenceFlags::Read);
    assert_eq!(scoping.references_of(inner), &vec![returned]);
    // The outer binding has no reads: nothing resolved to it.
    assert!(scoping
        .references_of(outer)
        .iter()
        .all(|r| !scoping.get_reference(*r).flags.is_read()));
    assert!(scoping.references_of(outer).is_empty());
}

#[test]
fn every_resolved_use_is_listed_by_its_binding() {
    // function f(a) { a = a + b; a++; }
    let mut tree = program(vec![function(
        "f",
        vec!["a"],
        vec![
            stmt(Expression::AssignmentExpression(Box::new(AssignmentExpression {
                span: sp(),
                operator: AssignmentOperator::Assign,
                left: AssignmentTarget::AssignmentTargetIdentifier(Box::new(reference("a"))),
                right: id("b"),
            }))),
            stmt(Expression::AssignmentExpression(Box::new(AssignmentExpression {
                span: sp(),
                operator: AssignmentOperator::Addition,
                left: AssignmentTarget::AssignmentTargetIdentifier(Box::new(reference("a"))),
                right: id("a"),
            }))),
            stmt(Expression::UpdateExpression(Box::new(UpdateExpression {
                span: sp(),
                operator: UpdateOperator::Increment,
                prefix: false,
                argument: AssignmentTarget::AssignmentTargetIdentifier(Box::new(reference("a"))),
            }))),
        ],
    )]);
    let semantic = analyze(&mut tree);
    let scoping = &semantic.scoping;
    assert_eq!(scoping.references_len(), 5);
    let a = scoping.find_binding(ScopeId(1), "a").unwrap();
    assert_eq!(scoping.symbol_flags(a).kind, SymbolKind::Parameter);
    for r in 0..scoping.references_len() {
        let r = ReferenceId(r);
        match scoping.get_reference(r).symbol_id() {
            Some(symbol) => assert!(scoping.references_of(symbol).contains(&r)),
            None => assert!(scoping.get_reference(r).is_unresolved()),
        }
    }
    for listed in scoping.references_of(a) {
        assert_eq!(scoping.get_reference(*listed).symbol_id(), Some(a));
    }
    let flags: Vec<ReferenceFlags> =
        (0..5).map(|r| scoping.get_reference(ReferenceId(r)).flags).collect();
    assert_eq!(
        flags,
        vec![
            ReferenceFlags::Write,
            ReferenceFlags::Read,
            ReferenceFlags::ReadWrite,
            ReferenceFlags::Read,
            ReferenceFlags::ReadWrite,
        ]
    );
    // `b` is bound nowhere: a free use.
    assert!(scoping.get_reference(ReferenceId(1)).is_unresolved());
    assert!(!ReferenceFlags::Write.is_read());
    assert!(ReferenceFlags::Write.is_write_only());
    assert!(ReferenceFlags::ReadWrite.is_read() && ReferenceFlags::ReadWrite.is_write());
}

fn shape(scoping: &Scoping) -> (Vec<(Option<ScopeId>, ScopeKind)>, Vec<(String, ScopeId, SymbolFlags, usize)>, Vec<(Option<SymbolId>, ReferenceFlags)>) {
    let scopes = (0..scoping.scopes_len())
        .map(|i| (scoping.parent_scope(ScopeId(i)), scoping.scope_kind(ScopeId(i))))
        .collect();
    let symbols = (0..scoping.symbols_len())
        .map(|i| {
            let b = scoping.get_binding(SymbolId(i));
            (b.name.clone(), b.scope, b.flags, b.references.len())
        })
        .collect();
    let references = (0..scoping.references_len())
        .map(|i| {
            let r = scoping.get_reference(ReferenceId(i));
            (r.symbol, r.flags)
        })
        .collect();
    (scopes, symbols, references)
}

#[test]
fn analyzing_again_gives_the_same_tables() {
    let mut tree = program(vec![
        declare(VariableDeclarationKind::Const, "k", Some(num("1"))),
        function(
            "f",
            vec!["a"],
            vec![
                declare(VariableDeclarationKind::Var, "x", Some(id("a"))),
                block(vec![declare(VariableDeclarationKind::Let, "x", Some(id("k"))), returning(id("x"))]),
            ],
        ),
        stmt(id("f")),
    ]);
    let first = analyze(&mut tree);
    let annotated = format!("{tree:?}");
    let second = analyze(&mut tree);
    assert_eq!(shape(&first.scoping), shape(&second.scoping));
    assert_eq!(format!("{tree:?}"), annotated);
    assert_eq!(first.scoping.symbols_len(), 5);
}

#[test]
fn a_name_declared_twice_in_one_scope_is_reported_and_keeps_its_first_binding() {
    // let x; let x; var v; var v; let w; var w;
    let mut tree = program(vec![
        declare(VariableDeclarationKind::Let, "x", None),
        declare(VariableDeclarationKind::Let, "x", None),
        declare(VariableDeclarationKind::Var, "v", None),
        declare(VariableDeclarationKind::Var, "v", None),
        declare(VariableDeclarationKind::Let, "w", None),
        declare(VariableDeclarationKind::Var, "w", None),
    ]);
    let semantic = analyze(&mut tree);
    assert_eq!(semantic.scoping.symbols_len(), 3);
    let messages: Vec<&str> = semantic.diagnostics.iter().map(|d| d.message.as_str()).collect();
    assert_eq!(
        messages,
        vec!["Identifier `x` has already been declared", "Identifier `w` has already been declared"]
    );
    assert_eq!(semantic.diagnostics[0].severity, Severity::Error);
    assert_eq!(semantic.diagnostics[0].rule, "");
    assert_eq!(semantic.diagnostics[0].span, Span::new(5, 6));
    let ids: Vec<Option<SymbolId>> = tree
        .body
        .iter()
        .map(|s| match s {
            Statement::VariableDeclaration(d) => match &d.declarations[0].id.kind {
                BindingPatternKind::BindingIdentifier(i) => i.symbol_id,
                other => panic!("not an identifier: {other:?}"),
            },
            other => panic!("not a declaration: {other:?}"),
        })
        .collect();
    assert_eq!(
        ids,
        vec![
            Some(SymbolId(0)),
            Some(SymbolId(0)),
            Some(SymbolId(1)),
            Some(SymbolId(1)),
            Some(SymbolId(2)),
            Some(SymbolId(2)),
        ]
    );
    assert!(!semantic.scoping.symbol_flags(SymbolId(0)).function_scoped);
}

#[test]
fn a_const_is_not_mutable() {
    let mut tree =
        program(vec![declare(VariableDeclarationKind::Const, "k", Some(num("1")))]);
    let semantic = analyze(&mut tree);
    let k = semantic.scoping.find_binding(ScopeId(0), "k").unwrap();
    assert!(!semantic.scoping.symbol_flags(k).mutable);
    assert_eq!(semantic.scoping.symbol_name(k), "k");
}

#[test]
fn the_node_table_lists_registered_nodes_under_the_ids_analysis_gave() {
    // function f(a) { let x = g(a); }
    let mut tree = program(vec![function(
        "f",
        vec!["a"],
        vec![declare(
            VariableDeclarationKind::Let,
            "x",
            Some(Expression::CallExpression(Box::new(jscore::ast::nodes::CallExpression {
                span: Span::new(3, 4),
                callee: id("g"),
                arguments: vec![jscore::ast::nodes::Argument::Expression(id("a"))],
                optional: false,
            }))),
        )],
    )]);
    let semantic = analyze(&mut tree);
    let nodes = collect_nodes(&tree);
    // program, function, declarator, call, g, a
    assert_eq!(nodes.len(), 6);
    assert!(matches!(nodes.get_node(NodeId(0)).kind(), AstKind::Program(_)));
    assert!(matches!(nodes.get_node(NodeId(1)).kind(), AstKind::Function(_)));
    assert!(matches!(nodes.get_node(NodeId(2)).kind(), AstKind::VariableDeclarator(_)));
    assert!(matches!(nodes.get_node(NodeId(3)).kind(), AstKind::CallExpression(_)));
    assert!(matches!(nodes.get_node(NodeId(4)).kind(), AstKind::IdentifierReference(_)));
    assert_eq!(nodes.get_node(NodeId(1)).scope_id(), ScopeId(0));
    assert_eq!(nodes.get_node(NodeId(2)).scope_id(), ScopeId(1));
    assert_eq!(nodes.get_node(NodeId(3)).id(), NodeId(3));
    assert_eq!(nodes.kind(NodeId(3)).span(), Span::new(3, 4));
    assert!(nodes.contains(NodeId(5)) && !nodes.contains(NodeId(6)));

    let scoping = &semantic.scoping;
    let x = scoping.find_binding(ScopeId(1), "x").unwrap();
    let f = scoping.find_binding(ScopeId(0), "f").unwrap();
    assert_eq!(scoping.get_declaration(x), NodeId(2));
    assert_eq!(scoping.get_declaration(f), NodeId(1));
    assert_eq!(scoping.get_scope(ScopeId(1)).node, NodeId(1));
    assert_eq!(scoping.get_reference(ReferenceId(0)).node, NodeId(4));
    assert_eq!(scoping.get_reference(ReferenceId(1)).node, NodeId(5));
}

#[test]
fn entries_outlive_the_nodes_they_were_made_for() {
    // let gone = 1; gone;
    let mut tree = program(vec![
        declare(VariableDeclarationKind::Let, "gone", Some(num("1"))),
        stmt(id("gone")),
    ]);
    let mut semantic = analyze(&mut tree);
    let symbol = semantic.scoping.find_binding(ScopeId(0), "gone").unwrap();
    tree.body.clear();
    let scoping = &mut semantic.scoping;
    assert!(scoping.contains_symbol(symbol));
    assert_eq!(scoping.get_binding(symbol).name, "gone");
    assert_eq!(scoping.references_of(symbol), &vec![ReferenceId(0)]);
    assert_eq!(scoping.get_reference(ReferenceId(0)).symbol_id(), Some(symbol));
    // The tables only grow.
    let later = scoping.declare(ScopeId(0), "later", NodeId::dummy(), SymbolFlags::of_kind(SymbolKind::Variable));
    let use_of_gone = scoping.resolve_reference(ScopeId(0), "gone", NodeId::dummy(), ReferenceFlags::Read);
    assert_eq!(later, SymbolId(1));
    assert_eq!(scoping.get_binding(symbol).name, "gone");
    assert_eq!(scoping.references_of(symbol), &vec![ReferenceId(0), use_of_gone]);
    assert!(!scoping.contains_symbol(SymbolId(2)));
    assert!(!scoping.contains_reference(ReferenceId(2)));
    assert!(!scoping.contains_scope(ScopeId(1)));
    assert_eq!(scoping.root_scope_id(), ScopeId(0));
    assert_eq!(scoping.get_root_binding("later"), Some(later));
    assert_eq!(scoping.hoist_target(ScopeId(0)), ScopeId(0));
    let function_scope = scoping.add_scope(ScopeId(0), ScopeKind::Function, NodeId::dummy());
    let block_scope = scoping.add_scope(function_scope, ScopeKind::Block, NodeId::dummy());
    let hoisted = scoping.declare_hoisted(block_scope, "h", NodeId::dummy(), SymbolFlags::of_kind(SymbolKind::Variable));
    assert_eq!(scoping.scope_of(hoisted), function_scope);
    let free = scoping.create_reference(NodeId::dummy(), None, ReferenceFlags::Write);
    assert!(scoping.get_reference(free).is_unresolved());
}
