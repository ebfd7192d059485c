use jscore::ast::nodes::{
    Argument, BinaryExpression, BinaryOperator, BlockStatement, CallExpression, Expression,
    ExpressionStatement, IdentifierReference, NumericLiteral, Program, Statement, StringLiteral,
};
use jscore::semantic::builder::analyze;
use jscore::semantic::scoping::Scoping;
use jscore::span::Span;
use jscore::syntax::{NodeId, ScopeId};
use jscore::traverse::context::{TraverseCtx, Visit};
use jscore::traverse::hooks::Traverse;
use jscore::traverse::log::record_walk;
use jscore::traverse::walk::walk_program;

fn id(at: u32, name: &str) -> Expression {
    Expression::Identifier(Box::new(IdentifierReference {
        span: Span::new(at, at + 1),
        name: name.to_string(),
        reference_id: None,
    }))
}

fn num(at: u32, raw: &str) -> Expression {
    Expression::NumericLiteral(Box::new(NumericLiteral {
        span: Span::new(at, at + 1),
        raw: raw.to_string(),
    }))
}

fn stmt(at: u32, expression: Expression) -> Statement {
    Statement::ExpressionStatement(Box::new(ExpressionStatement {
        span: Span::new(at, at + 1),
        expression,
    }))
}

fn program(body: Vec<Statement>) -> Program<'static> {
    Program { span: Span::new(0, 100), source_text: "", body, scope_id: None }
}

/// `f(a, 1); { b + 2; }`
fn sample() -> Program<'static> {
    program(vec![
        stmt(
            10,
            Expression::CallExpression(Box::new(CallExpression {
                span: Span::new(11, 12),
                callee: id(12, "f"),
                arguments: vec![Argument::Expression(id(13, "a")), Argument::Expression(num(14, "1"))],
                optional: false,
            })),
        ),
        Statement::BlockStatement(Box::new(BlockStatement {
            span: Span::new(20, 21),
            body: vec![stmt(
                21,
                Expression::BinaryExpression(Box::new(BinaryExpression {
                    span: Span::new(22, 23),
                    left: id(23, "b"),
                    operator: BinaryOperator::Addition,
                    right: num(24, "2"),
                })),
            )],
            scope_id: None,
        })),
    ])
}

fn s(at: u32) -> Span {
    Span::new(at, at + 1)
}

#[test]
fn every_node_is_entered_once_and_left_once() {
    let mut tree = sample();
    let (visits, complete, _) = record_walk(&mut tree, Scoping::new(NodeId(0)), 10);
    assert!(complete);
    assert_eq!(
        visits,
        vec![
            Visit::EnterProgram,
            Visit::EnterStatement(s(10)),
            Visit::EnterExpression(s(11)),
            Visit::EnterExpression(s(12)),
            Visit::ExitExpression(s(12)),
            Visit::EnterExpression(s(13)),
            Visit::ExitExpression(s(13)),
            Visit::EnterExpression(s(14)),
            Visit::ExitExpression(s(14)),
            Visit::ExitExpression(s(11)),
            Visit::ExitStatement(s(10)),
            Visit::EnterStatement(s(20)),
            Visit::EnterStatement(s(21)),
            Visit::EnterExpression(s(22)),
            Visit::EnterExpression(s(23)),
            Visit::ExitExpression(s(23)),
            Visit::EnterExpression(s(24)),
            Visit::ExitExpression(s(24)),
            Visit::ExitExpression(s(22)),
            Visit::ExitStatement(s(21)),
            Visit::ExitStatement(s(20)),
            Visit::ExitProgram,
        ]
    );
    assert_eq!(tree, sample());
}

#[test]
fn a_walk_that_may_not_descend_far_enough_says_so() {
    let mut tree = sample();
    let (visits, complete, _) = record_walk(&mut tree, Scoping::new(NodeId(0)), 2);
    assert!(!complete);
    assert_eq!(
        visits,
        vec![
            Visit::EnterProgram,
            Visit::EnterStatement(s(10)),
            Visit::EnterExpression(s(11)),
            Visit::ExitExpression(s(11)),
            Visit::ExitStatement(s(10)),
            Visit::EnterStatement(s(20)),
            Visit::EnterStatement(s(21)),
            Visit::ExitStatement(s(21)),
            Visit::ExitStatement(s(20)),
            Visit::ExitProgram,
        ]
    );
}

/// Takes the second statement out when the walk enters the program, puts
/// a string in place of every number it enters, and writes down what it
/// enters and leaves.
struct Rewriter {
    entered: Vec<Span>,
    left: Vec<Span>,
    scopes: Vec<ScopeId>,
}

impl Traverse for Rewriter {
    fn inv(&self, _trail: vstd::seq::Seq<Visit>) -> bool {
        true
    }

    fn observes(&self) -> bool {
        false
    }

    fn enter_program(&mut self, program: &mut Program<'_>, _ctx: &mut TraverseCtx) {
        program.body.remove(1);
        program.body.push(stmt(30, num(31, "3")));
    }

    fn exit_program(&mut self, _program: &mut Program<'_>, _ctx: &mut TraverseCtx) {}

    fn enter_statement(&mut self, statement: &mut Statement, ctx: &mut TraverseCtx) {
        self.entered.push(statement.span());
        self.scopes.push(ctx.current_scope_id());
    }

    fn exit_statement(&mut self, statement: &mut Statement, _ctx: &mut TraverseCtx) {
        self.left.push(statement.span());
    }

    fn enter_expression(&mut self, expression: &mut Expression, _ctx: &mut TraverseCtx) {
        self.entered.push(expression.span());
        if let Expression::NumericLiteral(number) = expression {
            let span = Span::new(number.span.start + 100, number.span.end + 100);
            let value = number.raw.clone();
            *expression = Expression::StringLiteral(Box::new(StringLiteral { span, value }));
        }
    }

    fn exit_expression(&mut self, expression: &mut Expression, _ctx: &mut TraverseCtx) {
        self.left.push(expression.span());
    }
}

#[test]
fn what_is_removed_before_it_is_reached_is_not_visited_and_what_is_put_in_is() {
    let mut tree = sample();
    let mut pass = Rewriter { entered: Vec::new(), left: Vec::new(), scopes: Vec::new() };
    let mut ctx = TraverseCtx::new(Scoping::new(NodeId(0)));
    let complete = walk_program(&mut pass, &mut tree, &mut ctx, 10);
    assert!(complete);
    // The block at 20 was removed before the walk reached it; the statement
    // at 30 was put in before the walk reached its position.
    assert_eq!(pass.entered, vec![s(10), s(11), s(12), s(13), s(14), s(30), s(31)]);
    // A node replaced by its own enter hook is left as what stands there.
    assert_eq!(pass.left, vec![s(12), s(13), s(114), s(11), s(10), s(131), s(30)]);
    assert_eq!(tree.body.len(), 2);
}

#[test]
fn the_current_scope_follows_the_nesting() {
    let mut tree = sample();
    let semantic = analyze(&mut tree);
    let mut pass = Rewriter { entered: Vec::new(), left: Vec::new(), scopes: Vec::new() };
    // Keep the block this time.
    tree.body.insert(1, stmt(40, id(41, "kept")));
    let mut ctx = TraverseCtx::new(semantic.scoping);
    walk_program(&mut pass, &mut tree, &mut ctx, 10);
    // Statements entered: 10, then the block at 20 and, inside it, 21, then 30.
    assert_eq!(pass.scopes, vec![ScopeId(0), ScopeId(0), ScopeId(1), ScopeId(0)]);
    assert_eq!(ctx.scope_depth(), 1);
}
