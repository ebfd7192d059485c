//! The depth-first walk.
//!
//! The walk enters a node, walks its children from first to last, and
//! leaves the node. What it walks is the tree as it stands: the children
//! walked are those the node has once its enter hook has run, so a node
//! put in place before the walk reaches its position is visited, a node
//! taken out before the walk reaches it is not, and a position the walk
//! has passed is not visited again.
//!
//! A hook may grow the tree below the walk without end, so the walk
//! descends only to a given depth and reports whether that was enough.
//!
//! Whatever the pass does, the walk leaves every node that it enters, and
//! the tables only grow under it. Under a pass that only looks, the
//! visits are exactly those of the tour of the tree.

use crate::ast::nodes::{
    Argument, ArrayExpressionElement, AssignmentTarget, ChainElement, ClassElement, Expression,
    Program, Statement, VariableDeclarator,
};
use crate::semantic::laws::lemma_extends_transitive;
use crate::syntax::ScopeId;
use crate::traverse::context::{TraverseCtx, TraverseModel, Visit};
use crate::traverse::hooks::Traverse;
use crate::traverse::tour::{
    Child, argument_expression, enters, exits, expression_children, fits_all, lemma_tour_concat,
    lemma_tour_one, lemma_visits_add_up, of_arguments, of_chain, of_class_body, of_class_element,
    of_declarators, of_element, of_elements, of_expressions, of_optional, of_statements, of_target,
    program_tour, statement_children, tour, tour_all,
};
use vstd::prelude::*;

verus! {

/// Makes `scope` current while the children of the node that opened it
/// are walked. A node without a scope of its own, or with one the tables
/// do not hold, leaves the current scope as it is.
fn enter_scope(scope: Option<ScopeId>, ctx: &mut TraverseCtx) -> (entered: bool)
    requires
        old(ctx).wf(),
    ensures
        final(ctx).wf(),
        final(ctx)@.scoping == old(ctx)@.scoping,
        final(ctx)@.generated == old(ctx)@.generated,
        final(ctx)@.trail == old(ctx)@.trail,
        entered == (scope is Some && old(ctx)@.scoping.has_scope(scope.unwrap())),
        entered ==> final(ctx)@.scope_stack == old(ctx)@.scope_stack.push(scope.unwrap()),
        entered ==> final(ctx)@.scope_stack.drop_last() == old(ctx)@.scope_stack,
        !entered ==> final(ctx)@.scope_stack == old(ctx)@.scope_stack,
{
    match scope {
        Some(id) => {
            if ctx.scoping().contains_scope(id) {
                ctx.push_scope(id);
                proof {
                    assert(ctx@.scope_stack.drop_last() =~= old(ctx)@.scope_stack);
                }
                true
            } else {
                false
            }
        },
        None => false,
    }
}

/// Makes the scope that was current before [`enter_scope`] current again.
fn leave_scope(entered: bool, ctx: &mut TraverseCtx)
    requires
        old(ctx).wf(),
        entered ==> old(ctx)@.scope_stack.len() >= 2,
    ensures
        final(ctx).wf(),
        final(ctx)@.scoping == old(ctx)@.scoping,
        final(ctx)@.generated == old(ctx)@.generated,
        final(ctx)@.trail == old(ctx)@.trail,
        entered ==> final(ctx)@.scope_stack == old(ctx)@.scope_stack.drop_last(),
        !entered ==> final(ctx)@.scope_stack == old(ctx)@.scope_stack,
{
    if entered {
        ctx.pop_scope();
    }
}


/// What a stretch of a walk adds to the record, whatever the pass does:
/// it only appends, and it leaves as many nodes as it enters.
pub open spec fn trail_grows(before: Seq<Visit>, after: Seq<Visit>) -> bool {
    &&& before.is_prefix_of(after)
    &&& enters(after.skip(before.len() as int)) == exits(after.skip(before.len() as int))
}

/// How the visit of a node shows in the record, whatever the pass does:
/// the first thing recorded is that the node, as it stood, was entered,
/// and the last that the node, as it then stood, was left.
pub open spec fn visit_begins(before: Seq<Visit>, after: Seq<Visit>, node: Child) -> bool {
    &&& after.len() >= before.len() + 2
    &&& after[before.len() as int] == match node {
        Child::Statement(s) => Visit::EnterStatement(s.spec_span()),
        Child::Expression(e) => Visit::EnterExpression(e.spec_span()),
    }
    &&& match node {
        Child::Statement(_) => after.last() is ExitStatement,
        Child::Expression(_) => after.last() is ExitExpression,
    }
}

/// What a walk, whatever the pass does, leaves as it found it: the
/// context stays consistent, the tables only grow, the scope that was
/// current is current again, what was generated and recorded before is
/// still there, and every node that was entered has been left.
pub open spec fn walk_keeps(before: TraverseModel, after: TraverseModel) -> bool {
    &&& after.wf()
    &&& after.scoping.extends(before.scoping)
    &&& after.scope_stack == before.scope_stack
    &&& before.generated.is_prefix_of(after.generated)
    &&& trail_grows(before.trail, after.trail)
}

/// Two stretches of a walk in a row are one stretch.
pub proof fn lemma_trail_grows_on(first: Seq<Visit>, second: Seq<Visit>, third: Seq<Visit>)
    requires
        trail_grows(first, second),
        trail_grows(second, third),
    ensures
        trail_grows(first, third),
{
    let a = second.skip(first.len() as int);
    let b = third.skip(second.len() as int);
    assert(third.skip(first.len() as int) =~= a + b);
    lemma_visits_add_up(a, b);
}

/// A stretch that adds nothing.
pub proof fn lemma_trail_rests(trail: Seq<Visit>)
    ensures
        trail_grows(trail, trail),
{
    assert(trail.skip(trail.len() as int) =~= Seq::<Visit>::empty());
}

/// A stretch between the visit that enters a node and the visit that
/// leaves a node is a stretch with the two visits.
pub proof fn lemma_trail_brackets(
    before: Seq<Visit>,
    entered: Seq<Visit>,
    walked: Seq<Visit>,
    left: Seq<Visit>,
    counted: bool,
)
    requires
        entered.len() > 0,
        before == entered.drop_last(),
        trail_grows(entered, walked),
        left.len() > 0,
        walked == left.drop_last(),
        if counted {
            (entered.last() is EnterStatement || entered.last() is EnterExpression) && (
            left.last() is ExitStatement || left.last() is ExitExpression)
        } else {
            entered.last() is EnterProgram && left.last() is ExitProgram
        },
    ensures
        trail_grows(before, left),
{
    let enter = seq![entered.last()];
    let middle = walked.skip(entered.len() as int);
    let exit = seq![left.last()];
    assert(entered =~= before + enter);
    assert(left =~= walked.push(left.last()));
    assert(left.skip(before.len() as int) =~= enter + middle + exit);
    lemma_visits_add_up(enter, middle);
    lemma_visits_add_up(enter + middle, exit);
    assert(enter.drop_last() =~= Seq::<Visit>::empty());
    assert(exit.drop_last() =~= Seq::<Visit>::empty());
    assert(enters(enter.drop_last()) == 0 && exits(enter.drop_last()) == 0);
    assert(enters(exit.drop_last()) == 0 && exits(exit.drop_last()) == 0);
    assert(enter.last() == entered.last());
    assert(exit.last() == left.last());
}

/// What a walk under a pass that only looks has done: it has visited
/// `children` in tour order and nothing else, changed nothing but the
/// record of the walk, and reports whether it reached every node.
pub open spec fn walk_observed(
    before: TraverseModel,
    after: TraverseModel,
    children: Seq<Child>,
    depth: nat,
    complete: bool,
) -> bool {
    &&& after == (TraverseModel { trail: before.trail + tour_all(children, depth), ..before })
    &&& complete == fits_all(children, depth)
}

/// Two walks in a row are one walk over both lists of children.
pub proof fn lemma_walk_then(
    first: TraverseModel,
    second: TraverseModel,
    third: TraverseModel,
    done: Seq<Child>,
    next: Seq<Child>,
    depth: nat,
    done_complete: bool,
    next_complete: bool,
    observes: bool,
)
    requires
        walk_keeps(first, second),
        walk_keeps(second, third),
        observes ==> walk_observed(first, second, done, depth, done_complete),
        observes ==> walk_observed(second, third, next, depth, next_complete),
    ensures
        walk_keeps(first, third),
        observes ==> walk_observed(
            first,
            third,
            done + next,
            depth,
            done_complete && next_complete,
        ),
{
    lemma_extends_transitive(first.scoping, second.scoping, third.scoping);
    lemma_trail_grows_on(first.trail, second.trail, third.trail);
    if observes {
        lemma_tour_concat(done, next, depth);
        assert(first.trail + tour_all(done, depth) + tour_all(next, depth) =~= first.trail + (
        tour_all(done, depth) + tour_all(next, depth)));
    }
}

/// A walk that visits nothing has visited the empty list.
pub proof fn lemma_walk_nothing(model: TraverseModel, depth: nat)
    requires
        model.wf(),
    ensures
        walk_keeps(model, model),
        walk_observed(model, model, Seq::<Child>::empty(), depth, true),
{
    lemma_trail_rests(model.trail);
    assert(model.trail + Seq::<Visit>::empty() =~= model.trail);
}

/// Entering a node, walking its children one level less deep and leaving
/// the node is touring the node.
pub proof fn lemma_walk_node(
    before: TraverseModel,
    entered: TraverseModel,
    walked: TraverseModel,
    left: TraverseModel,
    node: Child,
    depth: nat,
    complete: bool,
    observes: bool,
)
    requires
        depth > 0,
        before.wf(),
        entered.wf(),
        walk_keeps(entered, walked),
        left.wf(),
        entered.scoping.extends(before.scoping),
        entered.scope_stack == before.scope_stack,
        before.generated.is_prefix_of(entered.generated),
        entered.trail.len() > 0 && before.trail == entered.trail.drop_last(),
        entered.trail.last() == match node {
            Child::Statement(s) => Visit::EnterStatement(s.spec_span()),
            Child::Expression(e) => Visit::EnterExpression(e.spec_span()),
        },
        left.scoping.extends(walked.scoping),
        left.scope_stack == walked.scope_stack,
        walked.generated.is_prefix_of(left.generated),
        left.trail.len() > 0 && walked.trail == left.trail.drop_last(),
        match node {
            Child::Statement(_) => left.trail.last() is ExitStatement,
            Child::Expression(_) => left.trail.last() is ExitExpression,
        },
        observes ==> entered == (TraverseModel {
            trail: before.trail.push(
                match node {
                    Child::Statement(s) => Visit::EnterStatement(s.spec_span()),
                    Child::Expression(e) => Visit::EnterExpression(e.spec_span()),
                },
            ),
            ..before
        }),
        observes ==> walk_observed(
            entered,
            walked,
            match node {
                Child::Statement(s) => statement_children(s),
                Child::Expression(e) => expression_children(e),
            },
            (depth - 1) as nat,
            complete,
        ),
        observes ==> left == (TraverseModel {
            trail: walked.trail.push(
                match node {
                    Child::Statement(s) => Visit::ExitStatement(s.spec_span()),
                    Child::Expression(e) => Visit::ExitExpression(e.spec_span()),
                },
            ),
            ..walked
        }),
    ensures
        walk_keeps(before, left),
        observes ==> walk_observed(before, left, seq![node], depth, complete),
        visit_begins(before.trail, left.trail, node),
{
    lemma_extends_transitive(before.scoping, entered.scoping, walked.scoping);
    lemma_extends_transitive(before.scoping, walked.scoping, left.scoping);
    lemma_trail_brackets(before.trail, entered.trail, walked.trail, left.trail, true);
    assert(left.trail[before.trail.len() as int] == entered.trail.last()) by {
        assert(entered.trail.is_prefix_of(walked.trail));
        assert(walked.trail.is_prefix_of(left.trail));
        assert(entered.trail[before.trail.len() as int] == entered.trail.last());
    }
    if observes {
        lemma_tour_one(node, depth);
        let below = match node {
            Child::Statement(s) => statement_children(s),
            Child::Expression(e) => expression_children(e),
        };
        let enter = match node {
            Child::Statement(s) => Visit::EnterStatement(s.spec_span()),
            Child::Expression(e) => Visit::EnterExpression(e.spec_span()),
        };
        let exit = match node {
            Child::Statement(s) => Visit::ExitStatement(s.spec_span()),
            Child::Expression(e) => Visit::ExitExpression(e.spec_span()),
        };
        let middle = tour_all(below, (depth - 1) as nat);
        assert(tour(node, depth) == seq![enter] + middle + seq![exit]);
        assert((before.trail.push(enter) + middle).push(exit) =~= before.trail + (seq![enter]
            + middle + seq![exit]));
    }
}

/// A walk made with a scope entered before and left after is a walk.
pub proof fn lemma_walk_scoped(
    before: TraverseModel,
    inside: TraverseModel,
    walked: TraverseModel,
    after: TraverseModel,
    children: Seq<Child>,
    depth: nat,
    complete: bool,
    observes: bool,
)
    requires
        before.wf(),
        inside.scoping == before.scoping,
        inside.generated == before.generated,
        inside.trail == before.trail,
        inside.scope_stack == before.scope_stack || inside.scope_stack.drop_last()
            == before.scope_stack,
        walk_keeps(inside, walked),
        observes ==> walk_observed(inside, walked, children, depth, complete),
        after.wf(),
        after.scoping == walked.scoping,
        after.generated == walked.generated,
        after.trail == walked.trail,
        after.scope_stack == before.scope_stack,
    ensures
        walk_keeps(before, after),
        observes ==> walk_observed(before, after, children, depth, complete),
{
}

/// Walks the statements of a list, first to last.
pub fn walk_statements<T: Traverse>(
    pass: &mut T,
    list: &mut Vec<Statement>,
    ctx: &mut TraverseCtx,
    depth: usize,
) -> (complete: bool)
    requires
        old(ctx).wf(),
        old(pass).inv(old(ctx)@.trail),
    ensures
        walk_keeps(old(ctx)@, final(ctx)@),
        final(pass).inv(final(ctx)@.trail),
        final(pass).observes() == old(pass).observes(),
        old(pass).observes() ==> walk_observed(
            old(ctx)@,
            final(ctx)@,
            of_statements(old(list)@),
            depth as nat,
            complete,
        ),
        final(list)@.len() == old(list)@.len(),
    decreases depth, 1nat,
{
    let ghost before = ctx@;
    let ghost observes = pass.observes();
    let mut complete = true;
    let mut i: usize = 0;
    proof {
        lemma_walk_nothing(before, depth as nat);
            assert(of_statements(old(list)@).take(0) =~= Seq::<Child>::empty());
    }
    while i < list.len()
        invariant
            i <= list.len(),
            list@.len() == old(list)@.len(),
            forall|j: int| i <= j < list@.len() ==> list@[j] == old(list)@[j],
            pass.inv(ctx@.trail),
            pass.observes() == observes,
            walk_keeps(before, ctx@),
            observes ==> walk_observed(
                before,
                ctx@,
                of_statements(old(list)@).take(i as int),
                depth as nat,
                complete,
            ),
        decreases list.len() - i,
    {
        let ghost mid = ctx@;
        let ghost so_far = complete;
        let reached = walk_statement(pass, &mut list[i], ctx, depth);
        proof {
            let all = of_statements(old(list)@);
            lemma_walk_then(
                before,
                mid,
                ctx@,
                all.take(i as int),
                seq![Child::Statement(old(list)@[i as int])],
                depth as nat,
                so_far,
                reached,
                observes,
            );
            assert(
                all.take(i as int) + seq![Child::Statement(old(list)@[i as int])] =~= all.take(
                    i + 1
                )
            );
        }
        complete = complete && reached;
        i += 1;
    }
    proof {
            assert(of_statements(old(list)@).take(i as int) =~= of_statements(old(list)@));
    }
    complete
}

/// Walks the expressions of a list, first to last.
pub fn walk_expressions<T: Traverse>(
    pass: &mut T,
    list: &mut Vec<Expression>,
    ctx: &mut TraverseCtx,
    depth: usize,
) -> (complete: bool)
    requires
        old(ctx).wf(),
        old(pass).inv(old(ctx)@.trail),
    ensures
        walk_keeps(old(ctx)@, final(ctx)@),
        final(pass).inv(final(ctx)@.trail),
        final(pass).observes() == old(pass).observes(),
        old(pass).observes() ==> walk_observed(
            old(ctx)@,
            final(ctx)@,
            of_expressions(old(list)@),
            depth as nat,
            complete,
        ),
        final(list)@.len() == old(list)@.len(),
    decreases depth, 1nat,
{
    let ghost before = ctx@;
    let ghost observes = pass.observes();
    let mut complete = true;
    let mut i: usize = 0;
    proof {
        lemma_walk_nothing(before, depth as nat);
            assert(of_expressions(old(list)@).take(0) =~= Seq::<Child>::empty());
    }
    while i < list.len()
        invariant
            i <= list.len(),
            list@.len() == old(list)@.len(),
            forall|j: int| i <= j < list@.len() ==> list@[j] == old(list)@[j],
            pass.inv(ctx@.trail),
            pass.observes() == observes,
            walk_keeps(before, ctx@),
            observes ==> walk_observed(
                before,
                ctx@,
                of_expressions(old(list)@).take(i as int),
                depth as nat,
                complete,
            ),
        decreases list.len() - i,
    {
        let ghost mid = ctx@;
        let ghost so_far = complete;
        let reached = walk_expression(pass, &mut list[i], ctx, depth);
        proof {
            let all = of_expressions(old(list)@);
            lemma_walk_then(
                before,
                mid,
                ctx@,
                all.take(i as int),
                seq![Child::Expression(old(list)@[i as int])],
                depth as nat,
                so_far,
                reached,
                observes,
            );
            assert(
                all.take(i as int) + seq![Child::Expression(old(list)@[i as int])] =~= all.take(
                    i + 1
                )
            );
        }
        complete = complete && reached;
        i += 1;
    }
    proof {
            assert(of_expressions(old(list)@).take(i as int) =~= of_expressions(old(list)@));
    }
    complete
}

/// Walks the arguments of a call, first to last.
pub fn walk_arguments<T: Traverse>(
    pass: &mut T,
    list: &mut Vec<Argument>,
    ctx: &mut TraverseCtx,
    depth: usize,
) -> (complete: bool)
    requires
        old(ctx).wf(),
        old(pass).inv(old(ctx)@.trail),
    ensures
        walk_keeps(old(ctx)@, final(ctx)@),
        final(pass).inv(final(ctx)@.trail),
        final(pass).observes() == old(pass).observes(),
        old(pass).observes() ==> walk_observed(
            old(ctx)@,
            final(ctx)@,
            of_arguments(old(list)@),
            depth as nat,
            complete,
        ),
        final(list)@.len() == old(list)@.len(),
    decreases depth, 2nat,
{
    let ghost before = ctx@;
    let ghost observes = pass.observes();
    let mut complete = true;
    let mut i: usize = 0;
    proof {
        lemma_walk_nothing(before, depth as nat);
            assert(of_arguments(old(list)@).take(0) =~= Seq::<Child>::empty());
    }
    while i < list.len()
        invariant
            i <= list.len(),
            list@.len() == old(list)@.len(),
            forall|j: int| i <= j < list@.len() ==> list@[j] == old(list)@[j],
            pass.inv(ctx@.trail),
            pass.observes() == observes,
            walk_keeps(before, ctx@),
            observes ==> walk_observed(
                before,
                ctx@,
                of_arguments(old(list)@).take(i as int),
                depth as nat,
                complete,
            ),
        decreases list.len() - i,
    {
        let ghost mid = ctx@;
        let ghost so_far = complete;
        let reached = walk_argument(pass, &mut list[i], ctx, depth);
        proof {
            let all = of_arguments(old(list)@);
            lemma_walk_then(
                before,
                mid,
                ctx@,
                all.take(i as int),
                seq![Child::Expression(argument_expression(old(list)@[i as int]))],
                depth as nat,
                so_far,
                reached,
                observes,
            );
            assert(
                all.take(i as int) + seq![
                    Child::Expression(argument_expression(old(list)@[i as int]))
                ]
                    =~= all.take(i + 1)
            );
        }
        complete = complete && reached;
        i += 1;
    }
    proof {
            assert(of_arguments(old(list)@).take(i as int) =~= of_arguments(old(list)@));
    }
    complete
}

/// Walks the elements of an array, first to last.
pub fn walk_elements<T: Traverse>(
    pass: &mut T,
    list: &mut Vec<ArrayExpressionElement>,
    ctx: &mut TraverseCtx,
    depth: usize,
) -> (complete: bool)
    requires
        old(ctx).wf(),
        old(pass).inv(old(ctx)@.trail),
    ensures
        walk_keeps(old(ctx)@, final(ctx)@),
        final(pass).inv(final(ctx)@.trail),
        final(pass).observes() == old(pass).observes(),
        old(pass).observes() ==> walk_observed(
            old(ctx)@,
            final(ctx)@,
            of_elements(old(list)@),
            depth as nat,
            complete,
        ),
        final(list)@.len() == old(list)@.len(),
    decreases depth, 2nat,
{
    let ghost before = ctx@;
    let ghost observes = pass.observes();
    let mut complete = true;
    let mut i: usize = 0;
    proof {
        lemma_walk_nothing(before, depth as nat);
            assert(old(list)@.take(0) =~= Seq::<ArrayExpressionElement>::empty());
    }
    while i < list.len()
        invariant
            i <= list.len(),
            list@.len() == old(list)@.len(),
            forall|j: int| i <= j < list@.len() ==> list@[j] == old(list)@[j],
            pass.inv(ctx@.trail),
            pass.observes() == observes,
            walk_keeps(before, ctx@),
            observes ==> walk_observed(
                before,
                ctx@,
                of_elements(old(list)@.take(i as int)),
                depth as nat,
                complete,
            ),
        decreases list.len() - i,
    {
        let ghost mid = ctx@;
        let ghost so_far = complete;
        let reached = walk_element(pass, &mut list[i], ctx, depth);
        proof {
            let whole = old(list)@;
            assert(whole.take(i + 1).drop_last() =~= whole.take(i as int));
            assert(whole.take(i + 1).last() == whole[i as int]);
            lemma_walk_then(
                before,
                mid,
                ctx@,
                of_elements(whole.take(i as int)),
                of_element(old(list)@[i as int]),
                depth as nat,
                so_far,
                reached,
                observes,
            );
        }
        complete = complete && reached;
        i += 1;
    }
    proof {
            assert(old(list)@.take(i as int) =~= old(list)@);
    }
    complete
}

/// Walks the initializers of a declaration, first to last.
pub fn walk_declarators<T: Traverse>(
    pass: &mut T,
    list: &mut Vec<VariableDeclarator>,
    ctx: &mut TraverseCtx,
    depth: usize,
) -> (complete: bool)
    requires
        old(ctx).wf(),
        old(pass).inv(old(ctx)@.trail),
    ensures
        walk_keeps(old(ctx)@, final(ctx)@),
        final(pass).inv(final(ctx)@.trail),
        final(pass).observes() == old(pass).observes(),
        old(pass).observes() ==> walk_observed(
            old(ctx)@,
            final(ctx)@,
            of_declarators(old(list)@),
            depth as nat,
            complete,
        ),
        final(list)@.len() == old(list)@.len(),
    decreases depth, 2nat,
{
    let ghost before = ctx@;
    let ghost observes = pass.observes();
    let mut complete = true;
    let mut i: usize = 0;
    proof {
        lemma_walk_nothing(before, depth as nat);
            assert(old(list)@.take(0) =~= Seq::<VariableDeclarator>::empty());
    }
    while i < list.len()
        invariant
            i <= list.len(),
            list@.len() == old(list)@.len(),
            forall|j: int| i <= j < list@.len() ==> list@[j] == old(list)@[j],
            pass.inv(ctx@.trail),
            pass.observes() == observes,
            walk_keeps(before, ctx@),
            observes ==> walk_observed(
                before,
                ctx@,
                of_declarators(old(list)@.take(i as int)),
                depth as nat,
                complete,
            ),
        decreases list.len() - i,
    {
        let ghost mid = ctx@;
        let ghost so_far = complete;
        let reached = walk_optional(pass, &mut list[i].init, ctx, depth);
        proof {
            let whole = old(list)@;
            assert(whole.take(i + 1).drop_last() =~= whole.take(i as int));
            assert(whole.take(i + 1).last() == whole[i as int]);
            lemma_walk_then(
                before,
                mid,
                ctx@,
                of_declarators(whole.take(i as int)),
                of_optional(old(list)@[i as int].init),
                depth as nat,
                so_far,
                reached,
                observes,
            );
        }
        complete = complete && reached;
        i += 1;
    }
    proof {
            assert(old(list)@.take(i as int) =~= old(list)@);
    }
    complete
}

/// Walks the elements of a class body, first to last.
pub fn walk_class_body<T: Traverse>(
    pass: &mut T,
    list: &mut Vec<ClassElement>,
    ctx: &mut TraverseCtx,
    depth: usize,
) -> (complete: bool)
    requires
        old(ctx).wf(),
        old(pass).inv(old(ctx)@.trail),
    ensures
        walk_keeps(old(ctx)@, final(ctx)@),
        final(pass).inv(final(ctx)@.trail),
        final(pass).observes() == old(pass).observes(),
        old(pass).observes() ==> walk_observed(
            old(ctx)@,
            final(ctx)@,
            of_class_body(old(list)@),
            depth as nat,
            complete,
        ),
        final(list)@.len() == old(list)@.len(),
    decreases depth, 4nat,
{
    let ghost before = ctx@;
    let ghost observes = pass.observes();
    let mut complete = true;
    let mut i: usize = 0;
    proof {
        lemma_walk_nothing(before, depth as nat);
            assert(old(list)@.take(0) =~= Seq::<ClassElement>::empty());
    }
    while i < list.len()
        invariant
            i <= list.len(),
            list@.len() == old(list)@.len(),
            forall|j: int| i <= j < list@.len() ==> list@[j] == old(list)@[j],
            pass.inv(ctx@.trail),
            pass.observes() == observes,
            walk_keeps(before, ctx@),
            observes ==> walk_observed(
                before,
                ctx@,
                of_class_body(old(list)@.take(i as int)),
                depth as nat,
                complete,
            ),
        decreases list.len() - i,
    {
        let ghost mid = ctx@;
        let ghost so_far = complete;
        let reached = walk_class_element(pass, &mut list[i], ctx, depth);
        proof {
            let whole = old(list)@;
            assert(whole.take(i + 1).drop_last() =~= whole.take(i as int));
            assert(whole.take(i + 1).last() == whole[i as int]);
            lemma_walk_then(
                before,
                mid,
                ctx@,
                of_class_body(whole.take(i as int)),
                of_class_element(old(list)@[i as int]),
                depth as nat,
                so_far,
                reached,
                observes,
            );
        }
        complete = complete && reached;
        i += 1;
    }
    proof {
            assert(old(list)@.take(i as int) =~= old(list)@);
    }
    complete
}

/// Walks an expression that may be absent.
pub fn walk_optional<T: Traverse>(
    pass: &mut T,
    expression: &mut Option<Expression>,
    ctx: &mut TraverseCtx,
    depth: usize,
) -> (complete: bool)
    requires
        old(ctx).wf(),
        old(pass).inv(old(ctx)@.trail),
    ensures
        walk_keeps(old(ctx)@, final(ctx)@),
        final(pass).inv(final(ctx)@.trail),
        final(pass).observes() == old(pass).observes(),
        old(pass).observes() ==> walk_observed(
            old(ctx)@,
            final(ctx)@,
            of_optional(*old(expression)),
            depth as nat,
            complete,
        ),
    decreases depth, 1nat,
{
    match expression {
        Some(e) => {
            proof {
                assert(of_optional(*old(expression)) =~= seq![Child::Expression(*e)]);
            }
            walk_expression(pass, e, ctx, depth)
        },
        None => {
            proof {
                lemma_walk_nothing(ctx@, depth as nat);
            }
            true
        },
    }
}

/// Walks the expression that an argument holds.
fn walk_argument<T: Traverse>(
    pass: &mut T,
    argument: &mut Argument,
    ctx: &mut TraverseCtx,
    depth: usize,
) -> (complete: bool)
    requires
        old(ctx).wf(),
        old(pass).inv(old(ctx)@.trail),
    ensures
        walk_keeps(old(ctx)@, final(ctx)@),
        final(pass).inv(final(ctx)@.trail),
        final(pass).observes() == old(pass).observes(),
        old(pass).observes() ==> walk_observed(
            old(ctx)@,
            final(ctx)@,
            seq![Child::Expression(argument_expression(*old(argument)))],
            depth as nat,
            complete,
        ),
    decreases depth, 1nat,
{
    match argument {
        Argument::Expression(e) => walk_expression(pass, e, ctx, depth),
        Argument::SpreadElement(spread) => walk_expression(pass, &mut spread.argument, ctx, depth),
    }
}

/// Walks the expression that an array element holds, if it holds one.
fn walk_element<T: Traverse>(
    pass: &mut T,
    element: &mut ArrayExpressionElement,
    ctx: &mut TraverseCtx,
    depth: usize,
) -> (complete: bool)
    requires
        old(ctx).wf(),
        old(pass).inv(old(ctx)@.trail),
    ensures
        walk_keeps(old(ctx)@, final(ctx)@),
        final(pass).inv(final(ctx)@.trail),
        final(pass).observes() == old(pass).observes(),
        old(pass).observes() ==> walk_observed(
            old(ctx)@,
            final(ctx)@,
            of_element(*old(element)),
            depth as nat,
            complete,
        ),
    decreases depth, 1nat,
{
    match element {
        ArrayExpressionElement::Expression(e) => walk_expression(pass, e, ctx, depth),
        ArrayExpressionElement::SpreadElement(spread) => walk_expression(
            pass,
            &mut spread.argument,
            ctx,
            depth,
        ),
        ArrayExpressionElement::Elision(_) => {
            proof {
                lemma_walk_nothing(ctx@, depth as nat);
            }
            true
        },
    }
}

/// Walks the body of a node that opens the scope `scope`, with that scope
/// current.
fn walk_scoped_statements<T: Traverse>(
    pass: &mut T,
    scope: Option<ScopeId>,
    body: &mut Vec<Statement>,
    ctx: &mut TraverseCtx, depth: usize) -> (complete: bool)
    requires
        old(ctx).wf(),
        old(pass).inv(old(ctx)@.trail),
    ensures
        walk_keeps(old(ctx)@, final(ctx)@),
        final(pass).inv(final(ctx)@.trail),
        final(pass).observes() == old(pass).observes(),
        old(pass).observes() ==> walk_observed(
            old(ctx)@,
            final(ctx)@,
            of_statements(old(body)@),
            depth as nat,
            complete,
        ),
    decreases depth, 2nat,
{
    let ghost before = ctx@;
    let entered = enter_scope(scope, ctx);
    let ghost inside = ctx@;
    let complete = walk_statements(pass, body, ctx, depth);
    let ghost walked = ctx@;
    leave_scope(entered, ctx);
    proof {
        lemma_walk_scoped(
            before,
            inside,
            walked,
            ctx@,
            of_statements(old(body)@),
            depth as nat,
            complete,
            pass.observes(),
        );
    }
    complete
}

/// Walks what lies below one element of a class body.
fn walk_class_element<T: Traverse>(
    pass: &mut T,
    element: &mut ClassElement,
    ctx: &mut TraverseCtx,
    depth: usize,
) -> (complete: bool)
    requires
        old(ctx).wf(),
        old(pass).inv(old(ctx)@.trail),
    ensures
        walk_keeps(old(ctx)@, final(ctx)@),
        final(pass).inv(final(ctx)@.trail),
        final(pass).observes() == old(pass).observes(),
        old(pass).observes() ==> walk_observed(
            old(ctx)@,
            final(ctx)@,
            of_class_element(*old(element)),
            depth as nat,
            complete,
        ),
    decreases depth, 3nat,
{
    match element {
        ClassElement::MethodDefinition(method) => {
            let scope = method.value.scope_id;
            walk_scoped_statements(pass, scope, &mut method.value.body, ctx, depth)
        },
        ClassElement::PropertyDefinition(property) => walk_optional(
            pass,
            &mut property.value,
            ctx,
            depth,
        ),
    }
}

/// Walks the expressions below the target of an assignment or update.
fn walk_target<T: Traverse>(
    pass: &mut T,
    target: &mut AssignmentTarget,
    ctx: &mut TraverseCtx,
    depth: usize,
) -> (complete: bool)
    requires
        old(ctx).wf(),
        old(pass).inv(old(ctx)@.trail),
    ensures
        walk_keeps(old(ctx)@, final(ctx)@),
        final(pass).inv(final(ctx)@.trail),
        final(pass).observes() == old(pass).observes(),
        old(pass).observes() ==> walk_observed(
            old(ctx)@,
            final(ctx)@,
            of_target(*old(target)),
            depth as nat,
            complete,
        ),
    decreases depth, 1nat,
{
    match target {
        AssignmentTarget::AssignmentTargetIdentifier(_) => {
            proof {
                lemma_walk_nothing(ctx@, depth as nat);
            }
            true
        },
        AssignmentTarget::ComputedMemberExpression(m) => {
            let ghost before = ctx@;
            let ghost first = m.object;
            let ghost rest = m.expression;
            let reached = walk_expression(pass, &mut m.object, ctx, depth);
            let ghost mid = ctx@;
            let more = walk_expression(pass, &mut m.expression, ctx, depth);
            proof {
                lemma_walk_then(
                    before,
                    mid,
                    ctx@,
                    seq![Child::Expression(first)],
                    seq![Child::Expression(rest)],
                    depth as nat,
                    reached,
                    more,
                    pass.observes(),
                );
                assert(seq![Child::Expression(first)] + seq![Child::Expression(rest)] =~= seq![
                    Child::Expression(first),
                    Child::Expression(rest),
                ]);
            }
            reached && more
        },
        AssignmentTarget::StaticMemberExpression(m) => walk_expression(
            pass,
            &mut m.object,
            ctx,
            depth,
        ),
        AssignmentTarget::PrivateFieldExpression(m) => walk_expression(
            pass,
            &mut m.object,
            ctx,
            depth,
        ),
    }
}

/// Walks the expressions below the element of an optional chain.
fn walk_chain<T: Traverse>(
    pass: &mut T,
    element: &mut ChainElement,
    ctx: &mut TraverseCtx,
    depth: usize,
) -> (complete: bool)
    requires
        old(ctx).wf(),
        old(pass).inv(old(ctx)@.trail),
    ensures
        walk_keeps(old(ctx)@, final(ctx)@),
        final(pass).inv(final(ctx)@.trail),
        final(pass).observes() == old(pass).observes(),
        old(pass).observes() ==> walk_observed(
            old(ctx)@,
            final(ctx)@,
            of_chain(*old(element)),
            depth as nat,
            complete,
        ),
    decreases depth, 3nat,
{
    match element {
        ChainElement::CallExpression(call) => {
            let ghost before = ctx@;
            let ghost callee = call.callee;
            let ghost arguments = call.arguments@;
            let reached = walk_expression(pass, &mut call.callee, ctx, depth);
            let ghost mid = ctx@;
            let more = walk_arguments(pass, &mut call.arguments, ctx, depth);
            proof {
                lemma_walk_then(
                    before,
                    mid,
                    ctx@,
                    seq![Child::Expression(callee)],
                    of_arguments(arguments),
                    depth as nat,
                    reached,
                    more,
                    pass.observes(),
                );
            }
            reached && more
        },
        ChainElement::ComputedMemberExpression(m) => {
            let ghost before = ctx@;
            let ghost first = m.object;
            let ghost rest = m.expression;
            let reached = walk_expression(pass, &mut m.object, ctx, depth);
            let ghost mid = ctx@;
            let more = walk_expression(pass, &mut m.expression, ctx, depth);
            proof {
                lemma_walk_then(
                    before,
                    mid,
                    ctx@,
                    seq![Child::Expression(first)],
                    seq![Child::Expression(rest)],
                    depth as nat,
                    reached,
                    more,
                    pass.observes(),
                );
                assert(seq![Child::Expression(first)] + seq![Child::Expression(rest)] =~= seq![
                    Child::Expression(first),
                    Child::Expression(rest),
                ]);
            }
            reached && more
        },
        ChainElement::StaticMemberExpression(m) => walk_expression(pass, &mut m.object, ctx, depth),
        ChainElement::PrivateFieldExpression(m) => walk_expression(pass, &mut m.object, ctx, depth),
    }
}

/// Walks what lies directly below a statement.
fn walk_statement_children<T: Traverse>(
    pass: &mut T,
    statement: &mut Statement,
    ctx: &mut TraverseCtx,
    depth: usize,
) -> (complete: bool)
    requires
        old(ctx).wf(),
        old(pass).inv(old(ctx)@.trail),
    ensures
        walk_keeps(old(ctx)@, final(ctx)@),
        final(pass).inv(final(ctx)@.trail),
        final(pass).observes() == old(pass).observes(),
        old(pass).observes() ==> walk_observed(
            old(ctx)@,
            final(ctx)@,
            statement_children(*old(statement)),
            depth as nat,
            complete,
        ),
        final(statement).spec_span() == old(statement).spec_span(),
    decreases depth, 5nat,
{
    match statement {
        Statement::BlockStatement(block) => {
            let scope = block.scope_id;
            walk_scoped_statements(pass, scope, &mut block.body, ctx, depth)
        },
        Statement::EmptyStatement(_) => {
            proof {
                lemma_walk_nothing(ctx@, depth as nat);
            }
            true
        },
        Statement::ExpressionStatement(s) => walk_expression(pass, &mut s.expression, ctx, depth),
        Statement::IfStatement(s) => {
            let ghost before = ctx@;
            let ghost test = s.test;
            let ghost consequent = s.consequent;
            let ghost alternate = s.alternate;
            let reached = walk_expression(pass, &mut s.test, ctx, depth);
            let ghost after_test = ctx@;
            let more = walk_statement(pass, &mut s.consequent, ctx, depth);
            let ghost after_consequent = ctx@;
            proof {
                lemma_walk_then(
                    before,
                    after_test,
                    after_consequent,
                    seq![Child::Expression(test)],
                    seq![Child::Statement(consequent)],
                    depth as nat,
                    reached,
                    more,
                    pass.observes(),
                );
                assert(seq![Child::Expression(test)] + seq![Child::Statement(consequent)] =~= seq![
                    Child::Expression(test),
                    Child::Statement(consequent),
                ]);
            }
            let last = match &mut s.alternate {
                Some(other) => walk_statement(pass, other, ctx, depth),
                None => {
                    proof {
                        lemma_walk_nothing(ctx@, depth as nat);
                    }
                    true
                },
            };
            proof {
                lemma_walk_then(
                    before,
                    after_consequent,
                    ctx@,
                    seq![Child::Expression(test), Child::Statement(consequent)],
                    match alternate {
                        Some(other) => seq![Child::Statement(other)],
                        None => Seq::empty(),
                    },
                    depth as nat,
                    reached && more,
                    last,
                    pass.observes(),
                );
            }
            reached && more && last
        },
        Statement::ReturnStatement(s) => walk_optional(pass, &mut s.argument, ctx, depth),
        Statement::ThrowStatement(s) => walk_expression(pass, &mut s.argument, ctx, depth),
        Statement::VariableDeclaration(declaration) => walk_declarators(
            pass,
            &mut declaration.declarations,
            ctx,
            depth,
        ),
        Statement::FunctionDeclaration(function) => {
            let scope = function.scope_id;
            walk_scoped_statements(pass, scope, &mut function.body, ctx, depth)
        },
        Statement::ClassDeclaration(class) => {
            let ghost before = ctx@;
            let ghost body = class.body@;
            let entered = enter_scope(class.scope_id, ctx);
            let ghost inside = ctx@;
            let complete = walk_class_body(pass, &mut class.body, ctx, depth);
            let ghost walked = ctx@;
            leave_scope(entered, ctx);
            proof {
                lemma_walk_scoped(
                    before,
                    inside,
                    walked,
                    ctx@,
                    of_class_body(body),
                    depth as nat,
                    complete,
                    pass.observes(),
                );
            }
            complete
        },
    }
}

/// Walks what lies directly below an expression.
fn walk_expression_children<T: Traverse>(
    pass: &mut T,
    expression: &mut Expression,
    ctx: &mut TraverseCtx,
    depth: usize,
) -> (complete: bool)
    requires
        old(ctx).wf(),
        old(pass).inv(old(ctx)@.trail),
    ensures
        walk_keeps(old(ctx)@, final(ctx)@),
        final(pass).inv(final(ctx)@.trail),
        final(pass).observes() == old(pass).observes(),
        old(pass).observes() ==> walk_observed(
            old(ctx)@,
            final(ctx)@,
            expression_children(*old(expression)),
            depth as nat,
            complete,
        ),
        final(expression).spec_span() == old(expression).spec_span(),
    decreases depth, 5nat,
{
    match expression {
        Expression::BooleanLiteral(_) => {
            proof {
                lemma_walk_nothing(ctx@, depth as nat);
            }
            true
        },
        Expression::NullLiteral(_) => {
            proof {
                lemma_walk_nothing(ctx@, depth as nat);
            }
            true
        },
        Expression::NumericLiteral(_) => {
            proof {
                lemma_walk_nothing(ctx@, depth as nat);
            }
            true
        },
        Expression::BigIntLiteral(_) => {
            proof {
                lemma_walk_nothing(ctx@, depth as nat);
            }
            true
        },
        Expression::RegExpLiteral(_) => {
            proof {
                lemma_walk_nothing(ctx@, depth as nat);
            }
            true
        },
        Expression::StringLiteral(_) => {
            proof {
                lemma_walk_nothing(ctx@, depth as nat);
            }
            true
        },
        Expression::TemplateLiteral(template) => walk_expressions(
            pass,
            &mut template.expressions,
            ctx,
            depth,
        ),
        Expression::Identifier(_) => {
            proof {
                lemma_walk_nothing(ctx@, depth as nat);
            }
            true
        },
        Expression::ArrayExpression(array) => walk_elements(pass, &mut array.elements, ctx, depth),
        Expression::ArrowFunctionExpression(function) => {
            let scope = function.scope_id;
            walk_scoped_statements(pass, scope, &mut function.body, ctx, depth)
        },
        Expression::AssignmentExpression(e) => {
            let ghost before = ctx@;
            let ghost target = e.left;
            let ghost right = e.right;
            let reached = walk_target(pass, &mut e.left, ctx, depth);
            let ghost mid = ctx@;
            let more = walk_expression(pass, &mut e.right, ctx, depth);
            proof {
                lemma_walk_then(
                    before,
                    mid,
                    ctx@,
                    of_target(target),
                    seq![Child::Expression(right)],
                    depth as nat,
                    reached,
                    more,
                    pass.observes(),
                );
            }
            reached && more
        },
        Expression::BinaryExpression(e) => {
            let ghost before = ctx@;
            let ghost first = e.left;
            let ghost rest = e.right;
            let reached = walk_expression(pass, &mut e.left, ctx, depth);
            let ghost mid = ctx@;
            let more = walk_expression(pass, &mut e.right, ctx, depth);
            proof {
                lemma_walk_then(
                    before,
                    mid,
                    ctx@,
                    seq![Child::Expression(first)],
                    seq![Child::Expression(rest)],
                    depth as nat,
                    reached,
                    more,
                    pass.observes(),
                );
                assert(seq![Child::Expression(first)] + seq![Child::Expression(rest)] =~= seq![
                    Child::Expression(first),
                    Child::Expression(rest),
                ]);
            }
            reached && more
        },
        Expression::CallExpression(e) => {
            let ghost before = ctx@;
            let ghost callee = e.callee;
            let ghost arguments = e.arguments@;
            let reached = walk_expression(pass, &mut e.callee, ctx, depth);
            let ghost mid = ctx@;
            let more = walk_arguments(pass, &mut e.arguments, ctx, depth);
            proof {
                lemma_walk_then(
                    before,
                    mid,
                    ctx@,
                    seq![Child::Expression(callee)],
                    of_arguments(arguments),
                    depth as nat,
                    reached,
                    more,
                    pass.observes(),
                );
            }
            reached && more
        },
        Expression::ChainExpression(e) => walk_chain(pass, &mut e.expression, ctx, depth),
        Expression::FunctionExpression(function) => {
            let scope = function.scope_id;
            walk_scoped_statements(pass, scope, &mut function.body, ctx, depth)
        },
        Expression::NewExpression(e) => {
            let ghost before = ctx@;
            let ghost callee = e.callee;
            let ghost arguments = e.arguments@;
            let reached = walk_expression(pass, &mut e.callee, ctx, depth);
            let ghost mid = ctx@;
            let more = walk_arguments(pass, &mut e.arguments, ctx, depth);
            proof {
                lemma_walk_then(
                    before,
                    mid,
                    ctx@,
                    seq![Child::Expression(callee)],
                    of_arguments(arguments),
                    depth as nat,
                    reached,
                    more,
                    pass.observes(),
                );
            }
            reached && more
        },
        Expression::ParenthesizedExpression(e) => walk_expression(
            pass,
            &mut e.expression,
            ctx,
            depth,
        ),
        Expression::UnaryExpression(e) => walk_expression(pass, &mut e.argument, ctx, depth),
        Expression::UpdateExpression(e) => walk_target(pass, &mut e.argument, ctx, depth),
        Expression::YieldExpression(e) => walk_optional(pass, &mut e.argument, ctx, depth),
        Expression::ComputedMemberExpression(e) => {
            let ghost before = ctx@;
            let ghost first = e.object;
            let ghost rest = e.expression;
            let reached = walk_expression(pass, &mut e.object, ctx, depth);
            let ghost mid = ctx@;
            let more = walk_expression(pass, &mut e.expression, ctx, depth);
            proof {
                lemma_walk_then(
                    before,
                    mid,
                    ctx@,
                    seq![Child::Expression(first)],
                    seq![Child::Expression(rest)],
                    depth as nat,
                    reached,
                    more,
                    pass.observes(),
                );
                assert(seq![Child::Expression(first)] + seq![Child::Expression(rest)] =~= seq![
                    Child::Expression(first),
                    Child::Expression(rest),
                ]);
            }
            reached && more
        },
        Expression::StaticMemberExpression(e) => walk_expression(pass, &mut e.object, ctx, depth),
        Expression::PrivateFieldExpression(e) => walk_expression(pass, &mut e.object, ctx, depth),
        Expression::TSAsExpression(e) => walk_expression(pass, &mut e.expression, ctx, depth),
        Expression::TSNonNullExpression(e) => walk_expression(pass, &mut e.expression, ctx, depth),
    }
}

/// Walks a statement: enters it, walks its children as they stand after
/// that, and leaves it. Descends at most `depth` levels; at depth zero
/// the statement is not visited. Returns whether no node was too deep.
pub fn walk_statement<T: Traverse>(
    pass: &mut T,
    statement: &mut Statement,
    ctx: &mut TraverseCtx,
    depth: usize,
) -> (complete: bool)
    requires
        old(ctx).wf(),
        old(pass).inv(old(ctx)@.trail),
    ensures
        walk_keeps(old(ctx)@, final(ctx)@),
        final(pass).inv(final(ctx)@.trail),
        final(pass).observes() == old(pass).observes(),
        old(pass).observes() ==> walk_observed(
            old(ctx)@,
            final(ctx)@,
            seq![Child::Statement(*old(statement))],
            depth as nat,
            complete,
        ),
        depth > 0 ==> visit_begins(
            old(ctx)@.trail,
            final(ctx)@.trail,
            Child::Statement(*old(statement)),
        ),
    decreases depth, 0nat,
{
    let ghost before = ctx@;
    let ghost node = *statement;
    let ghost observes = pass.observes();
    if depth == 0 {
        proof {
            lemma_tour_one(Child::Statement(node), 0);
            assert(before.trail + Seq::<Visit>::empty() =~= before.trail);
        }
        return false;
    }
    ctx.note_visit(Ghost(Visit::EnterStatement(statement.spec_span())));
    proof {
        assert(ctx@.trail.drop_last() =~= before.trail);
    }
    pass.enter_statement(statement, ctx);
    let ghost entered = ctx@;
    let complete = walk_statement_children(pass, statement, ctx, depth - 1);
    let ghost walked = ctx@;
    ctx.note_visit(Ghost(Visit::ExitStatement(statement.spec_span())));
    proof {
        assert(ctx@.trail.drop_last() =~= walked.trail);
    }
    pass.exit_statement(statement, ctx);
    proof {
        lemma_walk_node(
            before,
            entered,
            walked,
            ctx@,
            Child::Statement(node),
            depth as nat,
            complete,
            observes,
        );
    }
    complete
}

/// Walks an expression: enters it, walks its children as they stand
/// after that, and leaves it. Descends at most `depth` levels; at depth
/// zero the expression is not visited. Returns whether no node was too
/// deep.
pub fn walk_expression<T: Traverse>(
    pass: &mut T,
    expression: &mut Expression,
    ctx: &mut TraverseCtx,
    depth: usize,
) -> (complete: bool)
    requires
        old(ctx).wf(),
        old(pass).inv(old(ctx)@.trail),
    ensures
        walk_keeps(old(ctx)@, final(ctx)@),
        final(pass).inv(final(ctx)@.trail),
        final(pass).observes() == old(pass).observes(),
        old(pass).observes() ==> walk_observed(
            old(ctx)@,
            final(ctx)@,
            seq![Child::Expression(*old(expression))],
            depth as nat,
            complete,
        ),
        depth > 0 ==> visit_begins(
            old(ctx)@.trail,
            final(ctx)@.trail,
            Child::Expression(*old(expression)),
        ),
    decreases depth, 0nat,
{
    let ghost before = ctx@;
    let ghost node = *expression;
    let ghost observes = pass.observes();
    if depth == 0 {
        proof {
            lemma_tour_one(Child::Expression(node), 0);
            assert(before.trail + Seq::<Visit>::empty() =~= before.trail);
        }
        return false;
    }
    ctx.note_visit(Ghost(Visit::EnterExpression(expression.spec_span())));
    proof {
        assert(ctx@.trail.drop_last() =~= before.trail);
    }
    pass.enter_expression(expression, ctx);
    let ghost entered = ctx@;
    let complete = walk_expression_children(pass, expression, ctx, depth - 1);
    let ghost walked = ctx@;
    ctx.note_visit(Ghost(Visit::ExitExpression(expression.spec_span())));
    proof {
        assert(ctx@.trail.drop_last() =~= walked.trail);
    }
    pass.exit_expression(expression, ctx);
    proof {
        lemma_walk_node(
            before,
            entered,
            walked,
            ctx@,
            Child::Expression(node),
            depth as nat,
            complete,
            observes,
        );
    }
    complete
}

/// Walks a whole program under `pass`: enters the program, walks its
/// statements from first to last, each down to `depth` levels, and leaves
/// the program. Returns whether no node was too deep to be visited.
///
/// Under a pass that only looks, every node within reach is entered
/// exactly once and left exactly once, in the order of
/// [`program_tour`], and nothing but the record of the walk changes.
pub fn walk_program<T: Traverse>(pass: &mut T, program: &mut Program<'_>, ctx: &mut TraverseCtx, depth: usize) -> (complete: bool)
    requires
        old(ctx).wf(),
        old(pass).inv(old(ctx)@.trail),
    ensures
        walk_keeps(old(ctx)@, final(ctx)@),
        final(pass).inv(final(ctx)@.trail),
        final(pass).observes() == old(pass).observes(),
        old(pass).observes() ==> final(ctx)@ == (TraverseModel {
            trail: old(ctx)@.trail + program_tour(*old(program), depth as nat),
            ..old(ctx)@
        }),
        old(pass).observes() ==> complete == fits_all(
            of_statements(old(program).body@),
            depth as nat,
        ),
{
    let ghost before = ctx@;
    let ghost observes = pass.observes();
    ctx.note_visit(Ghost(Visit::EnterProgram));
    proof {
        assert(ctx@.trail.drop_last() =~= before.trail);
    }
    pass.enter_program(program, ctx);
    let ghost entered = ctx@;
    let complete = walk_statements(pass, &mut program.body, ctx, depth);
    let ghost walked = ctx@;
    ctx.note_visit(Ghost(Visit::ExitProgram));
    proof {
        assert(ctx@.trail.drop_last() =~= walked.trail);
    }
    pass.exit_program(program, ctx);
    proof {
        lemma_extends_transitive(before.scoping, entered.scoping, walked.scoping);
        lemma_extends_transitive(before.scoping, walked.scoping, ctx@.scoping);
        lemma_trail_brackets(before.trail, entered.trail, walked.trail, ctx@.trail, false);
        if observes {
            let middle = tour_all(of_statements(old(program).body@), depth as nat);
            assert((before.trail.push(Visit::EnterProgram) + middle).push(Visit::ExitProgram)
                =~= before.trail + (seq![Visit::EnterProgram] + middle + seq![Visit::ExitProgram]));
        }
    }
    complete
}

} // verus!
