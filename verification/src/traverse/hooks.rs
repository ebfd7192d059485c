//! The hooks of a pass.

use crate::ast::nodes::{Expression, Program, Statement};
use crate::traverse::context::{TraverseCtx, TraverseModel, Visit};
use vstd::prelude::*;

verus! {

/// What a hook may do to the context: register bindings and uses, and
/// generate names. It leaves the stack of open scopes and the record of
/// the walk alone, and whatever the tables held before the hook ran, they
/// hold after it.
pub open spec fn hook_keeps(before: TraverseModel, after: TraverseModel) -> bool {
    &&& after.wf()
    &&& after.scoping.extends(before.scoping)
    &&& after.scope_stack == before.scope_stack
    &&& before.generated.is_prefix_of(after.generated)
    &&& after.trail == before.trail
}

/// What a hook finds when it is called: the context is consistent, and
/// its record of the walk ends with the visit `now`.
pub open spec fn hook_called(ctx: TraverseModel, now: Visit) -> bool {
    &&& ctx.wf()
    &&& ctx.trail.len() > 0
    &&& ctx.trail.last() == now
}

/// A pass: what it does when the walk enters and leaves a node.
///
/// Each hook receives the node itself, not a copy, and may replace it,
/// change its children or remove them.
pub trait Traverse: Sized {
    /// What the pass maintains about itself, as a function of the visits
    /// that the walk has made so far. Every hook is handed a pass that
    /// has taken in all visits but the last, and hands back one that has
    /// taken in the last too.
    spec fn inv(&self, trail: Seq<Visit>) -> bool;

    /// Whether the pass only looks: its hooks change neither a node nor
    /// the context.
    spec fn observes(&self) -> bool;

    /// Runs before the walk descends into the program.
    fn enter_program(&mut self, program: &mut Program<'_>, ctx: &mut TraverseCtx)
        requires
            hook_called(old(ctx)@, Visit::EnterProgram),
            old(self).inv(old(ctx)@.trail.drop_last()),
        ensures
            hook_keeps(old(ctx)@, final(ctx)@),
            final(self).inv(final(ctx)@.trail),
            final(self).observes() == old(self).observes(),
            old(self).observes() ==> *final(program) == *old(program) && final(ctx)@ == old(ctx)@,
    ;

    /// Runs after the walk has come back from the program's body.
    fn exit_program(&mut self, program: &mut Program<'_>, ctx: &mut TraverseCtx)
        requires
            hook_called(old(ctx)@, Visit::ExitProgram),
            old(self).inv(old(ctx)@.trail.drop_last()),
        ensures
            hook_keeps(old(ctx)@, final(ctx)@),
            final(self).inv(final(ctx)@.trail),
            final(self).observes() == old(self).observes(),
            old(self).observes() ==> *final(program) == *old(program) && final(ctx)@ == old(ctx)@,
    ;

    /// Runs before the walk descends into the statement.
    fn enter_statement(&mut self, statement: &mut Statement, ctx: &mut TraverseCtx)
        requires
            hook_called(old(ctx)@, Visit::EnterStatement(old(statement).spec_span())),
            old(self).inv(old(ctx)@.trail.drop_last()),
        ensures
            hook_keeps(old(ctx)@, final(ctx)@),
            final(self).inv(final(ctx)@.trail),
            final(self).observes() == old(self).observes(),
            old(self).observes() ==> *final(statement) == *old(statement) && final(ctx)@ == old(
                ctx,
            )@,
    ;

    /// Runs after the walk has come back from the statement's children.
    fn exit_statement(&mut self, statement: &mut Statement, ctx: &mut TraverseCtx)
        requires
            hook_called(old(ctx)@, Visit::ExitStatement(old(statement).spec_span())),
            old(self).inv(old(ctx)@.trail.drop_last()),
        ensures
            hook_keeps(old(ctx)@, final(ctx)@),
            final(self).inv(final(ctx)@.trail),
            final(self).observes() == old(self).observes(),
            old(self).observes() ==> *final(statement) == *old(statement) && final(ctx)@ == old(
                ctx,
            )@,
    ;

    /// Runs before the walk descends into the expression.
    fn enter_expression(&mut self, expression: &mut Expression, ctx: &mut TraverseCtx)
        requires
            hook_called(old(ctx)@, Visit::EnterExpression(old(expression).spec_span())),
            old(self).inv(old(ctx)@.trail.drop_last()),
        ensures
            hook_keeps(old(ctx)@, final(ctx)@),
            final(self).inv(final(ctx)@.trail),
            final(self).observes() == old(self).observes(),
            old(self).observes() ==> *final(expression) == *old(expression) && final(ctx)@ == old(
                ctx,
            )@,
    ;

    /// Runs after the walk has come back from the expression's children.
    fn exit_expression(&mut self, expression: &mut Expression, ctx: &mut TraverseCtx)
        requires
            hook_called(old(ctx)@, Visit::ExitExpression(old(expression).spec_span())),
            old(self).inv(old(ctx)@.trail.drop_last()),
        ensures
            hook_keeps(old(ctx)@, final(ctx)@),
            final(self).inv(final(ctx)@.trail),
            final(self).observes() == old(self).observes(),
            old(self).observes() ==> *final(expression) == *old(expression) && final(ctx)@ == old(
                ctx,
            )@,
    ;
}

} // verus!
