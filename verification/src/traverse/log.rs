//! A pass that records the walk.

use crate::ast::nodes::{Expression, Program, Statement};
use crate::semantic::scoping::Scoping;
use crate::traverse::context::{TraverseCtx, Visit};
use crate::traverse::hooks::Traverse;
use crate::traverse::tour::{fits_all, of_statements, program_tour};
use crate::traverse::walk::walk_program;
use vstd::prelude::*;

verus! {

/// A pass that only looks, and writes down every visit that the walk
/// makes.
pub struct VisitLog {
    pub visits: Vec<Visit>,
}

impl VisitLog {
    /// A log with nothing in it.
    pub fn new() -> (log: VisitLog)
        ensures
            log.visits@ == Seq::<Visit>::empty(),
    {
        VisitLog { visits: Vec::new() }
    }
}

impl Traverse for VisitLog {
    /// The log holds the visits that the walk has made.
    open spec fn inv(&self, trail: Seq<Visit>) -> bool {
        self.visits@ == trail
    }

    /// The pass only looks.
    open spec fn observes(&self) -> bool {
        true
    }

    fn enter_program(&mut self, program: &mut Program<'_>, ctx: &mut TraverseCtx) {
        self.visits.push(Visit::EnterProgram);
        proof {
            assert(ctx@.trail =~= ctx@.trail.drop_last().push(Visit::EnterProgram));
        }
    }

    fn exit_program(&mut self, program: &mut Program<'_>, ctx: &mut TraverseCtx) {
        self.visits.push(Visit::ExitProgram);
        proof {
            assert(ctx@.trail =~= ctx@.trail.drop_last().push(Visit::ExitProgram));
        }
    }

    fn enter_statement(&mut self, statement: &mut Statement, ctx: &mut TraverseCtx) {
        self.visits.push(Visit::EnterStatement(statement.span()));
        proof {
            assert(ctx@.trail =~= ctx@.trail.drop_last().push(
                Visit::EnterStatement(statement.spec_span()),
            ));
        }
    }

    fn exit_statement(&mut self, statement: &mut Statement, ctx: &mut TraverseCtx) {
        self.visits.push(Visit::ExitStatement(statement.span()));
        proof {
            assert(ctx@.trail =~= ctx@.trail.drop_last().push(
                Visit::ExitStatement(statement.spec_span()),
            ));
        }
    }

    fn enter_expression(&mut self, expression: &mut Expression, ctx: &mut TraverseCtx) {
        self.visits.push(Visit::EnterExpression(expression.span()));
        proof {
            assert(ctx@.trail =~= ctx@.trail.drop_last().push(
                Visit::EnterExpression(expression.spec_span()),
            ));
        }
    }

    fn exit_expression(&mut self, expression: &mut Expression, ctx: &mut TraverseCtx) {
        self.visits.push(Visit::ExitExpression(expression.span()));
        proof {
            assert(ctx@.trail =~= ctx@.trail.drop_last().push(
                Visit::ExitExpression(expression.spec_span()),
            ));
        }
    }
}

/// Walks `program` without changing it and hands back every visit made,
/// in order, and whether no node lay deeper than `depth` levels.
///
/// Every statement and expression within reach is entered exactly once
/// and left exactly once, after its children: the visits are those of
/// [`program_tour`].
pub fn record_walk(program: &mut Program<'_>, scoping: Scoping, depth: usize) -> (walked: (
    Vec<Visit>,
    bool,
    Scoping,
))
    requires
        scoping.wf(),
    ensures
        walked.0@ == program_tour(*old(program), depth as nat),
        walked.1 == fits_all(of_statements(old(program).body@), depth as nat),
        walked.2@ == scoping@,
        walked.2.wf(),
{
    let mut log = VisitLog::new();
    let mut ctx = TraverseCtx::new(scoping);
    let complete = walk_program(&mut log, program, &mut ctx, depth);
    proof {
        assert(Seq::<Visit>::empty() + program_tour(*old(program), depth as nat) =~= program_tour(
            *old(program),
            depth as nat,
        ));
    }
    (log.visits, complete, ctx.into_scoping())
}

} // verus!
