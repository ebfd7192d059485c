//! Helper loading that asks for imports as it goes.
//!
//! This loader differs from the one that works through a store in two
//! points: the import that a runtime helper calls for is asked for at
//! once, and the global helper object of external helpers is looked up
//! among the bindings of the program scope only.

use crate::ast::nodes::{Argument, CallExpression, Expression};
use crate::span::Span;
use crate::transformer::helper_loader::loaded::nothing_loaded;
use crate::transformer::helper_loader::options::{HelperLoaderMode, HelperLoaderOptions};
use crate::transformer::helper_loader::store::{HelperLoaderStore, HelperObjectLookup, StoreModel};
use crate::transformer::module_imports::{ImportEntry, ModuleImports};
use crate::traverse::context::TraverseCtx;
use vstd::prelude::*;

verus! {

/// The helpers loaded so far, and the imports of the program.
pub struct HelperLoader {
    store: HelperLoaderStore,
    module_imports: ModuleImports,
}

impl HelperLoader {
    /// What is loaded, and how helpers are reached.
    pub closed spec fn store(&self) -> StoreModel {
        self.store@
    }

    /// The imports asked for so far.
    pub closed spec fn spec_module_imports(&self) -> Seq<ImportEntry> {
        self.module_imports@
    }

    /// Between calls no import waits to be asked for.
    pub open spec fn wf(&self) -> bool {
        self.store().imports == Seq::<ImportEntry>::empty()
    }

    /// A loader with nothing loaded, which adds to `module_imports`.
    pub fn new(
        options: &HelperLoaderOptions,
        module_imports: ModuleImports,
    ) -> (loader: HelperLoader)
        ensures
            loader.wf(),
            loader.store().mode == options.mode,
            loader.store().module_name == options.module_name@,
            loader.store().lookup == HelperObjectLookup::InProgramScope,
            loader.store().loaded == nothing_loaded(),
            loader.spec_module_imports() == module_imports@,
    {
        HelperLoader {
            store: HelperLoaderStore::with_lookup(options, HelperObjectLookup::InProgramScope),
            module_imports,
        }
    }

    /// The imports asked for so far.
    pub fn module_imports(&self) -> (imports: &ModuleImports)
        ensures
            imports@ == self.spec_module_imports(),
    {
        &self.module_imports
    }

    /// The expression that reaches the helper called `helper_name`,
    /// which is loaded first if it is not loaded yet. Inline helpers are
    /// not supported.
    pub fn get_callee(&mut self, helper_name: &str, ctx: &mut TraverseCtx) -> (callee: Expression)
        requires
            old(self).wf(),
            old(self).store().mode != HelperLoaderMode::Inline,
            old(ctx).wf(),
            old(self).store().fits(old(ctx)@.scoping),
        ensures
            final(self).wf(),
            final(ctx).wf(),
            final(self).store().fits(final(ctx)@.scoping),
            final(ctx)@.scoping.extends(old(ctx)@.scoping),
            final(ctx)@ == old(self).store().context_reached(helper_name@, old(ctx)@),
            final(self).store().mode == old(self).store().mode,
            final(self).store().module_name == old(self).store().module_name,
            final(self).store().lookup == old(self).store().lookup,
            final(self).store().loaded == if old(self).store().loads(helper_name@) {
                old(self).store().loaded.insert(
                    helper_name@,
                    old(self).store().entry(helper_name@, old(ctx)@),
                )
            } else {
                old(self).store().loaded
            },
            exists|asked: Seq<ImportEntry>| #[trigger]
                old(self).store().reached(helper_name@, old(ctx)@, asked)
                    && final(self).spec_module_imports() == old(self).spec_module_imports()
                    + asked,
            old(self).store().is_callee(helper_name@, old(ctx)@, callee),
    {
        let callee = self.store.get_callee(helper_name, ctx);
        let ghost asked = self.store@.imports;
        self.store.drain_into(&mut self.module_imports);
        proof {
            assert(old(self).store().reached(helper_name@, old(ctx)@, asked));
        }
        callee
    }

    /// The call of the helper called `helper_name` on `arguments`.
    pub fn call(
        &mut self,
        helper_name: &str,
        arguments: Vec<Argument>,
        ctx: &mut TraverseCtx,
    ) -> (call: CallExpression)
        requires
            old(self).wf(),
            old(self).store().mode != HelperLoaderMode::Inline,
            old(ctx).wf(),
            old(self).store().fits(old(ctx)@.scoping),
        ensures
            final(self).wf(),
            final(ctx).wf(),
            final(self).store().fits(final(ctx)@.scoping),
            final(ctx)@ == old(self).store().context_reached(helper_name@, old(ctx)@),
            final(ctx)@.scoping.extends(old(ctx)@.scoping),
            final(self).store().mode == old(self).store().mode,
            final(self).store().module_name == old(self).store().module_name,
            final(self).store().lookup == old(self).store().lookup,
            final(self).store().loaded == if old(self).store().loads(helper_name@) {
                old(self).store().loaded.insert(
                    helper_name@,
                    old(self).store().entry(helper_name@, old(ctx)@),
                )
            } else {
                old(self).store().loaded
            },
            exists|asked: Seq<ImportEntry>| #[trigger]
                old(self).store().reached(helper_name@, old(ctx)@, asked)
                    && final(self).spec_module_imports() == old(self).spec_module_imports()
                    + asked,
            old(self).store().is_callee(helper_name@, old(ctx)@, call.callee),
            call.span == Span::spec_synthesized(),
            call.arguments == arguments,
            !call.optional,
    {
        let callee = self.get_callee(helper_name, ctx);
        CallExpression { span: Span::synthesized(), callee, arguments, optional: false }
    }

    /// The call of the helper called `helper_name` on `arguments`, as an
    /// expression.
    pub fn call_expr(
        &mut self,
        helper_name: &str,
        arguments: Vec<Argument>,
        ctx: &mut TraverseCtx,
    ) -> (expression: Expression)
        requires
            old(self).wf(),
            old(self).store().mode != HelperLoaderMode::Inline,
            old(ctx).wf(),
            old(self).store().fits(old(ctx)@.scoping),
        ensures
            final(self).wf(),
            final(ctx).wf(),
            final(self).store().fits(final(ctx)@.scoping),
            final(ctx)@ == old(self).store().context_reached(helper_name@, old(ctx)@),
            final(ctx)@.scoping.extends(old(ctx)@.scoping),
            final(self).store().mode == old(self).store().mode,
            final(self).store().module_name == old(self).store().module_name,
            final(self).store().lookup == old(self).store().lookup,
            final(self).store().loaded == if old(self).store().loads(helper_name@) {
                old(self).store().loaded.insert(
                    helper_name@,
                    old(self).store().entry(helper_name@, old(ctx)@),
                )
            } else {
                old(self).store().loaded
            },
            exists|asked: Seq<ImportEntry>| #[trigger]
                old(self).store().reached(helper_name@, old(ctx)@, asked)
                    && final(self).spec_module_imports() == old(self).spec_module_imports()
                    + asked,
            expression matches Expression::CallExpression(call) && old(self).store().is_callee(
                helper_name@,
                old(ctx)@,
                call.callee,
            ) && call.span == Span::spec_synthesized() && call.arguments == arguments
                && !call.optional,
    {
        Expression::CallExpression(Box::new(self.call(helper_name, arguments, ctx)))
    }
}

} // verus!
