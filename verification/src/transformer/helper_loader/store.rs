//! Loading helpers and building the expressions that reach them.

use crate::ast::nodes::{
    Argument, CallExpression, Expression, IdentifierName, Program, Statement,
    StaticMemberExpression,
};
use crate::semantic::laws::{lemma_extends_transitive, lemma_stale_ids_stay_answerable};
use crate::semantic::model::ScopingModel;
use crate::span::Span;
use crate::syntax::{NodeId, ReferenceFlags, ReferenceId, ScopeId, SymbolId};
use crate::transformer::helper_loader::loaded::{
    HelperRecord, is_loaded, loaded_entry, loaded_helpers, new_record, nothing_loaded,
    record_loaded,
};
use crate::transformer::helper_loader::options::{HelperLoaderMode, HelperLoaderOptions};
use crate::transformer::module_imports::{ImportEntry, ModuleImports, NamedImport};
use crate::traverse::context::{TraverseCtx, TraverseModel, Visit};
use crate::traverse::hooks::Traverse;
use std::borrow::Cow;
use vstd::prelude::*;
use vstd::string::StringExecFns;

verus! {

/// Where an external helper's object is looked up.
#[derive(Debug, Clone, Copy, PartialEq, Eq, Structural)]
pub enum HelperObjectLookup {
    /// From the scope of the node being visited, outward.
    FromCurrentScope,
    /// Among the bindings of the program scope only.
    InProgramScope,
}

/// The helpers loaded so far, and the imports that they call for.
pub struct HelperLoaderStore {
    mode: HelperLoaderMode,
    module_name: String,
    lookup: HelperObjectLookup,
    /// From helper name to the name it is reached by and its symbol.
    loaded_helper: HelperRecord,
    imports: Vec<ImportEntry>,
}

/// Model of the store.
pub struct StoreModel {
    pub mode: HelperLoaderMode,
    pub module_name: Seq<char>,
    pub lookup: HelperObjectLookup,
    pub loaded: Map<Seq<char>, (Seq<char>, Option<usize>)>,
    pub imports: Seq<ImportEntry>,
}

/// The symbol with the given index, if there is an index.
pub open spec fn symbol_at(index: Option<usize>) -> Option<SymbolId> {
    match index {
        Some(i) => Some(SymbolId(i)),
        None => None,
    }
}

/// The index of the given symbol, if there is a symbol.
pub open spec fn index_of(symbol: Option<SymbolId>) -> Option<usize> {
    match symbol {
        Some(s) => Some(s.0),
        None => None,
    }
}

/// The module that the runtime helper `helper` is imported from.
pub open spec fn helper_source(module_name: Seq<char>, helper: Seq<char>) -> Seq<char> {
    module_name + "/helpers/"@ + helper
}

impl StoreModel {
    /// Every symbol that the store names is in `tables`.
    pub open spec fn fits(self, tables: ScopingModel) -> bool {
        forall|helper: Seq<char>| #[trigger]
            self.loaded.contains_key(helper) ==> match self.loaded[helper].1 {
                Some(index) => index < tables.symbols.len(),
                None => true,
            }
    }

    /// The binding of the global helper object that an external helper is
    /// read off.
    pub open spec fn helper_object(self, ctx: TraverseModel) -> Option<SymbolId> {
        match self.lookup {
            HelperObjectLookup::FromCurrentScope => ctx.scoping.lookup(
                ctx.current_scope(),
                "babelHelpers"@,
            ),
            HelperObjectLookup::InProgramScope => ctx.scoping.declared_in(
                ScopeId(0),
                "babelHelpers"@,
            ),
        }
    }

    /// Whether reaching `helper` loads it first: it is not loaded yet.
    pub open spec fn loads(self, helper: Seq<char>) -> bool {
        !self.loaded.contains_key(helper)
    }

    /// How `helper` is reached: as it was loaded, or, for one that is not
    /// loaded yet, under a fresh name bound in the program scope (runtime
    /// mode) or as a property of `babelHelpers` (external mode).
    pub open spec fn entry(
        self,
        helper: Seq<char>,
        ctx: TraverseModel,
    ) -> (Seq<char>, Option<usize>) {
        if self.loads(helper) {
            if self.mode == HelperLoaderMode::Runtime {
                (
                    ctx.uid_name(helper, ScopeId(0)),
                    Some(ctx.scoping.symbols.len() as usize),
                )
            } else {
                ("babelHelpers"@, index_of(self.helper_object(ctx)))
            }
        } else {
            self.loaded[helper]
        }
    }

    /// The store after `helper` is reached.
    pub open spec fn reached(self, helper: Seq<char>, ctx: TraverseModel, imports: Seq<
        ImportEntry,
    >) -> bool {
        if self.loads(helper) && self.mode == HelperLoaderMode::Runtime {
            &&& imports.len() == self.imports.len() + 1
            &&& imports.drop_last() == self.imports
            &&& imports.last().source@ == helper_source(self.module_name, helper)
            &&& imports.last().import.imported@ == ctx.uid_name(helper, ScopeId(0))
            &&& imports.last().import.local is None
            &&& imports.last().import.symbol_id == SymbolId(ctx.scoping.symbols.len() as usize)
        } else {
            imports == self.imports
        }
    }

    /// The context once `helper` is loaded: loading a runtime helper
    /// generates a name for it in the program scope.
    pub open spec fn context_loaded(self, helper: Seq<char>, ctx: TraverseModel) -> TraverseModel {
        if self.loads(helper) && self.mode == HelperLoaderMode::Runtime {
            ctx.with_uid(helper, ScopeId(0))
        } else {
            ctx
        }
    }

    /// The context after `helper` is reached: it is loaded, and a read of
    /// the name it is reached by is registered.
    pub open spec fn context_reached(self, helper: Seq<char>, ctx: TraverseModel) -> TraverseModel {
        let loaded = self.context_loaded(helper, ctx);
        TraverseModel {
            scoping: loaded.scoping.with_reference(
                NodeId::spec_dummy(),
                symbol_at(self.entry(helper, ctx).1),
                ReferenceFlags::Read,
            ),
            ..loaded
        }
    }

    /// Whether `callee` is the expression that reaches `helper`: in
    /// runtime mode the identifier that the helper was imported under, in
    /// external mode the member access `babelHelpers.helper`. Its
    /// identifier is the use registered last, and all its nodes carry the
    /// span of synthesized nodes.
    pub open spec fn is_callee(
        self,
        helper: Seq<char>,
        ctx: TraverseModel,
        callee: Expression,
    ) -> bool {
        let reference = ReferenceId(
            self.context_loaded(helper, ctx).scoping.references.len() as usize
        );
        let name = self.entry(helper, ctx).0;
        if self.mode == HelperLoaderMode::Runtime {
            &&& callee matches Expression::Identifier(identifier)
            &&& identifier.span == Span::spec_synthesized()
            &&& identifier.name@ == name
            &&& identifier.reference_id == Some(reference)
        } else {
            &&& callee matches Expression::StaticMemberExpression(member)
            &&& member.span == Span::spec_synthesized()
            &&& !member.optional
            &&& member.property.span == Span::spec_synthesized()
            &&& member.property.name@ == helper
            &&& member.object matches Expression::Identifier(identifier)
            &&& identifier.span == Span::spec_synthesized()
            &&& identifier.name@ == name
            &&& identifier.reference_id == Some(reference)
        }
    }
}

impl View for HelperLoaderStore {
    type V = StoreModel;

    closed spec fn view(&self) -> StoreModel {
        StoreModel {
            mode: self.mode,
            module_name: self.module_name@,
            lookup: self.lookup,
            loaded: loaded_helpers(self.loaded_helper),
            imports: self.imports@,
        }
    }
}

/// The characters of a string that is either borrowed or owned.
fn text_of<'a>(text: &'a Cow<'static, str>) -> (inner: &'a str)
    ensures
        inner@ == text@,
{
    match text {
        Cow::Borrowed(s) => s,
        Cow::Owned(s) => s.as_str(),
    }
}

impl HelperLoaderStore {
    /// A store with nothing loaded, which looks the helper object up
    /// from the scope of the node being visited.
    pub fn new(options: &HelperLoaderOptions) -> (store: HelperLoaderStore)
        ensures
            store@.mode == options.mode,
            store@.module_name == options.module_name@,
            store@.lookup == HelperObjectLookup::FromCurrentScope,
            store@.loaded == nothing_loaded(),
            store@.imports == Seq::<ImportEntry>::empty(),
    {
        Self::with_lookup(options, HelperObjectLookup::FromCurrentScope)
    }

    /// A store with nothing loaded, which looks the helper object up as
    /// told.
    pub fn with_lookup(
        options: &HelperLoaderOptions,
        lookup: HelperObjectLookup,
    ) -> (store: HelperLoaderStore)
        ensures
            store@.mode == options.mode,
            store@.module_name == options.module_name@,
            store@.lookup == lookup,
            store@.loaded == nothing_loaded(),
            store@.imports == Seq::<ImportEntry>::empty(),
    {
        HelperLoaderStore {
            mode: options.mode,
            module_name: String::from_str(text_of(&options.module_name)),
            lookup,
            loaded_helper: new_record(),
            imports: Vec::new(),
        }
    }

    /// How helpers are reached.
    pub fn mode(&self) -> (mode: HelperLoaderMode)
        ensures
            mode == self@.mode,
    {
        self.mode
    }

    /// The imports called for and not yet handed over.
    pub fn imports(&self) -> (imports: &Vec<ImportEntry>)
        ensures
            imports@ == self@.imports,
    {
        &self.imports
    }

    /// Hands the imports called for so far over to `module_imports`, in
    /// the order in which they were called for.
    pub fn drain_into(&mut self, module_imports: &mut ModuleImports)
        ensures
            final(self)@ == (StoreModel { imports: Seq::empty(), ..old(self)@ }),
            final(module_imports)@ == old(module_imports)@ + old(self)@.imports,
    {
        module_imports.add_all(&mut self.imports);
    }

    /// Loads `helper_name` if it is not loaded yet.
    ///
    /// In runtime mode the helper gets a fresh name, bound in the program
    /// scope, and a default import of that name from the helper's module
    /// is called for. In external mode the helper is a property of the
    /// global `babelHelpers`, which is looked up once.
    fn load(&mut self, helper_name: &str, ctx: &mut TraverseCtx)
        requires
            old(self)@.mode != HelperLoaderMode::Inline,
            old(ctx).wf(),
            old(self)@.fits(old(ctx)@.scoping),
        ensures
            final(ctx).wf(),
            final(self)@.fits(final(ctx)@.scoping),
            final(ctx)@.scoping.extends(old(ctx)@.scoping),
            final(ctx)@ == old(self)@.context_loaded(helper_name@, old(ctx)@),
            final(self)@.mode == old(self)@.mode,
            final(self)@.module_name == old(self)@.module_name,
            final(self)@.lookup == old(self)@.lookup,
            final(self)@.loaded == if old(self)@.loads(helper_name@) {
                old(self)@.loaded.insert(helper_name@, old(self)@.entry(helper_name@, old(ctx)@))
            } else {
                old(self)@.loaded
            },
            old(self)@.reached(helper_name@, old(ctx)@, final(self)@.imports),
            final(self)@.loaded.contains_key(helper_name@),
            final(self)@.loaded[helper_name@] == old(self)@.entry(helper_name@, old(ctx)@),
    {
        if is_loaded(&self.loaded_helper, helper_name) {
            return ;
        }
        match self.mode {
            HelperLoaderMode::Runtime => {
                let mut source = self.module_name.clone();
                source.append("/helpers/");
                source.append(helper_name);
                let bound = ctx.generate_uid_in_root_scope(helper_name);
                let symbol_id = bound.symbol_id;
                let local = bound.name.clone();
                self.imports.push(
                    ImportEntry {
                        source,
                        import: NamedImport::new(bound.name, None, symbol_id),
                    },
                );
                record_loaded(
                    &mut self.loaded_helper,
                    String::from_str(helper_name),
                    local,
                    Some(symbol_id.0),
                );
                proof {
                    assert(self@.imports.drop_last() =~= old(self)@.imports);
                    lemma_stale_ids_stay_answerable(ctx@.scoping, old(ctx)@.scoping);
                }
            },
            _ => {
                let symbol_id = match self.lookup {
                    HelperObjectLookup::FromCurrentScope => {
                        let scope = ctx.current_scope_id();
                        ctx.scoping().find_binding(scope, "babelHelpers")
                    },
                    HelperObjectLookup::InProgramScope => ctx.scoping().get_root_binding(
                        "babelHelpers",
                    ),
                };
                let index = match symbol_id {
                    Some(s) => Some(s.0),
                    None => None,
                };
                record_loaded(
                    &mut self.loaded_helper,
                    String::from_str(helper_name),
                    String::from_str("babelHelpers"),
                    index,
                );
            },
        }
    }

    /// The expression that reaches the helper called `helper_name`,
    /// which is loaded first if it is not loaded yet.
    ///
    /// The expression holds a new read of the name that the helper is
    /// reached by, registered in the tables. Inline helpers are not
    /// supported.
    pub fn get_callee(&mut self, helper_name: &str, ctx: &mut TraverseCtx) -> (callee: Expression)
        requires
            old(self)@.mode != HelperLoaderMode::Inline,
            old(ctx).wf(),
            old(self)@.fits(old(ctx)@.scoping),
        ensures
            final(ctx).wf(),
            final(self)@.fits(final(ctx)@.scoping),
            final(ctx)@.scoping.extends(old(ctx)@.scoping),
            final(ctx)@ == old(self)@.context_reached(helper_name@, old(ctx)@),
            final(self)@.mode == old(self)@.mode,
            final(self)@.module_name == old(self)@.module_name,
            final(self)@.lookup == old(self)@.lookup,
            final(self)@.loaded == if old(self)@.loads(helper_name@) {
                old(self)@.loaded.insert(helper_name@, old(self)@.entry(helper_name@, old(ctx)@))
            } else {
                old(self)@.loaded
            },
            old(self)@.reached(helper_name@, old(ctx)@, final(self)@.imports),
            old(self)@.is_callee(helper_name@, old(ctx)@, callee),
    {
        self.load(helper_name, ctx);
        let ghost loaded = ctx@;
        let (name, index) = match loaded_entry(&self.loaded_helper, helper_name) {
            Some(entry) => entry,
            None => (String::new(), None),
        };
        let symbol_id = match index {
            Some(i) => Some(SymbolId(i)),
            None => None,
        };
        let identifier = ctx.create_reference_id(
            Span::synthesized(),
            name,
            symbol_id,
            ReferenceFlags::Read,
        );
        proof {
            lemma_extends_transitive(old(ctx)@.scoping, loaded.scoping, ctx@.scoping);
            lemma_stale_ids_stay_answerable(ctx@.scoping, loaded.scoping);
        }
        match self.mode {
            HelperLoaderMode::Runtime => Expression::Identifier(Box::new(identifier)),
            _ => Expression::StaticMemberExpression(
                Box::new(
                    StaticMemberExpression {
                        span: Span::synthesized(),
                        object: Expression::Identifier(Box::new(identifier)),
                        property: IdentifierName {
                            span: Span::synthesized(),
                            name: String::from_str(helper_name),
                        },
                        optional: false,
                    },
                ),
            ),
        }
    }

    /// The call of the helper called `helper_name` on `arguments`.
    pub fn call(
        &mut self,
        helper_name: &str,
        arguments: Vec<Argument>,
        ctx: &mut TraverseCtx,
    ) -> (call: CallExpression)
        requires
            old(self)@.mode != HelperLoaderMode::Inline,
            old(ctx).wf(),
            old(self)@.fits(old(ctx)@.scoping),
        ensures
            final(ctx).wf(),
            final(self)@.fits(final(ctx)@.scoping),
            final(ctx)@.scoping.extends(old(ctx)@.scoping),
            final(ctx)@ == old(self)@.context_reached(helper_name@, old(ctx)@),
            final(self)@.mode == old(self)@.mode,
            final(self)@.module_name == old(self)@.module_name,
            final(self)@.lookup == old(self)@.lookup,
            final(self)@.loaded == if old(self)@.loads(helper_name@) {
                old(self)@.loaded.insert(helper_name@, old(self)@.entry(helper_name@, old(ctx)@))
            } else {
                old(self)@.loaded
            },
            old(self)@.reached(helper_name@, old(ctx)@, final(self)@.imports),
            old(self)@.is_callee(helper_name@, old(ctx)@, call.callee),
            call.span == Span::spec_synthesized(),
            call.arguments == arguments,
            !call.optional,
    {
        let callee = self.get_callee(helper_name, ctx);
        CallExpression { span: Span::synthesized(), callee, arguments, optional: false }
    }

    /// The call of the helper called `helper_name` on `arguments`, as an
    /// expression.
    pub fn call_expr(
        &mut self,
        helper_name: &str,
        arguments: Vec<Argument>,
        ctx: &mut TraverseCtx,
    ) -> (expression: Expression)
        requires
            old(self)@.mode != HelperLoaderMode::Inline,
            old(ctx).wf(),
            old(self)@.fits(old(ctx)@.scoping),
        ensures
            final(ctx).wf(),
            final(self)@.fits(final(ctx)@.scoping),
            final(ctx)@.scoping.extends(old(ctx)@.scoping),
            final(ctx)@ == old(self)@.context_reached(helper_name@, old(ctx)@),
            final(self)@.mode == old(self)@.mode,
            final(self)@.module_name == old(self)@.module_name,
            final(self)@.lookup == old(self)@.lookup,
            final(self)@.loaded == if old(self)@.loads(helper_name@) {
                old(self)@.loaded.insert(helper_name@, old(self)@.entry(helper_name@, old(ctx)@))
            } else {
                old(self)@.loaded
            },
            old(self)@.reached(helper_name@, old(ctx)@, final(self)@.imports),
            expression matches Expression::CallExpression(call) && old(self)@.is_callee(
                helper_name@,
                old(ctx)@,
                call.callee,
            ) && call.span == Span::spec_synthesized() && call.arguments == arguments
                && !call.optional,
    {
        Expression::CallExpression(Box::new(self.call(helper_name, arguments, ctx)))
    }
}

/// The pass that, when the walk leaves the program, hands the imports
/// that helpers called for over to the program's imports.
pub struct HelperLoader {
    pub store: HelperLoaderStore,
    pub module_imports: ModuleImports,
}

impl HelperLoader {
    /// The pass over the given store and imports.
    pub fn new(store: HelperLoaderStore, module_imports: ModuleImports) -> (pass: HelperLoader)
        ensures
            pass.store == store,
            pass.module_imports == module_imports,
    {
        HelperLoader { store, module_imports }
    }

    /// Hands the imports that helpers called for over to the program's
    /// imports, after those that are there, in the order in which they
    /// were called for.
    pub fn insert_into_program(&mut self)
        ensures
            final(self).store@ == (StoreModel { imports: Seq::empty(), ..old(self).store@ }),
            final(self).module_imports@ == old(self).module_imports@ + old(self).store@.imports,
    {
        self.store.drain_into(&mut self.module_imports);
    }
}

impl Traverse for HelperLoader {
    /// The pass keeps no record of the walk.
    open spec fn inv(&self, trail: Seq<Visit>) -> bool {
        true
    }

    /// The pass changes its own state.
    open spec fn observes(&self) -> bool {
        false
    }

    fn enter_program(&mut self, program: &mut Program<'_>, ctx: &mut TraverseCtx) {
    }

    /// Hands the imports over.
    fn exit_program(&mut self, program: &mut Program<'_>, ctx: &mut TraverseCtx)
        ensures
            final(self).store@ == (StoreModel { imports: Seq::empty(), ..old(self).store@ }),
            final(self).module_imports@ == old(self).module_imports@ + old(self).store@.imports,
            *final(program) == *old(program),
            final(ctx)@ == old(ctx)@,
    {
        self.insert_into_program();
    }

    fn enter_statement(&mut self, statement: &mut Statement, ctx: &mut TraverseCtx) {
    }

    fn exit_statement(&mut self, statement: &mut Statement, ctx: &mut TraverseCtx) {
    }

    fn enter_expression(&mut self, expression: &mut Expression, ctx: &mut TraverseCtx) {
    }

    fn exit_expression(&mut self, expression: &mut Expression, ctx: &mut TraverseCtx) {
    }
}

} // verus!
