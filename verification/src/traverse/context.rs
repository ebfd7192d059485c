//! The context that a pass carries through the tree: the semantic tables,
//! the stack of open scopes, and the memory of the names it has generated.

use crate::ast::nodes::IdentifierReference;
use crate::semantic::laws::{
    lemma_first_named_none, lemma_lookup_sound, lemma_stale_ids_stay_answerable,
};
use crate::semantic::model::{ScopingModel, first_named};
use crate::semantic::outline::declaring_scope;
use crate::semantic::scoping::Scoping;
use crate::span::Span;
use crate::syntax::{NodeId, ReferenceFlags, ReferenceId, ScopeId, SymbolFlags, SymbolId};
use crate::traverse::naming::{candidate, candidate_name, lemma_candidate_injective};
use vstd::prelude::*;
use vstd::relations::injective_on;
use vstd::set_lib::{lemma_int_range, lemma_len_subset, lemma_map_size, set_int_range};

verus! {

/// A binding that a pass has created, with the name it goes by.
#[derive(Debug, PartialEq)]
pub struct BoundIdentifier {
    pub name: String,
    pub symbol_id: SymbolId,
}

/// One step of the walk: a hook that it ran, and the span of the node that
/// the hook was handed.
#[derive(Debug, Clone, Copy, PartialEq, Eq, Structural)]
pub enum Visit {
    EnterProgram,
    ExitProgram,
    EnterStatement(Span),
    ExitStatement(Span),
    EnterExpression(Span),
    ExitExpression(Span),
}

/// Model of the traversal context.
pub struct TraverseModel {
    pub scoping: ScopingModel,
    /// The open scopes, outermost first; the last is the current scope.
    pub scope_stack: Seq<ScopeId>,
    /// The bindings that fresh-name generation has registered in this
    /// pass, oldest first.
    pub generated: Seq<SymbolId>,
    /// The visits that the walk has made in this pass, oldest first.
    pub trail: Seq<Visit>,
}

impl TraverseModel {
    /// The invariant of the context.
    pub open spec fn wf(self) -> bool {
        &&& self.scoping.wf()
        &&& self.scope_stack.len() >= 1
        &&& forall|i: int|
            0 <= i < self.scope_stack.len() ==> self.scoping.has_scope(
                #[trigger] self.scope_stack[i]
            )
        &&& forall|i: int|
            0 <= i < self.generated.len() ==> self.scoping.has_symbol(#[trigger] self.generated[i])
    }

    /// The scope of the node that the pass is visiting.
    pub open spec fn current_scope(self) -> ScopeId {
        self.scope_stack.last()
    }

    /// Whether this pass has already generated `name`.
    pub open spec fn has_generated(self, name: Seq<char>) -> bool {
        exists|i: int|
            0 <= i < self.generated.len() && self.scoping.binding(#[trigger] self.generated[i]).name
                == name
    }

    /// Whether `name` cannot be handed out for `scope`: a binding visible
    /// from `scope` carries it, or this pass has generated it before.
    pub open spec fn name_taken(self, scope: ScopeId, name: Seq<char>) -> bool {
        self.scoping.lookup(scope, name) is Some || self.has_generated(name)
    }

    /// Whether the `k`-th name tried for `base` is the first that is free.
    pub open spec fn is_uid_index(self, base: Seq<char>, scope: ScopeId, k: nat) -> bool {
        &&& !self.name_taken(scope, candidate(base, k))
        &&& forall|j: nat| j < k ==> self.name_taken(scope, #[trigger] candidate(base, j))
    }

    /// Which of the names tried for `base` is handed out for `scope`: the
    /// first that is free.
    pub open spec fn uid_index(self, base: Seq<char>, scope: ScopeId) -> nat {
        choose|k: nat| self.is_uid_index(base, scope, k)
    }

    /// The fresh name handed out for `base` in `scope`.
    pub open spec fn uid_name(self, base: Seq<char>, scope: ScopeId) -> Seq<char> {
        candidate(base, self.uid_index(base, scope))
    }

    /// The context after a fresh name for `base` is generated in `scope`:
    /// the name is registered there as a generated binding, and
    /// remembered.
    pub open spec fn with_uid(self, base: Seq<char>, scope: ScopeId) -> TraverseModel {
        TraverseModel {
            scoping: self.scoping.with_binding(
                scope,
                self.uid_name(base, scope),
                NodeId::spec_dummy(),
                SymbolFlags::spec_generated(),
            ),
            scope_stack: self.scope_stack,
            generated: self.generated.push(SymbolId(self.scoping.symbols.len() as usize)),
            trail: self.trail,
        }
    }
}

/// Some binding that carries `name`.
pub open spec fn name_holder(tables: ScopingModel, name: Seq<char>) -> int {
    choose|s: int| 0 <= s < tables.symbols.len() && tables.symbols[s].name == name
}

/// A name that cannot be handed out is the name of some binding.
pub proof fn lemma_taken_name_is_held(model: TraverseModel, scope: ScopeId, name: Seq<char>)
    requires
        model.wf(),
        model.scoping.has_scope(scope),
        model.name_taken(scope, name),
    ensures
        0 <= name_holder(model.scoping, name) < model.scoping.symbols.len(),
        model.scoping.symbols[name_holder(model.scoping, name)].name == name,
{
    if model.scoping.lookup(scope, name) is Some {
        lemma_lookup_sound(model.scoping, scope, name);
        let found = model.scoping.lookup(scope, name).unwrap();
        assert(model.scoping.symbols[found.0 as int].name == name);
    } else {
        let i = choose|i: int|
            0 <= i < model.generated.len() && model.scoping.binding(
                #[trigger] model.generated[i]
            ).name
                == name;
        assert(model.scoping.symbols[model.generated[i].0 as int].name == name);
    }
}

/// The search for a free name ends: no more names in a row can be taken
/// than there are bindings.
pub proof fn lemma_taken_run_is_bounded(
    model: TraverseModel,
    base: Seq<char>,
    scope: ScopeId,
    k: nat,
)
    requires
        model.wf(),
        model.scoping.has_scope(scope),
        forall|j: nat| j < k ==> model.name_taken(scope, #[trigger] candidate(base, j)),
    ensures
        k <= model.scoping.symbols.len(),
{
    let n = model.scoping.symbols.len() as int;
    let holder = |j: int| name_holder(model.scoping, candidate(base, j as nat));
    let tried = set_int_range(0, k as int);
    let held = tried.map(holder);
    lemma_int_range(0, k as int);
    assert forall|j: int| tried.contains(j) implies 0 <= #[trigger] holder(j) < n
        && model.scoping.symbols[holder(j)].name == candidate(base, j as nat) by {
        assert(model.name_taken(scope, candidate(base, j as nat)));
        lemma_taken_name_is_held(model, scope, candidate(base, j as nat));
    }
    assert(injective_on(holder, tried)) by {
        assert forall|a: int, b: int|
            tried.contains(a) && tried.contains(b) && #[trigger] holder(a) == #[trigger] holder(
                b,
            ) implies a == b by {
            lemma_candidate_injective(base, a as nat, b as nat);
        }
    }
    lemma_map_size(tried, held, holder);
    lemma_int_range(0, n);
    assert(held.subset_of(set_int_range(0, n))) by {
        assert forall|s: int| held.contains(s) implies set_int_range(0, n).contains(s) by {
            let j = choose|j: int| tried.contains(j) && s == holder(j);
            assert(0 <= holder(j) < n);
        }
    }
    lemma_len_subset(held, set_int_range(0, n));
}

/// There is one first free name, and the search finds it.
pub proof fn lemma_uid_index_is(model: TraverseModel, base: Seq<char>, scope: ScopeId, k: nat)
    requires
        model.is_uid_index(base, scope, k),
    ensures
        model.uid_index(base, scope) == k,
{
    let chosen = model.uid_index(base, scope);
    assert(model.is_uid_index(base, scope, chosen));
    if chosen < k {
        assert(model.name_taken(scope, candidate(base, chosen)));
    } else if k < chosen {
        assert(model.name_taken(scope, candidate(base, k)));
    }
}

/// The context that a pass carries through the tree.
pub struct TraverseCtx {
    scoping: Scoping,
    scope_stack: Vec<ScopeId>,
    generated: Vec<SymbolId>,
    trail: Ghost<Seq<Visit>>,
}

impl View for TraverseCtx {
    type V = TraverseModel;

    closed spec fn view(&self) -> TraverseModel {
        TraverseModel {
            scoping: self.scoping@,
            scope_stack: self.scope_stack@,
            generated: self.generated@,
            trail: self.trail@,
        }
    }
}

impl TraverseCtx {
    /// The invariant of the context.
    pub open spec fn wf(&self) -> bool {
        self@.wf()
    }

    /// The context at the start of a pass over a unit with the given
    /// tables: the program scope is open, and nothing has been generated.
    pub fn new(scoping: Scoping) -> (ctx: TraverseCtx)
        requires
            scoping.wf(),
        ensures
            ctx.wf(),
            ctx@.scoping == scoping@,
            ctx@.scope_stack == seq![ScopeId(0)],
            ctx@.generated == Seq::<SymbolId>::empty(),
            ctx@.trail == Seq::<Visit>::empty(),
    {
        let mut scope_stack: Vec<ScopeId> = Vec::new();
        scope_stack.push(ScopeId(0));
        TraverseCtx { scoping, scope_stack, generated: Vec::new(), trail: Ghost(Seq::empty()) }
    }

    /// Ends the pass and hands the tables back.
    pub fn into_scoping(self) -> (scoping: Scoping)
        requires
            self.wf(),
        ensures
            scoping.wf(),
            scoping@ == self@.scoping,
    {
        self.scoping
    }

    /// The semantic tables, for the read queries.
    pub fn scoping(&self) -> (scoping: &Scoping)
        ensures
            scoping@ == self@.scoping,
    {
        &self.scoping
    }

    /// The scope of the node that the pass is visiting.
    pub fn current_scope_id(&self) -> (scope: ScopeId)
        requires
            self.wf(),
        ensures
            scope == self@.current_scope(),
            self@.scoping.has_scope(scope),
    {
        self.scope_stack[self.scope_stack.len() - 1]
    }

    /// How many scopes are open.
    pub fn scope_depth(&self) -> (depth: usize)
        ensures
            depth == self@.scope_stack.len(),
    {
        self.scope_stack.len()
    }

    /// Enters `scope`: it becomes the current scope.
    pub fn push_scope(&mut self, scope: ScopeId)
        requires
            old(self).wf(),
            old(self)@.scoping.has_scope(scope),
        ensures
            final(self).wf(),
            final(self)@ == (TraverseModel {
                scope_stack: old(self)@.scope_stack.push(scope),
                ..old(self)@
            }),
    {
        self.scope_stack.push(scope);
    }

    /// Leaves the current scope: the one entered before it is current
    /// again. The program scope is never left.
    pub fn pop_scope(&mut self)
        requires
            old(self).wf(),
            old(self)@.scope_stack.len() >= 2,
        ensures
            final(self).wf(),
            final(self)@ == (TraverseModel {
                scope_stack: old(self)@.scope_stack.drop_last(),
                ..old(self)@
            }),
    {
        self.scope_stack.pop();
    }

    /// Generates a fresh name for `base` in the program scope.
    pub fn generate_uid_in_root_scope(&mut self, base: &str) -> (bound: BoundIdentifier)
        requires
            old(self).wf(),
        ensures
            final(self).wf(),
            final(self)@ == old(self)@.with_uid(base@, ScopeId(0)),
            final(self)@.scoping.extends(old(self)@.scoping),
            bound.name@ == old(self)@.uid_name(base@, ScopeId(0)),
            bound.symbol_id == SymbolId(old(self)@.scoping.symbols.len() as usize),
    {
        self.generate_uid(base, ScopeId(0))
    }

    /// Generates a fresh name for `base` in the current scope.
    pub fn generate_uid_in_current_scope(&mut self, base: &str) -> (bound: BoundIdentifier)
        requires
            old(self).wf(),
        ensures
            final(self).wf(),
            final(self)@ == old(self)@.with_uid(base@, old(self)@.current_scope()),
            final(self)@.scoping.extends(old(self)@.scoping),
            bound.name@ == old(self)@.uid_name(base@, old(self)@.current_scope()),
            bound.symbol_id == SymbolId(old(self)@.scoping.symbols.len() as usize),
    {
        let scope = self.current_scope_id();
        self.generate_uid(base, scope)
    }

    /// Registers the binding of a declaration that a pass inserts in
    /// `scope`, under the name given. As in analysis, a function-scoped
    /// declaration registers in the nearest function or program scope,
    /// any other in `scope` itself.
    pub fn generate_binding(
        &mut self,
        name: String,
        scope: ScopeId,
        flags: SymbolFlags,
    ) -> (bound: BoundIdentifier)
        requires
            old(self).wf(),
            old(self)@.scoping.has_scope(scope),
        ensures
            final(self).wf(),
            final(self)@ == (TraverseModel {
                scoping: old(self)@.scoping.with_binding(
                    declaring_scope(old(self)@.scoping, scope, flags),
                    name@,
                    NodeId::spec_dummy(),
                    flags,
                ),
                ..old(self)@
            }),
            final(self)@.scoping.extends(old(self)@.scoping),
            bound.name@ == name@,
            bound.symbol_id == SymbolId(old(self)@.scoping.symbols.len() as usize),
    {
        let symbol_id = if flags.function_scoped {
            self.scoping.declare_hoisted(scope, name.as_str(), NodeId::dummy(), flags)
        } else {
            self.scoping.declare(scope, name.as_str(), NodeId::dummy(), flags)
        };
        proof {
            lemma_stale_ids_stay_answerable(self@.scoping, old(self)@.scoping);
            assert forall|i: int| 0 <= i < self@.generated.len() implies self@.scoping.has_symbol(
                #[trigger] self@.generated[i],
            ) by {
                assert(old(self)@.scoping.has_symbol(old(self)@.generated[i]));
            }
            assert forall|i: int| 0 <= i < self@.scope_stack.len() implies self@.scoping.has_scope(
                #[trigger] self@.scope_stack[i],
            ) by {
                assert(old(self)@.scoping.has_scope(old(self)@.scope_stack[i]));
            }
        }
        BoundIdentifier { name, symbol_id }
    }

    /// Registers a use of `symbol_id` (or a free use, for `None`) and
    /// builds the identifier node that makes it.
    pub fn create_reference_id(
        &mut self,
        span: Span,
        name: String,
        symbol_id: Option<SymbolId>,
        flags: ReferenceFlags,
    ) -> (identifier: IdentifierReference)
        requires
            old(self).wf(),
            symbol_id is Some ==> old(self)@.scoping.has_symbol(symbol_id.unwrap()),
        ensures
            final(self).wf(),
            final(self)@ == (TraverseModel {
                scoping: old(self)@.scoping.with_reference(NodeId::spec_dummy(), symbol_id, flags),
                ..old(self)@
            }),
            final(self)@.scoping.extends(old(self)@.scoping),
            identifier.span == span,
            identifier.name@ == name@,
            identifier.reference_id == Some(
                ReferenceId(old(self)@.scoping.references.len() as usize),
            ),
    {
        let reference_id = self.scoping.create_reference(NodeId::dummy(), symbol_id, flags);
        proof {
            lemma_stale_ids_stay_answerable(self@.scoping, old(self)@.scoping);
            assert forall|i: int| 0 <= i < self@.generated.len() implies self@.scoping.has_symbol(
                #[trigger] self@.generated[i],
            ) by {
                assert(old(self)@.scoping.has_symbol(old(self)@.generated[i]));
            }
            assert forall|i: int| 0 <= i < self@.scope_stack.len() implies self@.scoping.has_scope(
                #[trigger] self@.scope_stack[i],
            ) by {
                assert(old(self)@.scoping.has_scope(old(self)@.scope_stack[i]));
            }
        }
        IdentifierReference { span, name, reference_id: Some(reference_id) }
    }

    /// Registers a use of `name`, resolved from the current scope, and
    /// builds the identifier node that makes it.
    pub fn create_reference_in_current_scope(
        &mut self,
        span: Span,
        name: String,
        flags: ReferenceFlags,
    ) -> (identifier: IdentifierReference)
        requires
            old(self).wf(),
        ensures
            final(self).wf(),
            final(self)@ == (TraverseModel {
                scoping: old(self)@.scoping.with_reference(
                    NodeId::spec_dummy(),
                    old(self)@.scoping.lookup(old(self)@.current_scope(), name@),
                    flags,
                ),
                ..old(self)@
            }),
            final(self)@.scoping.extends(old(self)@.scoping),
            identifier.span == span,
            identifier.name@ == name@,
            identifier.reference_id == Some(
                ReferenceId(old(self)@.scoping.references.len() as usize),
            ),
    {
        let scope = self.current_scope_id();
        let symbol_id = self.scoping.find_binding(scope, name.as_str());
        self.create_reference_id(span, name, symbol_id, flags)
    }

    /// Notes that the walk is about to run the hook of `visit`.
    pub(crate) fn note_visit(&mut self, visit: Ghost<Visit>)
        ensures
            final(self)@ == (TraverseModel { trail: old(self)@.trail.push(visit@), ..old(self)@ }),
    {
        proof {
            self.trail@ = self.trail@.push(visit@);
        }
    }

    /// Whether this pass has already generated `name`.
    fn has_generated(&self, name: &str) -> (found: bool)
        requires
            self.wf(),
        ensures
            found == self@.has_generated(name@),
    {
        let mut i: usize = 0;
        while i < self.generated.len()
            invariant
                self.wf(),
                i <= self.generated.len(),
                forall|j: int|
                    0 <= j < i ==> self@.scoping.binding(#[trigger] self@.generated[j]).name
                        != name@,
            decreases self.generated.len() - i,
        {
            let symbol = self.generated[i];
            assert(self@.scoping.has_symbol(self@.generated[i as int]));
            if self.scoping.symbol_name(symbol).eq(name) {
                return true;
            }
            i += 1;
        }
        false
    }

    /// Whether `name` cannot be handed out for `scope`.
    fn name_taken(&self, scope: ScopeId, name: &str) -> (taken: bool)
        requires
            self.wf(),
            self@.scoping.has_scope(scope),
        ensures
            taken == self@.name_taken(scope, name@),
    {
        self.scoping.find_binding(scope, name).is_some() || self.has_generated(name)
    }

    /// Generates a name for `base` that collides with no binding visible
    /// from `scope` and with no name generated earlier in this pass, and
    /// registers it in `scope` as a generated binding.
    ///
    /// The names tried are `base`, `base2`, `base3`, and so on; the first
    /// free one is taken. A binding is registered on every call, whether
    /// or not the caller goes on to use the name.
    pub fn generate_uid(&mut self, base: &str, scope: ScopeId) -> (bound: BoundIdentifier)
        requires
            old(self).wf(),
            old(self)@.scoping.has_scope(scope),
        ensures
            final(self).wf(),
            final(self)@ == old(self)@.with_uid(base@, scope),
            final(self)@.scoping.extends(old(self)@.scoping),
            bound.name@ == old(self)@.uid_name(base@, scope),
            bound.symbol_id == SymbolId(old(self)@.scoping.symbols.len() as usize),
            old(self)@.is_uid_index(base@, scope, old(self)@.uid_index(base@, scope)),
            old(self)@.scoping.lookup(scope, bound.name@) is None,
            !old(self)@.has_generated(bound.name@),
            final(self)@.scoping.declared_in(scope, bound.name@) == Some(bound.symbol_id),
    {
        let ghost model = self@;
        let mut k: usize = 0;
        let mut name = candidate_name(base, 0);
        let mut taken = self.name_taken(scope, name.as_str());
        while taken
            invariant
                self.wf(),
                self@ == model,
                model.scoping.has_scope(scope),
                name@ == candidate(base@, k as nat),
                taken == model.name_taken(scope, name@),
                forall|j: nat| j < k ==> model.name_taken(scope, #[trigger] candidate(base@, j)),
            decreases model.scoping.symbols.len() - k,
        {
            proof {
                lemma_taken_run_is_bounded(model, base@, scope, (k + 1) as nat);
            }
            k += 1;
            name = candidate_name(base, k);
            taken = self.name_taken(scope, name.as_str());
        }
        proof {
            assert(model.is_uid_index(base@, scope, k as nat));
            lemma_uid_index_is(model, base@, scope, k as nat);
        }
        let symbol_id = self.scoping.declare(
            scope,
            name.as_str(),
            NodeId::dummy(),
            SymbolFlags::generated(),
        );
        self.generated.push(symbol_id);
        proof {
            let was = model.scoping;
            let now = self@.scoping;
            assert forall|i: int| 0 <= i < self@.generated.len() implies now.has_symbol(
                #[trigger] self@.generated[i],
            ) by {
                if i < model.generated.len() {
                    assert(was.has_symbol(model.generated[i]));
                }
            }
            assert forall|i: int| 0 <= i < self@.scope_stack.len() implies now.has_scope(
                #[trigger] self@.scope_stack[i],
            ) by {
                assert(was.has_scope(model.scope_stack[i]));
            }
            lemma_declared_after_binding(was, scope, name@);
        }
        BoundIdentifier { name, symbol_id }
    }
}

/// A name that `scope` did not declare is, once registered there, the
/// name of the new binding in `scope`.
pub proof fn lemma_declared_after_binding(was: ScopingModel, scope: ScopeId, name: Seq<char>)
    requires
        was.wf(),
        was.has_scope(scope),
        was.lookup(scope, name) is None,
    ensures
        forall|node: NodeId, flags: SymbolFlags|
            (#[trigger] was.with_binding(scope, name, node, flags)).declared_in(scope, name)
                == Some(SymbolId(was.symbols.len() as usize)),
{
    assert forall|node: NodeId, flags: SymbolFlags|
        (#[trigger] was.with_binding(scope, name, node, flags)).declared_in(scope, name) == Some(
            SymbolId(was.symbols.len() as usize),
        ) by {
        let now = was.with_binding(scope, name, node, flags);
        assert(was.declared_in(scope, name) is None);
        lemma_first_named_none(was.symbols, was.scope(scope).bindings, name, 0);
        lemma_first_named_appended(was, now, scope, name, 0);
    }
}

/// Scanning the list of `scope` after a binding called `name` was
/// appended to it, when nothing in the list before carried the name.
proof fn lemma_first_named_appended(
    was: ScopingModel,
    now: ScopingModel,
    scope: ScopeId,
    name: Seq<char>,
    from: int,
)
    requires
        was.wf(),
        was.has_scope(scope),
        0 <= from <= was.scope(scope).bindings.len(),
        now.symbols.len() == was.symbols.len() + 1,
        forall|s: int| 0 <= s < was.symbols.len() ==> now.symbols[s].name == was.symbols[s].name,
        now.symbols[was.symbols.len() as int].name == name,
        now.scope(scope).bindings == was.scope(scope).bindings.push(
            SymbolId(was.symbols.len() as usize),
        ),
        forall|j: int|
            from <= j < was.scope(scope).bindings.len() ==> was.symbols[(
            #[trigger] was.scope(scope).bindings[j]).0 as int].name != name,
    ensures
        first_named(now.symbols, now.scope(scope).bindings, name, from) == Some(
            SymbolId(was.symbols.len() as usize),
        ),
    decreases was.scope(scope).bindings.len() - from,
{
    let ids = was.scope(scope).bindings;
    if from < ids.len() {
        assert(was.has_symbol(was.scopes[scope.0 as int].bindings[from]));
        assert(now.scope(scope).bindings[from] == ids[from]);
        lemma_first_named_appended(was, now, scope, name, from + 1);
    }
}

} // verus!
