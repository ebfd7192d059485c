//! What holds of the semantic tables, whatever sequence of operations
//! built them.

use crate::semantic::model::{BindingModel, ScopingModel, first_named};
use crate::syntax::{NodeId, ReferenceFlags, ReferenceId, ScopeId, ScopeKind, SymbolFlags, SymbolId};
use vstd::prelude::*;

verus! {

/// A binding found by name in a list is a member of the list and carries
/// the name.
pub proof fn lemma_first_named_found(
    symbols: Seq<BindingModel>,
    ids: Seq<SymbolId>,
    name: Seq<char>,
    from: int,
)
    requires
        0 <= from,
        first_named(symbols, ids, name, from) is Some,
    ensures
        ids.contains(first_named(symbols, ids, name, from).unwrap()),
        symbols[first_named(symbols, ids, name, from).unwrap().0 as int].name == name,
    decreases ids.len() - from,
{
    if from < ids.len() {
        if symbols[ids[from].0 as int].name == name {
            assert(ids[from] == first_named(symbols, ids, name, from).unwrap());
        } else {
            lemma_first_named_found(symbols, ids, name, from + 1);
        }
    }
}

/// A list in which nothing from `from` on is called `name` yields no
/// binding, and the other way round.
pub proof fn lemma_first_named_none(
    symbols: Seq<BindingModel>,
    ids: Seq<SymbolId>,
    name: Seq<char>,
    from: int,
)
    requires
        0 <= from,
    ensures
        first_named(symbols, ids, name, from) is None <==> forall|j: int|
            from <= j < ids.len() ==> symbols[(#[trigger] ids[j]).0 as int].name != name,
    decreases ids.len() - from,
{
    if from < ids.len() {
        lemma_first_named_none(symbols, ids, name, from + 1);
        if symbols[ids[from].0 as int].name == name {
            assert(symbols[ids[from].0 as int].name == name);
        }
    }
}

/// Appending to a list does not change which binding a name finds there,
/// when it found one.
pub proof fn lemma_first_named_prefix(
    symbols: Seq<BindingModel>,
    later_symbols: Seq<BindingModel>,
    ids: Seq<SymbolId>,
    later_ids: Seq<SymbolId>,
    name: Seq<char>,
    from: int,
)
    requires
        0 <= from,
        ids.is_prefix_of(later_ids),
        forall|j: int|
            0 <= j < ids.len() ==> 0 <= (#[trigger] ids[j]).0 < symbols.len() && symbols.len()
                <= later_symbols.len() && later_symbols[ids[j].0 as int].name
                == symbols[ids[j].0 as int].name,
        first_named(symbols, ids, name, from) is Some,
    ensures
        first_named(later_symbols, later_ids, name, from) == first_named(symbols, ids, name, from),
    decreases ids.len() - from,
{
    if from < ids.len() {
        assert(later_ids[from] == ids[from]);
        if symbols[ids[from].0 as int].name != name {
            lemma_first_named_prefix(symbols, later_symbols, ids, later_ids, name, from + 1);
        }
    }
}

/// Shadow correctness. If `outer` declares `name`, then resolving `name`
/// from any scope nested under `outer`, with no scope from there up to
/// `outer` redeclaring the name, yields `outer`'s binding.
pub proof fn lemma_shadow_correctness(
    tables: ScopingModel,
    outer: ScopeId,
    inner: ScopeId,
    name: Seq<char>,
)
    requires
        tables.wf(),
        tables.has_scope(inner),
        tables.declared_in(outer, name) is Some,
        tables.reaches_unshadowed(inner, outer, name),
    ensures
        tables.lookup(inner, name) == tables.declared_in(outer, name),
    decreases inner.0,
{
    if inner != outer {
        let parent = tables.scope(inner).parent.unwrap();
        lemma_shadow_correctness(tables, outer, parent, name);
    }
}

/// An inner declaration shadows every outer one of the same name:
/// resolving from a scope that declares the name yields its own binding.
pub proof fn lemma_inner_declaration_shadows(tables: ScopingModel, scope: ScopeId, name: Seq<char>)
    requires
        tables.declared_in(scope, name) is Some,
    ensures
        tables.lookup(scope, name) == tables.declared_in(scope, name),
{
}

/// What resolution returns is sound: the binding carries the name, is
/// declared by its owning scope under that name, and that scope is the
/// starting scope or one of its ancestors.
pub proof fn lemma_lookup_sound(tables: ScopingModel, scope: ScopeId, name: Seq<char>)
    requires
        tables.wf(),
        tables.has_scope(scope),
        tables.lookup(scope, name) is Some,
    ensures
        ({
            let found = tables.lookup(scope, name).unwrap();
            &&& tables.has_symbol(found)
            &&& tables.binding(found).name == name
            &&& tables.has_scope(tables.binding(found).scope)
            &&& tables.encloses(tables.binding(found).scope, scope)
            &&& tables.declared_in(tables.binding(found).scope, name) == Some(found)
            &&& tables.reaches_unshadowed(scope, tables.binding(found).scope, name)
        }),
    decreases scope.0,
{
    match tables.declared_in(scope, name) {
        Some(found) => {
            let ids = tables.scope(scope).bindings;
            lemma_first_named_found(tables.symbols, ids, name, 0);
            let j = choose|j: int| 0 <= j < ids.len() && ids[j] == found;
            assert(tables.scopes[scope.0 as int].bindings[j] == found);
        },
        None => {
            let parent = tables.scope(scope).parent.unwrap();
            assert(parent.0 < scope.0);
            lemma_lookup_sound(tables, parent, name);
        },
    }
}

/// A name resolves to nothing exactly when no scope from the starting
/// scope outward declares it.
pub proof fn lemma_lookup_unresolved(tables: ScopingModel, scope: ScopeId, name: Seq<char>)
    requires
        tables.wf(),
        tables.has_scope(scope),
    ensures
        tables.lookup(scope, name) is None <==> forall|ancestor: ScopeId|
            tables.has_scope(ancestor) && #[trigger] tables.encloses(ancestor, scope)
                ==> tables.declared_in(ancestor, name) is None,
    decreases scope.0,
{
    assert(tables.encloses(scope, scope));
    if scope.0 != 0 {
        assert(tables.scopes[scope.0 as int].parent is Some);
        let parent = tables.scope(scope).parent.unwrap();
        lemma_lookup_unresolved(tables, parent, name);
        if tables.declared_in(scope, name) is None {
            if tables.lookup(parent, name) is None {
                assert forall|ancestor: ScopeId|
                    tables.has_scope(ancestor) && #[trigger] tables.encloses(
                        ancestor,
                        scope,
                    ) implies tables.declared_in(ancestor, name) is None by {
                    if ancestor != scope {
                        assert(tables.encloses(ancestor, parent));
                    }
                }
            } else {
                let witness = choose|ancestor: ScopeId|
                    tables.has_scope(ancestor) && #[trigger] tables.encloses(ancestor, parent)
                        && tables.declared_in(ancestor, name) is Some;
                assert(tables.encloses(witness, scope));
            }
        }
    } else {
        assert(tables.scopes[0].parent is None);
        assert forall|ancestor: ScopeId|
            tables.has_scope(ancestor) && #[trigger] tables.encloses(
                ancestor,
                scope,
            ) implies ancestor == scope by {}
    }
}

/// Bidirectional consistency. Every use that resolved to a binding is in
/// that binding's list of uses.
pub proof fn lemma_resolved_reference_is_listed(tables: ScopingModel, reference: ReferenceId)
    requires
        tables.wf(),
        tables.has_reference(reference),
        tables.reference(reference).symbol is Some,
    ensures
        tables.has_symbol(tables.reference(reference).symbol.unwrap()),
        tables.binding(tables.reference(reference).symbol.unwrap()).references.contains(reference),
{
    assert(tables.references[reference.0 as int].symbol is Some);
}

/// The other direction: every use in a binding's list resolved to that
/// binding.
pub proof fn lemma_listed_reference_is_resolved(
    tables: ScopingModel,
    symbol: SymbolId,
    position: int,
)
    requires
        tables.wf(),
        tables.has_symbol(symbol),
        0 <= position < tables.binding(symbol).references.len(),
    ensures
        tables.has_reference(tables.binding(symbol).references[position]),
        tables.reference(tables.binding(symbol).references[position]).symbol == Some(symbol),
{
    let r = tables.symbols[symbol.0 as int].references[position];
}

/// Every binding is owned by exactly one scope: the scope it names lists
/// it, and no other scope does.
pub proof fn lemma_binding_has_one_owner(tables: ScopingModel, symbol: SymbolId, scope: ScopeId)
    requires
        tables.wf(),
        tables.has_symbol(symbol),
        tables.has_scope(scope),
    ensures
        tables.scope(scope).bindings.contains(symbol) <==> tables.binding(symbol).scope == scope,
{
    if tables.scope(scope).bindings.contains(symbol) {
        let j = choose|j: int|
            0 <= j < tables.scope(scope).bindings.len() && tables.scope(scope).bindings[j]
                == symbol;
        assert(tables.scopes[scope.0 as int].bindings[j] == symbol);
    }
    assert(tables.symbols[symbol.0 as int].scope == tables.binding(symbol).scope);
}

/// A function-scoped declaration lands in a function or program scope
/// that is the declaring scope or one of its ancestors.
pub proof fn lemma_hoist_target(tables: ScopingModel, scope: ScopeId)
    requires
        tables.wf(),
        tables.has_scope(scope),
    ensures
        tables.has_scope(tables.hoist_target(scope)),
        tables.scope(tables.hoist_target(scope)).kind.spec_is_hoist_target(),
        tables.encloses(tables.hoist_target(scope), scope),
    decreases scope.0,
{
    if !tables.scope(scope).kind.spec_is_hoist_target() {
        assert(scope.0 != 0);
        assert(tables.scopes[scope.0 as int].parent is Some);
        lemma_hoist_target(tables, tables.scope(scope).parent.unwrap());
    }
}

/// The scopes form one tree: the program scope encloses every scope.
pub proof fn lemma_program_scope_encloses_all(tables: ScopingModel, scope: ScopeId)
    requires
        tables.wf(),
        tables.has_scope(scope),
    ensures
        tables.encloses(ScopeId(0), scope),
    decreases scope.0,
{
    if scope.0 != 0 {
        assert(tables.scopes[scope.0 as int].parent is Some);
        lemma_program_scope_encloses_all(tables, tables.scope(scope).parent.unwrap());
    }
}

/// Growing by appending is reflexive.
pub proof fn lemma_extends_reflexive(tables: ScopingModel)
    ensures
        tables.extends(tables),
{
}

/// Growing by appending is transitive.
pub proof fn lemma_extends_transitive(
    first: ScopingModel,
    second: ScopingModel,
    third: ScopingModel,
)
    requires
        second.extends(first),
        third.extends(second),
    ensures
        third.extends(first),
{
    assert forall|i: int| 0 <= i < first.scopes.len() implies (#[trigger] first.scopes[i]).bindings.is_prefix_of(
        third.scopes[i].bindings,
    ) by {
        assert(first.scopes[i].bindings.is_prefix_of(second.scopes[i].bindings));
        assert(second.scopes[i].bindings.is_prefix_of(third.scopes[i].bindings));
    }
    assert forall|s: int| 0 <= s < first.symbols.len() implies (#[trigger] first.symbols[s]).references.is_prefix_of(
        third.symbols[s].references,
    ) by {
        assert(first.symbols[s].references.is_prefix_of(second.symbols[s].references));
        assert(second.symbols[s].references.is_prefix_of(third.symbols[s].references));
    }
}

/// Opening a scope only appends.
pub proof fn lemma_with_scope_extends(
    tables: ScopingModel,
    parent: ScopeId,
    kind: ScopeKind,
    node: NodeId,
)
    ensures
        tables.with_scope(parent, kind, node).extends(tables),
{
}

/// Registering a binding only appends.
pub proof fn lemma_with_binding_extends(
    tables: ScopingModel,
    scope: ScopeId,
    name: Seq<char>,
    node: NodeId,
    flags: SymbolFlags,
)
    requires
        tables.has_scope(scope),
    ensures
        tables.with_binding(scope, name, node, flags).extends(tables),
{
}

/// Registering a use only appends.
pub proof fn lemma_with_reference_extends(
    tables: ScopingModel,
    node: NodeId,
    symbol: Option<SymbolId>,
    flags: ReferenceFlags,
)
    requires
        symbol is Some ==> tables.has_symbol(symbol.unwrap()),
    ensures
        tables.with_reference(node, symbol, flags).extends(tables),
{
}

/// Append-only tolerance. Whatever was registered stays answerable: once
/// the tables have grown, every earlier id still names an entry, and the
/// entry still says what it said. Removing or replacing a syntax node
/// touches no table, so the ids it leaves behind keep answering.
pub proof fn lemma_stale_ids_stay_answerable(now: ScopingModel, earlier: ScopingModel)
    requires
        now.extends(earlier),
    ensures
        forall|scope: ScopeId| #[trigger]
            earlier.has_scope(scope) ==> now.has_scope(scope) && now.scope(scope).parent
                == earlier.scope(scope).parent && now.scope(scope).kind == earlier.scope(
                scope,
            ).kind,
        forall|symbol: SymbolId| #[trigger]
            earlier.has_symbol(symbol) ==> now.has_symbol(symbol) && now.binding(symbol).name
                == earlier.binding(symbol).name && now.binding(symbol).scope == earlier.binding(
                symbol,
            ).scope && now.binding(symbol).node == earlier.binding(symbol).node && now.binding(
                symbol,
            ).flags == earlier.binding(symbol).flags && earlier.binding(
                symbol,
            ).references.is_prefix_of(now.binding(symbol).references),
        forall|reference: ReferenceId| #[trigger]
            earlier.has_reference(reference) ==> now.has_reference(reference) && now.reference(
                reference,
            ) == earlier.reference(reference),
{
    assert forall|scope: ScopeId| #[trigger] earlier.has_scope(scope) implies now.has_scope(scope)
        && now.scope(scope).parent == earlier.scope(scope).parent && now.scope(scope).kind
        == earlier.scope(scope).kind by {
        let was = earlier.scopes[scope.0 as int];
    }
    assert forall|symbol: SymbolId| #[trigger] earlier.has_symbol(symbol) implies now.has_symbol(
        symbol,
    ) && now.binding(symbol).name == earlier.binding(symbol).name && now.binding(symbol).scope
        == earlier.binding(symbol).scope && now.binding(symbol).node == earlier.binding(
        symbol,
    ).node && now.binding(symbol).flags == earlier.binding(symbol).flags && earlier.binding(
        symbol,
    ).references.is_prefix_of(now.binding(symbol).references) by {
        let was = earlier.symbols[symbol.0 as int];
    }
    assert forall|reference: ReferenceId| #[trigger]
        earlier.has_reference(reference) implies now.has_reference(reference) && now.reference(
        reference,
    ) == earlier.reference(reference) by {
        let was = earlier.references[reference.0 as int];
    }
}

} // verus!
