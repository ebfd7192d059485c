//! What holds of fresh-name generation.

use crate::semantic::laws::{lemma_first_named_none, lemma_first_named_prefix};
use crate::semantic::model::{ScopingModel, first_named};
use crate::semantic::scoping::lemma_with_binding_wf;
use crate::syntax::{NodeId, ScopeId, SymbolFlags, SymbolId};
use crate::traverse::context::{
    TraverseModel, lemma_declared_after_binding, lemma_taken_run_is_bounded,
};
use crate::traverse::naming::candidate;
use vstd::prelude::*;

verus! {

/// From any point of the search on, a free name is found.
proof fn lemma_search_finds(model: TraverseModel, base: Seq<char>, scope: ScopeId, k: nat)
    requires
        model.wf(),
        model.scoping.has_scope(scope),
        forall|j: nat| j < k ==> model.name_taken(scope, #[trigger] candidate(base, j)),
    ensures
        exists|found: nat| model.is_uid_index(base, scope, found),
    decreases model.scoping.symbols.len() - k,
{
    lemma_taken_run_is_bounded(model, base, scope, k);
    if model.name_taken(scope, candidate(base, k)) {
        lemma_taken_run_is_bounded(model, base, scope, k + 1);
        lemma_search_finds(model, base, scope, k + 1);
    } else {
        assert(model.is_uid_index(base, scope, k));
    }
}

/// A fresh name can always be had: among the names tried for a base there
/// is a first free one.
pub proof fn lemma_uid_exists(model: TraverseModel, base: Seq<char>, scope: ScopeId)
    requires
        model.wf(),
        model.scoping.has_scope(scope),
    ensures
        model.is_uid_index(base, scope, model.uid_index(base, scope)),
        !model.name_taken(scope, model.uid_name(base, scope)),
{
    lemma_search_finds(model, base, scope, 0);
}

/// Generating a name keeps the context consistent.
pub proof fn lemma_with_uid_wf(model: TraverseModel, base: Seq<char>, scope: ScopeId)
    requires
        model.wf(),
        model.scoping.has_scope(scope),
        model.scoping.symbols.len() < usize::MAX,
    ensures
        model.with_uid(base, scope).wf(),
        model.with_uid(base, scope).scoping.has_scope(scope),
        model.with_uid(base, scope).scoping.symbols.len() == model.scoping.symbols.len() + 1,
{
    let after = model.with_uid(base, scope);
    let flags = SymbolFlags::spec_generated();
    lemma_with_binding_wf(
        model.scoping,
        scope,
        model.uid_name(base, scope),
        NodeId::spec_dummy(),
        flags,
    );
    assert forall|i: int| 0 <= i < after.scope_stack.len() implies after.scoping.has_scope(
        #[trigger] after.scope_stack[i],
    ) by {
        assert(model.scoping.has_scope(model.scope_stack[i]));
    }
    assert forall|i: int| 0 <= i < after.generated.len() implies after.scoping.has_symbol(
        #[trigger] after.generated[i],
    ) by {
        if i < model.generated.len() {
            assert(model.scoping.has_symbol(model.generated[i]));
        }
    }
}

/// A later binding of the same scope never displaces an earlier one: what
/// a scope declared under a name, it still declares after it has gained
/// a binding.
pub proof fn lemma_declared_stays(
    was: ScopingModel,
    scope: ScopeId,
    added: Seq<char>,
    node: NodeId,
    flags: SymbolFlags,
    name: Seq<char>,
)
    requires
        was.wf(),
        was.has_scope(scope),
        was.declared_in(scope, name) is Some,
    ensures
        was.with_binding(scope, added, node, flags).declared_in(scope, name) == was.declared_in(
            scope,
            name,
        ),
{
    let now = was.with_binding(scope, added, node, flags);
    assert forall|j: int| 0 <= j < was.scope(scope).bindings.len() implies 0 <= (
    #[trigger] was.scope(scope).bindings[j]).0 < was.symbols.len() && was.symbols.len()
        <= now.symbols.len() && now.symbols[was.scope(scope).bindings[j].0 as int].name
        == was.symbols[was.scope(scope).bindings[j].0 as int].name by {
        assert(was.has_symbol(was.scopes[scope.0 as int].bindings[j]));
    }
    lemma_first_named_prefix(
        was.symbols,
        now.symbols,
        was.scope(scope).bindings,
        now.scope(scope).bindings,
        name,
        0,
    );
}

/// Registering a binding in `scope` under a name that was not visible
/// from there hides nothing: a name that resolved before resolves to the
/// same binding after.
pub proof fn lemma_binding_keeps_visible(
    was: ScopingModel,
    scope: ScopeId,
    added: Seq<char>,
    node: NodeId,
    flags: SymbolFlags,
    name: Seq<char>,
)
    requires
        was.wf(),
        was.has_scope(scope),
        was.lookup(scope, added) is None,
        was.lookup(scope, name) is Some,
    ensures
        was.with_binding(scope, added, node, flags).lookup(scope, name) == was.lookup(scope, name),
{
    let now = was.with_binding(scope, added, node, flags);
    match was.declared_in(scope, name) {
        Some(found) => {
            lemma_declared_stays(was, scope, added, node, flags, name);
        },
        None => {
            lemma_first_named_none(was.symbols, was.scope(scope).bindings, name, 0);
            lemma_other_name_still_undeclared(was, now, scope, name, 0);
            let parent = was.scope(scope).parent.unwrap();
            lemma_lookup_untouched(was, now, scope, parent, name);
        },
    }
}

/// Scanning the list of `scope` for another name than the one appended
/// still finds nothing.
proof fn lemma_other_name_still_undeclared(
    was: ScopingModel,
    now: ScopingModel,
    scope: ScopeId,
    name: Seq<char>,
    from: int,
)
    requires
        was.wf(),
        was.has_scope(scope),
        0 <= from <= was.scope(scope).bindings.len(),
        now.symbols.len() == was.symbols.len() + 1,
        forall|s: int| 0 <= s < was.symbols.len() ==> now.symbols[s].name == was.symbols[s].name,
        now.symbols[was.symbols.len() as int].name != name,
        now.scope(scope).bindings == was.scope(scope).bindings.push(
            SymbolId(was.symbols.len() as usize),
        ),
        forall|j: int|
            from <= j < was.scope(scope).bindings.len() ==> was.symbols[(
            #[trigger] was.scope(scope).bindings[j]).0 as int].name != name,
    ensures
        first_named(now.symbols, now.scope(scope).bindings, name, from) is None,
    decreases was.scope(scope).bindings.len() + 1 - from,
{
    let ids = was.scope(scope).bindings;
    if from < ids.len() {
        assert(was.has_symbol(was.scopes[scope.0 as int].bindings[from]));
        assert(now.scope(scope).bindings[from] == ids[from]);
        lemma_other_name_still_undeclared(was, now, scope, name, from + 1);
    } else {
        assert(now.scope(scope).bindings[from] == SymbolId(was.symbols.len() as usize));
        assert(first_named(now.symbols, now.scope(scope).bindings, name, from + 1) is None);
    }
}

/// Resolution from a scope below the one that gained a binding is
/// untouched.
proof fn lemma_lookup_untouched(
    was: ScopingModel,
    now: ScopingModel,
    changed: ScopeId,
    from: ScopeId,
    name: Seq<char>,
)
    requires
        was.wf(),
        was.has_scope(changed),
        was.has_scope(from),
        from.0 < changed.0,
        now.scopes.len() == was.scopes.len(),
        forall|i: int| 0 <= i < was.scopes.len() && i != changed.0 ==> now.scopes[i] == was.scopes[
            i
        ],
        now.symbols.len() >= was.symbols.len(),
        forall|s: int| 0 <= s < was.symbols.len() ==> now.symbols[s].name == was.symbols[s].name,
    ensures
        now.lookup(from, name) == was.lookup(from, name),
    decreases from.0,
{
    lemma_first_named_same(was, now, from, name, 0);
    if was.declared_in(from, name) is None {
        if from.0 != 0 {
            assert(was.scopes[from.0 as int].parent is Some);
            lemma_lookup_untouched(was, now, changed, was.scope(from).parent.unwrap(), name);
        }
    }
}

/// Scanning an unchanged list gives the same answer after the symbol
/// table has grown.
proof fn lemma_first_named_same(
    was: ScopingModel,
    now: ScopingModel,
    scope: ScopeId,
    name: Seq<char>,
    from: int,
)
    requires
        was.wf(),
        was.has_scope(scope),
        0 <= from,
        now.scope(scope).bindings == was.scope(scope).bindings,
        now.symbols.len() >= was.symbols.len(),
        forall|s: int| 0 <= s < was.symbols.len() ==> now.symbols[s].name == was.symbols[s].name,
    ensures
        first_named(now.symbols, now.scope(scope).bindings, name, from) == first_named(
            was.symbols,
            was.scope(scope).bindings,
            name,
            from,
        ),
    decreases was.scope(scope).bindings.len() - from,
{
    if from < was.scope(scope).bindings.len() {
        assert(was.has_symbol(was.scopes[scope.0 as int].bindings[from]));
        lemma_first_named_same(was, now, scope, name, from + 1);
    }
}

/// Hygiene. Two names generated in a row for one base in one scope are
/// different from each other and from the name of every binding that was
/// visible from the scope, and each is registered in the scope as a new
/// binding.
pub proof fn lemma_generated_names_are_fresh(model: TraverseModel, base: Seq<char>, scope: ScopeId)
    requires
        model.wf(),
        model.scoping.has_scope(scope),
        model.scoping.symbols.len() + 2 <= usize::MAX,
    ensures
        ({
            let first = model.uid_name(base, scope);
            let after_first = model.with_uid(base, scope);
            let second = after_first.uid_name(base, scope);
            let after_second = after_first.with_uid(base, scope);
            &&& first != second
            &&& forall|name: Seq<char>|
                model.scoping.lookup(scope, name) is Some ==> first != name && second != name
            &&& after_first.scoping.declared_in(scope, first) == Some(
                SymbolId(model.scoping.symbols.len() as usize),
            )
            &&& after_second.scoping.declared_in(scope, second) == Some(
                SymbolId((model.scoping.symbols.len() + 1) as usize),
            )
            &&& after_second.scoping.declared_in(scope, first) == Some(
                SymbolId(model.scoping.symbols.len() as usize),
            )
            &&& after_second.wf()
        }),
{
    let first = model.uid_name(base, scope);
    let after_first = model.with_uid(base, scope);
    let second = after_first.uid_name(base, scope);
    let after_second = after_first.with_uid(base, scope);
    let flags = SymbolFlags::spec_generated();
    let id = SymbolId(model.scoping.symbols.len() as usize);

    lemma_uid_exists(model, base, scope);
    lemma_with_uid_wf(model, base, scope);
    lemma_uid_exists(after_first, base, scope);
    lemma_with_uid_wf(after_first, base, scope);
    lemma_declared_after_binding(model.scoping, scope, first);
    lemma_declared_after_binding(after_first.scoping, scope, second);

    // The first name is remembered, so the second search passes it by.
    assert(after_first.has_generated(first)) by {
        let last = after_first.generated.len() - 1;
        assert(after_first.generated[last] == id);
        assert(after_first.scoping.binding(after_first.generated[last]).name == first);
    }

    assert forall|name: Seq<char>| model.scoping.lookup(scope, name) is Some implies first != name
        && second != name by {
        lemma_binding_keeps_visible(model.scoping, scope, first, NodeId::spec_dummy(), flags, name);
    }

    lemma_declared_stays(after_first.scoping, scope, second, NodeId::spec_dummy(), flags, first);
}

} // verus!
