//! The executable tables: scope tree, symbol table and reference table of
//! one compilation unit, kept consistent with one another.

use crate::semantic::laws::{
    lemma_with_binding_extends, lemma_with_reference_extends, lemma_with_scope_extends,
};
use crate::semantic::model::{BindingModel, ReferenceModel, ScopeModel, ScopingModel, first_named};
use crate::syntax::{NodeId, ReferenceFlags, ReferenceId, ScopeId, ScopeKind, SymbolFlags, SymbolId};
use vstd::prelude::*;

verus! {

/// One lexical region.
pub struct Scope {
    pub parent: Option<ScopeId>,
    pub kind: ScopeKind,
    pub node: NodeId,
    pub bindings: Vec<SymbolId>,
}

/// One named declaration and its metadata.
pub struct Binding {
    pub name: String,
    pub node: NodeId,
    pub scope: ScopeId,
    pub flags: SymbolFlags,
    pub references: Vec<ReferenceId>,
}

/// One identifier use.
#[derive(Clone, Copy, Debug, PartialEq, Eq, Structural)]
pub struct Reference {
    pub node: NodeId,
    pub symbol: Option<SymbolId>,
    pub flags: ReferenceFlags,
}

impl View for Scope {
    type V = ScopeModel;

    open spec fn view(&self) -> ScopeModel {
        ScopeModel {
            parent: self.parent,
            kind: self.kind,
            node: self.node,
            bindings: self.bindings@,
        }
    }
}

impl View for Binding {
    type V = BindingModel;

    open spec fn view(&self) -> BindingModel {
        BindingModel {
            name: self.name@,
            node: self.node,
            scope: self.scope,
            flags: self.flags,
            references: self.references@,
        }
    }
}

impl View for Reference {
    type V = ReferenceModel;

    open spec fn view(&self) -> ReferenceModel {
        ReferenceModel { node: self.node, symbol: self.symbol, flags: self.flags }
    }
}

impl Reference {
    /// The binding this use resolved to, if any.
    pub fn symbol_id(&self) -> (symbol: Option<SymbolId>)
        ensures
            symbol == self.symbol,
    {
        self.symbol
    }

    /// Whether the use is free: it resolved to no binding.
    pub fn is_unresolved(&self) -> (b: bool)
        ensures
            b == (self.symbol is None),
    {
        self.symbol.is_none()
    }
}

/// Scope tree, symbol table and reference table of one compilation unit.
pub struct Scoping {
    scopes: Vec<Scope>,
    symbols: Vec<Binding>,
    references: Vec<Reference>,
}

impl View for Scoping {
    type V = ScopingModel;

    closed spec fn view(&self) -> ScopingModel {
        ScopingModel {
            scopes: Seq::new(self.scopes@.len(), |i: int| self.scopes@[i]@),
            symbols: Seq::new(self.symbols@.len(), |i: int| self.symbols@[i]@),
            references: Seq::new(self.references@.len(), |i: int| self.references@[i]@),
        }
    }
}

impl Scoping {
    /// The invariant of the tables.
    pub open spec fn wf(&self) -> bool {
        self@.wf()
    }

    /// Fresh tables holding only the program scope, opened by `node`.
    pub fn new(node: NodeId) -> (scoping: Scoping)
        ensures
            scoping.wf(),
            scoping@.scopes == seq![
                ScopeModel {
                    parent: None,
                    kind: ScopeKind::Program,
                    node,
                    bindings: Seq::empty(),
                },
            ],
            scoping@.symbols == Seq::<BindingModel>::empty(),
            scoping@.references == Seq::<ReferenceModel>::empty(),
    {
        let mut scopes: Vec<Scope> = Vec::new();
        scopes.push(Scope { parent: None, kind: ScopeKind::Program, node, bindings: Vec::new() });
        let scoping = Scoping { scopes, symbols: Vec::new(), references: Vec::new() };
        proof {
            assert(scoping@.scopes =~= seq![
                ScopeModel {
                    parent: None,
                    kind: ScopeKind::Program,
                    node,
                    bindings: Seq::empty(),
                },
            ]);
            assert(scoping@.symbols =~= Seq::<BindingModel>::empty());
            assert(scoping@.references =~= Seq::<ReferenceModel>::empty());
        }
        scoping
    }

    /// The program scope.
    pub fn root_scope_id(&self) -> (root: ScopeId)
        ensures
            root == ScopeId(0),
    {
        ScopeId(0)
    }

    /// Number of scopes ever opened.
    pub fn scopes_len(&self) -> (n: usize)
        ensures
            n == self@.scopes.len(),
    {
        self.scopes.len()
    }

    /// Number of bindings ever registered.
    pub fn symbols_len(&self) -> (n: usize)
        ensures
            n == self@.symbols.len(),
    {
        self.symbols.len()
    }

    /// Number of uses ever registered.
    pub fn references_len(&self) -> (n: usize)
        ensures
            n == self@.references.len(),
    {
        self.references.len()
    }

    /// Whether `scope` names an entry of the scope tree.
    pub fn contains_scope(&self, scope: ScopeId) -> (b: bool)
        ensures
            b == self@.has_scope(scope),
    {
        scope.0 < self.scopes.len()
    }

    /// Whether `symbol` names an entry of the symbol table.
    pub fn contains_symbol(&self, symbol: SymbolId) -> (b: bool)
        ensures
            b == self@.has_symbol(symbol),
    {
        symbol.0 < self.symbols.len()
    }

    /// Whether `reference` names an entry of the reference table.
    pub fn contains_reference(&self, reference: ReferenceId) -> (b: bool)
        ensures
            b == self@.has_reference(reference),
    {
        reference.0 < self.references.len()
    }

    /// The scope that encloses `scope`; the program scope has none.
    pub fn parent_scope(&self, scope: ScopeId) -> (parent: Option<ScopeId>)
        requires
            self@.has_scope(scope),
        ensures
            parent == self@.scope(scope).parent,
    {
        self.scopes[scope.0].parent
    }

    /// What kind of construct opened `scope`.
    pub fn scope_kind(&self, scope: ScopeId) -> (kind: ScopeKind)
        requires
            self@.has_scope(scope),
        ensures
            kind == self@.scope(scope).kind,
    {
        self.scopes[scope.0].kind
    }

    /// The entry of `scope`.
    pub fn get_scope(&self, scope: ScopeId) -> (entry: &Scope)
        requires
            self@.has_scope(scope),
        ensures
            entry@ == self@.scope(scope),
    {
        &self.scopes[scope.0]
    }

    /// The entry of `symbol`.
    pub fn get_binding(&self, symbol: SymbolId) -> (binding: &Binding)
        requires
            self@.has_symbol(symbol),
        ensures
            binding@ == self@.binding(symbol),
    {
        &self.symbols[symbol.0]
    }

    /// The name of `symbol`.
    pub fn symbol_name(&self, symbol: SymbolId) -> (name: &str)
        requires
            self@.has_symbol(symbol),
        ensures
            name@ == self@.binding(symbol).name,
    {
        self.symbols[symbol.0].name.as_str()
    }

    /// The scope that owns `symbol`.
    pub fn scope_of(&self, symbol: SymbolId) -> (scope: ScopeId)
        requires
            self@.has_symbol(symbol),
        ensures
            scope == self@.binding(symbol).scope,
    {
        self.symbols[symbol.0].scope
    }

    /// The node that declared `symbol`.
    pub fn get_declaration(&self, symbol: SymbolId) -> (node: NodeId)
        requires
            self@.has_symbol(symbol),
        ensures
            node == self@.binding(symbol).node,
    {
        self.symbols[symbol.0].node
    }

    /// The flags of `symbol`.
    pub fn symbol_flags(&self, symbol: SymbolId) -> (flags: SymbolFlags)
        requires
            self@.has_symbol(symbol),
        ensures
            flags == self@.binding(symbol).flags,
    {
        self.symbols[symbol.0].flags
    }

    /// The uses that resolved to `symbol`, in registration order.
    pub fn references_of(&self, symbol: SymbolId) -> (uses: &Vec<ReferenceId>)
        requires
            self@.has_symbol(symbol),
        ensures
            uses@ == self@.binding(symbol).references,
    {
        &self.symbols[symbol.0].references
    }

    /// The entry of `reference`.
    pub fn get_reference(&self, reference: ReferenceId) -> (entry: Reference)
        requires
            self@.has_reference(reference),
        ensures
            entry@ == self@.reference(reference),
    {
        self.references[reference.0]
    }

    /// The binding called `name` that `scope` itself declares, if any.
    pub fn get_binding_in_scope(&self, scope: ScopeId, name: &str) -> (found: Option<SymbolId>)
        requires
            self.wf(),
            self@.has_scope(scope),
        ensures
            found == self@.declared_in(scope, name@),
            found is Some ==> self@.has_symbol(found.unwrap()),
    {
        let ids = &self.scopes[scope.0].bindings;
        let ghost model = self@;
        let mut j: usize = 0;
        while j < ids.len()
            invariant
                self.wf(),
                model == self@,
                model.has_scope(scope),
                ids@ == model.scope(scope).bindings,
                j <= ids.len(),
                model.declared_in(scope, name@) == first_named(
                    model.symbols,
                    ids@,
                    name@,
                    j as int,
                ),
            decreases ids.len() - j,
        {
            let id = ids[j];
            assert(model.has_symbol(id)) by {
                assert(model.scopes[scope.0 as int].bindings[j as int] == id);
            }
            if self.symbols[id.0].name.as_str().eq(name) {
                return Some(id);
            }
            j += 1;
        }
        None
    }

    /// Resolves `name` as seen from `scope`: walks outward through the
    /// parent links and returns the binding of the nearest scope that
    /// declares the name, or `None` when no scope on the way does.
    pub fn find_binding(&self, scope: ScopeId, name: &str) -> (found: Option<SymbolId>)
        requires
            self.wf(),
            self@.has_scope(scope),
        ensures
            found == self@.lookup(scope, name@),
            found is Some ==> self@.has_symbol(found.unwrap()),
    {
        let mut current = scope;
        loop
            invariant
                self.wf(),
                self@.has_scope(current),
                self@.lookup(scope, name@) == self@.lookup(current, name@),
            decreases current.0,
        {
            match self.get_binding_in_scope(current, name) {
                Some(symbol) => {
                    return Some(symbol);
                },
                None => {},
            }
            match self.scopes[current.0].parent {
                Some(parent) => {
                    assert(parent.0 < current.0) by {
                        assert(self@.scopes[current.0 as int].parent is Some);
                    }
                    current = parent;
                },
                None => {
                    return None;
                },
            }
        }
    }

    /// The binding called `name` that the program scope declares, if any.
    pub fn get_root_binding(&self, name: &str) -> (found: Option<SymbolId>)
        requires
            self.wf(),
        ensures
            found == self@.declared_in(ScopeId(0), name@),
            found is Some ==> self@.has_symbol(found.unwrap()),
    {
        self.get_binding_in_scope(ScopeId(0), name)
    }

    /// Where a function-scoped declaration made in `scope` registers: the
    /// nearest function or program scope from `scope` outward.
    pub fn hoist_target(&self, scope: ScopeId) -> (target: ScopeId)
        requires
            self.wf(),
            self@.has_scope(scope),
        ensures
            target == self@.hoist_target(scope),
            self@.has_scope(target),
            self@.scope(target).kind.spec_is_hoist_target(),
    {
        let mut current = scope;
        loop
            invariant
                self.wf(),
                self@.has_scope(current),
                self@.hoist_target(scope) == self@.hoist_target(current),
            decreases current.0,
        {
            if self.scopes[current.0].kind.is_hoist_target() {
                return current;
            }
            match self.scopes[current.0].parent {
                Some(parent) => {
                    assert(parent.0 < current.0) by {
                        assert(self@.scopes[current.0 as int].parent is Some);
                    }
                    current = parent;
                },
                None => {
                    assert(current.0 == 0) by {
                        if current.0 != 0 {
                            assert(self@.scopes[current.0 as int].parent is Some);
                        }
                    }
                    return current;
                },
            }
        }
    }

    /// Opens a new scope under `parent`.
    pub fn add_scope(&mut self, parent: ScopeId, kind: ScopeKind, node: NodeId) -> (scope: ScopeId)
        requires
            old(self).wf(),
            old(self)@.has_scope(parent),
        ensures
            final(self).wf(),
            scope == ScopeId(old(self)@.scopes.len() as usize),
            final(self)@ == old(self)@.with_scope(parent, kind, node),
            final(self)@.extends(old(self)@),
    {
        let scope = ScopeId(self.scopes.len());
        self.scopes.push(Scope { parent: Some(parent), kind, node, bindings: Vec::new() });
        proof {
            let was = old(self)@;
            let now = self@;
            assert(self.scopes@.len() == self.scopes.len());
            lemma_with_scope_extends(was, parent, kind, node);
            assert(now.scopes =~= was.with_scope(parent, kind, node).scopes);
            assert(now.symbols =~= was.symbols);
            assert(now.references =~= was.references);
            assert(now.bindings_wf()) by {
                assert forall|s: int| 0 <= s < now.symbols.len() implies {
                    let owner = (#[trigger] now.symbols[s]).scope;
                    now.has_scope(owner) && now.scope(owner).bindings.contains(
                        SymbolId(s as usize),
                    )
                } by {
                    let owner = was.symbols[s].scope;
                    assert(now.scope(owner) == was.scope(owner));
                }
            }
        }
        scope
    }

    /// Registers a binding called `name` in exactly `scope`.
    pub fn declare(
        &mut self,
        scope: ScopeId,
        name: &str,
        node: NodeId,
        flags: SymbolFlags,
    ) -> (symbol: SymbolId)
        requires
            old(self).wf(),
            old(self)@.has_scope(scope),
        ensures
            final(self).wf(),
            symbol == SymbolId(old(self)@.symbols.len() as usize),
            final(self)@ == old(self)@.with_binding(scope, name@, node, flags),
            final(self)@.extends(old(self)@),
    {
        let symbol = SymbolId(self.symbols.len());
        self.symbols.push(
            Binding { name: name.to_owned(), node, scope, flags, references: Vec::new() },
        );
        self.scopes[scope.0].bindings.push(symbol);
        proof {
            let was = old(self)@;
            let now = self@;
            let goal = was.with_binding(scope, name@, node, flags);
            assert(self.symbols@.len() == self.symbols.len());
            assert(now.scopes =~= goal.scopes);
            assert(now.symbols =~= goal.symbols);
            assert(now.references =~= goal.references);
            lemma_with_binding_wf(was, scope, name@, node, flags);
            lemma_with_binding_extends(was, scope, name@, node, flags);
        }
        symbol
    }

    /// Registers a function-scoped binding made in `scope`: it lands in
    /// the nearest function or program scope, whatever blocks lie between.
    pub fn declare_hoisted(
        &mut self,
        scope: ScopeId,
        name: &str,
        node: NodeId,
        flags: SymbolFlags,
    ) -> (symbol: SymbolId)
        requires
            old(self).wf(),
            old(self)@.has_scope(scope),
        ensures
            final(self).wf(),
            symbol == SymbolId(old(self)@.symbols.len() as usize),
            final(self)@ == old(self)@.with_binding(
                old(self)@.hoist_target(scope),
                name@,
                node,
                flags,
            ),
            final(self)@.extends(old(self)@),
    {
        let target = self.hoist_target(scope);
        self.declare(target, name, node, flags)
    }

    /// Registers a use of `name` made by `node` in `scope`, resolved by
    /// [`Scoping::find_binding`] from that scope.
    pub fn resolve_reference(
        &mut self,
        scope: ScopeId,
        name: &str,
        node: NodeId,
        flags: ReferenceFlags,
    ) -> (reference: ReferenceId)
        requires
            old(self).wf(),
            old(self)@.has_scope(scope),
        ensures
            final(self).wf(),
            reference == ReferenceId(old(self)@.references.len() as usize),
            final(self)@ == old(self)@.with_reference(
                node,
                old(self)@.lookup(scope, name@),
                flags,
            ),
            final(self)@.extends(old(self)@),
    {
        let symbol = self.find_binding(scope, name);
        self.create_reference(node, symbol, flags)
    }

    /// Registers a use of `symbol` (or a free use, for `None`) made by
    /// `node`. A resolved use also joins its binding's list.
    pub fn create_reference(
        &mut self,
        node: NodeId,
        symbol: Option<SymbolId>,
        flags: ReferenceFlags,
    ) -> (reference: ReferenceId)
        requires
            old(self).wf(),
            symbol is Some ==> old(self)@.has_symbol(symbol.unwrap()),
        ensures
            final(self).wf(),
            reference == ReferenceId(old(self)@.references.len() as usize),
            final(self)@ == old(self)@.with_reference(node, symbol, flags),
            final(self)@.extends(old(self)@),
    {
        let reference = ReferenceId(self.references.len());
        self.references.push(Reference { node, symbol, flags });
        match symbol {
            Some(s) => {
                self.symbols[s.0].references.push(reference);
            },
            None => {},
        }
        proof {
            let was = old(self)@;
            let now = self@;
            let goal = was.with_reference(node, symbol, flags);
            assert(self.references@.len() == self.references.len());
            assert(now.scopes =~= goal.scopes);
            assert(now.symbols =~= goal.symbols);
            assert(now.references =~= goal.references);
            lemma_with_reference_wf(was, node, symbol, flags);
            lemma_with_reference_extends(was, node, symbol, flags);
        }
        reference
    }
}

/// Registering a binding keeps the tables consistent.
pub proof fn lemma_with_binding_wf(
    was: ScopingModel,
    scope: ScopeId,
    name: Seq<char>,
    node: NodeId,
    flags: SymbolFlags,
)
    requires
        was.wf(),
        was.has_scope(scope),
        was.symbols.len() < usize::MAX,
    ensures
        was.with_binding(scope, name, node, flags).wf(),
{
    let now = was.with_binding(scope, name, node, flags);
    let id = SymbolId(was.symbols.len() as usize);
    assert(now.bindings_wf()) by {
        assert forall|i: int, j: int|
            0 <= i < now.scopes.len() && 0 <= j < now.scopes[i].bindings.len() implies {
            let b = #[trigger] now.scopes[i].bindings[j];
            now.has_symbol(b) && now.binding(b).scope == ScopeId(i as usize)
        } by {
            if i == scope.0 && j == was.scopes[i].bindings.len() {
            } else {
                assert(now.scopes[i].bindings[j] == was.scopes[i].bindings[j]);
            }
        }
        assert forall|s: int| 0 <= s < now.symbols.len() implies {
            let owner = (#[trigger] now.symbols[s]).scope;
            now.has_scope(owner) && now.scope(owner).bindings.contains(SymbolId(s as usize))
        } by {
            if s == was.symbols.len() {
                assert(now.scope(scope).bindings[was.scope(scope).bindings.len() as int] == id);
            } else {
                let owner = was.symbols[s].scope;
                let k = choose|k: int|
                    0 <= k < was.scope(owner).bindings.len() && was.scope(owner).bindings[k]
                        == SymbolId(s as usize);
                assert(now.scope(owner).bindings[k] == SymbolId(s as usize));
            }
        }
    }
    assert(now.references_wf()) by {
        assert forall|s: int, j: int|
            0 <= s < now.symbols.len() && 0 <= j < now.symbols[s].references.len() implies {
            let r = #[trigger] now.symbols[s].references[j];
            now.has_reference(r) && now.reference(r).symbol == Some(SymbolId(s as usize))
        } by {
            assert(now.symbols[s].references[j] == was.symbols[s].references[j]);
        }
    }
}

/// Registering a use keeps the tables consistent.
pub proof fn lemma_with_reference_wf(
    was: ScopingModel,
    node: NodeId,
    symbol: Option<SymbolId>,
    flags: ReferenceFlags,
)
    requires
        was.wf(),
        symbol is Some ==> was.has_symbol(symbol.unwrap()),
        was.references.len() < usize::MAX,
    ensures
        was.with_reference(node, symbol, flags).wf(),
{
    let now = was.with_reference(node, symbol, flags);
    let id = ReferenceId(was.references.len() as usize);
    assert(now.bindings_wf()) by {
        assert forall|s: int| 0 <= s < now.symbols.len() implies {
            let owner = (#[trigger] now.symbols[s]).scope;
            now.has_scope(owner) && now.scope(owner).bindings.contains(SymbolId(s as usize))
        } by {
            assert(now.symbols[s].scope == was.symbols[s].scope);
        }
    }
    assert(now.references_wf()) by {
        assert forall|r: int| 0 <= r < now.references.len() implies match (
        #[trigger] now.references[r]).symbol {
            Some(s) => now.has_symbol(s) && now.binding(s).references.contains(
                ReferenceId(r as usize),
            ),
            None => true,
        } by {
            if r == was.references.len() {
                if let Some(s) = symbol {
                    assert(now.binding(s).references[was.binding(s).references.len() as int]
                        == id);
                }
            } else {
                if let Some(s) = was.references[r].symbol {
                    let k = choose|k: int|
                        0 <= k < was.binding(s).references.len() && was.binding(s).references[k]
                            == ReferenceId(r as usize);
                    assert(now.binding(s).references[k] == ReferenceId(r as usize));
                }
            }
        }
        assert forall|s: int, j: int|
            0 <= s < now.symbols.len() && 0 <= j < now.symbols[s].references.len() implies {
            let r = #[trigger] now.symbols[s].references[j];
            now.has_reference(r) && now.reference(r).symbol == Some(SymbolId(s as usize))
        } by {
            if symbol == Some(SymbolId(s as usize)) && j == was.symbols[s].references.len() {
            } else {
                assert(now.symbols[s].references[j] == was.symbols[s].references[j]);
            }
        }
    }
}

} // verus!
