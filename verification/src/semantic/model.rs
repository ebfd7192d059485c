//! Mathematical model of the semantic tables.
//!
//! The tables are three sequences indexed by id. They only ever grow: an
//! entry, once made, keeps its id and its data, whatever happens to the
//! syntax node that gave rise to it.

use crate::syntax::{NodeId, ReferenceFlags, ReferenceId, ScopeId, ScopeKind, SymbolFlags, SymbolId};
use vstd::prelude::*;

verus! {

/// Model of one lexical region.
pub struct ScopeModel {
    /// The enclosing region; the program scope has none.
    pub parent: Option<ScopeId>,
    pub kind: ScopeKind,
    /// The construct that opened the region.
    pub node: NodeId,
    /// The bindings that live in this region, in registration order.
    pub bindings: Seq<SymbolId>,
}

/// Model of one binding.
pub struct BindingModel {
    pub name: Seq<char>,
    /// The declaring node.
    pub node: NodeId,
    /// The one region that owns the binding.
    pub scope: ScopeId,
    pub flags: SymbolFlags,
    /// The uses that resolved to this binding, in registration order.
    pub references: Seq<ReferenceId>,
}

/// Model of one identifier use.
pub struct ReferenceModel {
    /// The identifier-use node.
    pub node: NodeId,
    /// The binding the use resolved to; `None` marks a free (global) use.
    pub symbol: Option<SymbolId>,
    pub flags: ReferenceFlags,
}

/// Model of the three tables together.
pub struct ScopingModel {
    pub scopes: Seq<ScopeModel>,
    pub symbols: Seq<BindingModel>,
    pub references: Seq<ReferenceModel>,
}

/// The first id in `ids[from..]` whose binding is called `name`.
pub open spec fn first_named(
    symbols: Seq<BindingModel>,
    ids: Seq<SymbolId>,
    name: Seq<char>,
    from: int,
) -> Option<SymbolId>
    decreases ids.len() - from,
{
    if from < 0 || from >= ids.len() {
        None
    } else if symbols[ids[from].0 as int].name == name {
        Some(ids[from])
    } else {
        first_named(symbols, ids, name, from + 1)
    }
}

impl ScopingModel {
    pub open spec fn has_scope(self, scope: ScopeId) -> bool {
        scope.0 < self.scopes.len()
    }

    pub open spec fn has_symbol(self, symbol: SymbolId) -> bool {
        symbol.0 < self.symbols.len()
    }

    pub open spec fn has_reference(self, reference: ReferenceId) -> bool {
        reference.0 < self.references.len()
    }

    pub open spec fn scope(self, scope: ScopeId) -> ScopeModel {
        self.scopes[scope.0 as int]
    }

    pub open spec fn binding(self, symbol: SymbolId) -> BindingModel {
        self.symbols[symbol.0 as int]
    }

    pub open spec fn reference(self, reference: ReferenceId) -> ReferenceModel {
        self.references[reference.0 as int]
    }

    /// The scope tree is a tree rooted at the program scope, with every
    /// parent created before its children.
    pub open spec fn scopes_wf(self) -> bool {
        &&& self.scopes.len() >= 1
        &&& self.scopes[0].parent is None
        &&& self.scopes[0].kind == ScopeKind::Program
        &&& forall|i: int|
            1 <= i < self.scopes.len() ==> (#[trigger] self.scopes[i]).parent is Some
                && self.scopes[i].parent.unwrap().0 < i
    }

    /// Every binding lives in exactly one scope: the one it names lists it,
    /// and a scope lists only its own bindings.
    pub open spec fn bindings_wf(self) -> bool {
        &&& forall|i: int, j: int|
            0 <= i < self.scopes.len() && 0 <= j < self.scopes[i].bindings.len() ==> {
                let id = #[trigger] self.scopes[i].bindings[j];
                self.has_symbol(id) && self.binding(id).scope == ScopeId(i as usize)
            }
        &&& forall|s: int|
            0 <= s < self.symbols.len() ==> {
                let owner = (#[trigger] self.symbols[s]).scope;
                self.has_scope(owner) && self.scope(owner).bindings.contains(SymbolId(s as usize))
            }
    }

    /// Uses and bindings agree in both directions: a resolved use is in
    /// its binding's list, and a binding lists only uses that resolved to
    /// it.
    pub open spec fn references_wf(self) -> bool {
        &&& forall|r: int|
            0 <= r < self.references.len() ==> match (#[trigger] self.references[r]).symbol {
                Some(s) => self.has_symbol(s) && self.binding(s).references.contains(
                    ReferenceId(r as usize),
                ),
                None => true,
            }
        &&& forall|s: int, j: int|
            0 <= s < self.symbols.len() && 0 <= j < self.symbols[s].references.len() ==> {
                let id = #[trigger] self.symbols[s].references[j];
                self.has_reference(id) && self.reference(id).symbol == Some(SymbolId(s as usize))
            }
    }

    /// The invariant of the tables.
    pub open spec fn wf(self) -> bool {
        &&& self.scopes.len() <= usize::MAX
        &&& self.symbols.len() <= usize::MAX
        &&& self.references.len() <= usize::MAX
        &&& self.scopes_wf()
        &&& self.bindings_wf()
        &&& self.references_wf()
    }

    /// The binding called `name` that `scope` itself declares: the first
    /// one registered there under that name.
    pub open spec fn declared_in(self, scope: ScopeId, name: Seq<char>) -> Option<SymbolId> {
        first_named(self.symbols, self.scope(scope).bindings, name, 0)
    }

    /// What `name` means in `scope`: the binding declared by the nearest
    /// scope, from `scope` outward through the parent links, that declares
    /// the name. `None` when no scope on the way declares it.
    pub open spec fn lookup(self, scope: ScopeId, name: Seq<char>) -> Option<SymbolId>
        decreases scope.0,
    {
        match self.declared_in(scope, name) {
            Some(symbol) => Some(symbol),
            None => match self.scope(scope).parent {
                Some(parent) => if parent.0 < scope.0 {
                    self.lookup(parent, name)
                } else {
                    None
                },
                None => None,
            },
        }
    }

    /// `outer` is `inner` or one of its ancestors.
    pub open spec fn encloses(self, outer: ScopeId, inner: ScopeId) -> bool
        decreases inner.0,
    {
        outer == inner || match self.scope(inner).parent {
            Some(parent) => parent.0 < inner.0 && self.encloses(outer, parent),
            None => false,
        }
    }

    /// `outer` is `inner` or one of its ancestors, and no scope from
    /// `inner` up to, but not including, `outer` declares `name`.
    pub open spec fn reaches_unshadowed(
        self,
        inner: ScopeId,
        outer: ScopeId,
        name: Seq<char>,
    ) -> bool
        decreases inner.0,
    {
        outer == inner || (self.declared_in(inner, name) is None && match self.scope(inner).parent {
            Some(parent) => parent.0 < inner.0 && self.reaches_unshadowed(parent, outer, name),
            None => false,
        })
    }

    /// Where a function-scoped declaration made in `scope` registers: the
    /// nearest function or program scope from `scope` outward.
    pub open spec fn hoist_target(self, scope: ScopeId) -> ScopeId
        decreases scope.0,
    {
        if self.scope(scope).kind.spec_is_hoist_target() {
            scope
        } else {
            match self.scope(scope).parent {
                Some(parent) => if parent.0 < scope.0 {
                    self.hoist_target(parent)
                } else {
                    scope
                },
                None => scope,
            }
        }
    }

    /// The tables after a new scope opens under `parent`.
    pub open spec fn with_scope(
        self,
        parent: ScopeId,
        kind: ScopeKind,
        node: NodeId,
    ) -> ScopingModel {
        ScopingModel {
            scopes: self.scopes.push(
                ScopeModel { parent: Some(parent), kind, node, bindings: Seq::empty() },
            ),
            ..self
        }
    }

    /// The tables after a binding is registered in `scope`.
    pub open spec fn with_binding(
        self,
        scope: ScopeId,
        name: Seq<char>,
        node: NodeId,
        flags: SymbolFlags,
    ) -> ScopingModel {
        let id = SymbolId(self.symbols.len() as usize);
        ScopingModel {
            scopes: self.scopes.update(
                scope.0 as int,
                ScopeModel { bindings: self.scope(scope).bindings.push(id), ..self.scope(scope) },
            ),
            symbols: self.symbols.push(
                BindingModel { name, node, scope, flags, references: Seq::empty() },
            ),
            references: self.references,
        }
    }

    /// The tables after a use is registered. A resolved use also joins
    /// its binding's list.
    pub open spec fn with_reference(
        self,
        node: NodeId,
        symbol: Option<SymbolId>,
        flags: ReferenceFlags,
    ) -> ScopingModel {
        let id = ReferenceId(self.references.len() as usize);
        ScopingModel {
            scopes: self.scopes,
            symbols: match symbol {
                Some(s) => self.symbols.update(
                    s.0 as int,
                    BindingModel {
                        references: self.binding(s).references.push(id),
                        ..self.binding(s)
                    },
                ),
                None => self.symbols,
            },
            references: self.references.push(ReferenceModel { node, symbol, flags }),
        }
    }

    /// `self` grew out of `earlier` by appending only: every entry of
    /// `earlier` is still there under its id with its data, and the lists
    /// of `earlier` are prefixes of today's.
    pub open spec fn extends(self, earlier: ScopingModel) -> bool {
        &&& earlier.scopes.len() <= self.scopes.len()
        &&& earlier.symbols.len() <= self.symbols.len()
        &&& earlier.references.len() <= self.references.len()
        &&& forall|i: int|
            0 <= i < earlier.scopes.len() ==> {
                let was = #[trigger] earlier.scopes[i];
                let now = self.scopes[i];
                &&& now.parent == was.parent
                &&& now.kind == was.kind
                &&& now.node == was.node
                &&& was.bindings.is_prefix_of(now.bindings)
            }
        &&& forall|s: int|
            0 <= s < earlier.symbols.len() ==> {
                let was = #[trigger] earlier.symbols[s];
                let now = self.symbols[s];
                &&& now.name == was.name
                &&& now.node == was.node
                &&& now.scope == was.scope
                &&& now.flags == was.flags
                &&& was.references.is_prefix_of(now.references)
            }
        &&& forall|r: int|
            0 <= r < earlier.references.len() ==> self.references[r]
                == #[trigger] earlier.references[r]
    }
}

} // verus!
