//! The node table: the nodes of a tree that analysis has registered, by
//! id.

use crate::ast::kind::AstKind;
use crate::syntax::{NodeId, ScopeId};
use vstd::prelude::*;

verus! {

/// A registered node: a handle to it, and the scope it stands in.
#[derive(Debug, Clone, Copy)]
pub struct AstNode<'a> {
    pub id: NodeId,
    pub kind: AstKind<'a>,
    pub scope_id: ScopeId,
}

impl<'a> AstNode<'a> {
    /// The handle to the node.
    pub fn kind(&self) -> (kind: AstKind<'a>)
        ensures
            kind == self.kind,
    {
        self.kind
    }

    /// The scope that the node stands in.
    pub fn scope_id(&self) -> (scope: ScopeId)
        ensures
            scope == self.scope_id,
    {
        self.scope_id
    }

    /// The id of the node.
    pub fn id(&self) -> (id: NodeId)
        ensures
            id == self.id,
    {
        self.id
    }
}

/// The registered nodes of one tree, in registration order. A node's id
/// is its position.
#[derive(Debug)]
pub struct AstNodes<'a> {
    nodes: Vec<AstNode<'a>>,
}

impl<'a> View for AstNodes<'a> {
    type V = Seq<AstNode<'a>>;

    closed spec fn view(&self) -> Seq<AstNode<'a>> {
        self.nodes@
    }
}

impl<'a> AstNodes<'a> {
    /// Every node sits at the position that its id names.
    pub open spec fn wf(&self) -> bool {
        forall|i: int| 0 <= i < self@.len() ==> (#[trigger] self@[i]).id == NodeId(i as usize)
    }

    /// The empty table.
    pub fn new() -> (nodes: AstNodes<'a>)
        ensures
            nodes@ == Seq::<AstNode<'a>>::empty(),
            nodes.wf(),
    {
        AstNodes { nodes: Vec::new() }
    }

    /// Number of registered nodes.
    pub fn len(&self) -> (n: usize)
        ensures
            n == self@.len(),
    {
        self.nodes.len()
    }

    /// Whether `id` names a registered node.
    pub fn contains(&self, id: NodeId) -> (b: bool)
        ensures
            b == (id.0 < self@.len()),
    {
        id.0 < self.nodes.len()
    }

    /// Registers a node standing in `scope_id` and returns its id.
    pub fn add_node(&mut self, kind: AstKind<'a>, scope_id: ScopeId) -> (id: NodeId)
        requires
            old(self).wf(),
        ensures
            final(self).wf(),
            id == NodeId(old(self)@.len() as usize),
            final(self)@ == old(self)@.push(AstNode { id, kind, scope_id }),
    {
        let id = NodeId(self.nodes.len());
        self.nodes.push(AstNode { id, kind, scope_id });
        proof {
            assert(self.nodes@.len() == self.nodes.len());
        }
        id
    }

    /// The registered node that `id` names.
    pub fn get_node(&self, id: NodeId) -> (node: &AstNode<'a>)
        requires
            id.0 < self@.len(),
        ensures
            *node == self@[id.0 as int],
    {
        &self.nodes[id.0]
    }

    /// The handle to the registered node that `id` names.
    pub fn kind(&self, id: NodeId) -> (kind: AstKind<'a>)
        requires
            id.0 < self@.len(),
        ensures
            kind == self@[id.0 as int].kind,
    {
        self.nodes[id.0].kind
    }
}

} // verus!
