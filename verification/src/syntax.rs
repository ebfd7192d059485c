//! Identities and flag sets shared by the syntax tree and the semantic tables.

use vstd::prelude::*;

verus! {

/// Identity of one lexical region. Ids are assigned in creation order and
/// never reused.
#[derive(Clone, Copy, Debug, PartialEq, Eq, Structural, Hash)]
pub struct ScopeId(pub usize);

/// Identity of one binding. Ids are assigned in creation order and never
/// reused.
#[derive(Clone, Copy, Debug, PartialEq, Eq, Structural, Hash)]
pub struct SymbolId(pub usize);

/// Identity of one identifier use.
#[derive(Clone, Copy, Debug, PartialEq, Eq, Structural, Hash)]
pub struct ReferenceId(pub usize);

/// Identity of one syntax node in the node table.
#[derive(Clone, Copy, Debug, PartialEq, Eq, Structural, Hash)]
pub struct NodeId(pub usize);

impl ScopeId {
    /// Position of the scope in the scope table.
    pub fn index(&self) -> (i: usize)
        ensures
            i == self.0,
    {
        self.0
    }
}

impl SymbolId {
    /// Position of the binding in the symbol table.
    pub fn index(&self) -> (i: usize)
        ensures
            i == self.0,
    {
        self.0
    }
}

impl ReferenceId {
    /// Position of the use in the reference table.
    pub fn index(&self) -> (i: usize)
        ensures
            i == self.0,
    {
        self.0
    }
}

impl NodeId {
    /// The identity that stands for nodes which are in no node table:
    /// those that a pass has synthesized.
    pub open spec fn spec_dummy() -> NodeId {
        NodeId(usize::MAX)
    }

    /// The identity that stands for nodes which are in no node table:
    /// those that a pass has synthesized.
    pub fn dummy() -> (id: NodeId)
        ensures
            id == NodeId::spec_dummy(),
    {
        NodeId(usize::MAX)
    }

    /// Position of the node in the node table.
    pub fn index(&self) -> (i: usize)
        ensures
            i == self.0,
    {
        self.0
    }
}

/// How an identifier use touches its binding.
#[derive(Clone, Copy, Debug, PartialEq, Eq, Structural, Hash)]
pub enum ReferenceFlags {
    /// The value is used.
    Read,
    /// The use is the sole target of a simple assignment.
    Write,
    /// The use both reads and overwrites: compound assignment, increment,
    /// decrement.
    ReadWrite,
}

impl ReferenceFlags {
    pub open spec fn spec_is_read(self) -> bool {
        self != ReferenceFlags::Write
    }

    pub open spec fn spec_is_write(self) -> bool {
        self != ReferenceFlags::Read
    }

    /// Whether the use observes the binding's value.
    pub fn is_read(&self) -> (b: bool)
        ensures
            b == self.spec_is_read(),
    {
        match self {
            ReferenceFlags::Write => false,
            _ => true,
        }
    }

    /// Whether the use overwrites the binding's value.
    pub fn is_write(&self) -> (b: bool)
        ensures
            b == self.spec_is_write(),
    {
        match self {
            ReferenceFlags::Read => false,
            _ => true,
        }
    }

    /// Whether the use only overwrites, and so does not by itself make the
    /// binding observed.
    pub fn is_write_only(&self) -> (b: bool)
        ensures
            b == (*self == ReferenceFlags::Write),
    {
        match self {
            ReferenceFlags::Write => true,
            _ => false,
        }
    }
}

/// What kind of declaration introduced a binding.
#[derive(Clone, Copy, Debug, PartialEq, Eq, Structural, Hash)]
pub enum SymbolKind {
    Variable,
    Function,
    Class,
    Type,
    Import,
    Parameter,
    CatchParameter,
    /// Introduced by a pass through fresh-name generation.
    Generated,
}

/// Flag set of a binding.
#[derive(Clone, Copy, Debug, PartialEq, Eq, Structural, Hash)]
pub struct SymbolFlags {
    pub kind: SymbolKind,
    /// Whether the binding may be assigned after its declaration.
    pub mutable: bool,
    pub exported: bool,
    /// Whether the binding belongs to a whole function or program rather
    /// than to a block: a `var`, a parameter.
    pub function_scoped: bool,
}

impl SymbolFlags {
    /// Flags of an unexported, assignable, block-scoped binding of the
    /// given kind.
    pub open spec fn spec_of_kind(kind: SymbolKind) -> SymbolFlags {
        SymbolFlags { kind, mutable: true, exported: false, function_scoped: false }
    }

    /// Flags of a binding that fresh-name generation registers.
    pub open spec fn spec_generated() -> SymbolFlags {
        SymbolFlags::spec_of_kind(SymbolKind::Generated)
    }

    /// Flags of an unexported, assignable, block-scoped binding of the
    /// given kind.
    pub fn of_kind(kind: SymbolKind) -> (flags: SymbolFlags)
        ensures
            flags == SymbolFlags::spec_of_kind(kind),
    {
        SymbolFlags { kind, mutable: true, exported: false, function_scoped: false }
    }

    /// Flags of a binding that fresh-name generation registers.
    pub fn generated() -> (flags: SymbolFlags)
        ensures
            flags == SymbolFlags::spec_generated(),
    {
        SymbolFlags {
            kind: SymbolKind::Generated,
            mutable: true,
            exported: false,
            function_scoped: false,
        }
    }
}

/// What kind of construct opened a lexical region.
#[derive(Clone, Copy, Debug, PartialEq, Eq, Structural, Hash)]
pub enum ScopeKind {
    /// The module or program root.
    Program,
    Function,
    Block,
    Catch,
    Loop,
    Class,
}

impl ScopeKind {
    pub open spec fn spec_is_hoist_target(self) -> bool {
        self == ScopeKind::Program || self == ScopeKind::Function
    }

    /// Whether function-scoped declarations register in a scope of this
    /// kind rather than travel further outward.
    pub fn is_hoist_target(&self) -> (b: bool)
        ensures
            b == self.spec_is_hoist_target(),
    {
        match self {
            ScopeKind::Program => true,
            ScopeKind::Function => true,
            _ => false,
        }
    }
}

} // verus!
