//! The imports that transforms ask for, to be put at the top of the
//! program.

use crate::syntax::SymbolId;
use vstd::prelude::*;

verus! {

/// One imported name.
#[derive(Debug, PartialEq)]
pub struct NamedImport {
    /// The name as the module exports it.
    pub imported: String,
    /// The name it goes by in the importing file, where that differs.
    pub local: Option<String>,
    /// The binding of the name in the importing file.
    pub symbol_id: SymbolId,
}

impl NamedImport {
    /// The import of `imported`, going by `local` in the importing file,
    /// bound to `symbol_id` there.
    pub fn new(
        imported: String,
        local: Option<String>,
        symbol_id: SymbolId,
    ) -> (import: NamedImport)
        ensures
            import.imported == imported,
            import.local == local,
            import.symbol_id == symbol_id,
    {
        NamedImport { imported, local, symbol_id }
    }
}

/// One import, with the module it comes from.
#[derive(Debug, PartialEq)]
pub struct ImportEntry {
    /// The module specifier.
    pub source: String,
    pub import: NamedImport,
}

/// The imports asked for so far, in the order in which they will stand
/// in the program.
#[derive(Debug)]
pub struct ModuleImports {
    imports: Vec<ImportEntry>,
}

impl View for ModuleImports {
    type V = Seq<ImportEntry>;

    closed spec fn view(&self) -> Seq<ImportEntry> {
        self.imports@
    }
}

impl ModuleImports {
    /// No imports.
    pub fn new() -> (imports: ModuleImports)
        ensures
            imports@ == Seq::<ImportEntry>::empty(),
    {
        ModuleImports { imports: Vec::new() }
    }

    /// Asks for an import of `import` from `source`, to stand before all
    /// others if `front` is set, after them otherwise.
    pub fn add_import(&mut self, source: String, import: NamedImport, front: bool)
        ensures
            final(self)@ == if front {
                seq![ImportEntry { source, import }] + old(self)@
            } else {
                old(self)@.push(ImportEntry { source, import })
            },
    {
        if front {
            self.imports.insert(0, ImportEntry { source, import });
            proof {
                assert(self@ =~= seq![ImportEntry { source, import }] + old(self)@);
            }
        } else {
            self.imports.push(ImportEntry { source, import });
        }
    }

    /// Asks for all of `entries`, in their order, after the imports
    /// asked for so far, and leaves `entries` empty.
    pub fn add_all(&mut self, entries: &mut Vec<ImportEntry>)
        ensures
            final(self)@ == old(self)@ + old(entries)@,
            final(entries)@ == Seq::<ImportEntry>::empty(),
    {
        self.imports.append(entries);
    }

    /// The imports asked for so far.
    pub fn imports(&self) -> (imports: &Vec<ImportEntry>)
        ensures
            imports@ == self@,
    {
        &self.imports
    }
}

} // verus!
