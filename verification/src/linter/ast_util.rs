//! Questions that several rules ask.

use crate::ast::nodes::IdentifierReference;
use crate::semantic::model::ScopingModel;
use crate::semantic::scoping::Scoping;
use crate::syntax::SymbolId;
use vstd::prelude::*;

verus! {

/// The binding that the use `ident` resolved to. A use that analysis has
/// not registered, or whose registration the tables do not hold, has
/// none, like a free use.
pub open spec fn symbol_of_variable(tables: ScopingModel, ident: IdentifierReference) -> Option<
    SymbolId,
> {
    match ident.reference_id {
        Some(reference) => if tables.has_reference(reference) {
            tables.reference(reference).symbol
        } else {
            None
        },
        None => None,
    }
}

/// The binding that the use `ident` resolved to, if any.
pub fn get_symbol_id_of_variable(ident: &IdentifierReference, scoping: &Scoping) -> (symbol: Option<
    SymbolId,
>)
    ensures
        symbol == symbol_of_variable(scoping@, *ident),
{
    match ident.reference_id {
        Some(reference) => {
            if scoping.contains_reference(reference) {
                scoping.get_reference(reference).symbol_id()
            } else {
                None
            }
        },
        None => None,
    }
}

} // verus!
