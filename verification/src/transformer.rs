//! Transform passes.

pub mod context;
pub mod helper_loader;
pub mod helpers;
pub mod module_imports;
pub mod options;
pub mod regexp;
