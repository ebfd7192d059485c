//! The traversal that all passes share: the context that carries the
//! semantic tables through a pass, fresh-name generation, and the
//! depth-first walk with its enter and exit hooks.

pub mod context;
pub mod hooks;
pub mod laws;
pub mod log;
pub mod naming;
pub mod tour;
pub mod walk;
