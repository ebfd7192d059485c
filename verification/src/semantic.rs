//! The symbol, scope and reference tables of one compilation unit.

pub mod builder;
pub mod collect;
pub mod laws;
pub mod model;
pub mod nodes;
pub mod outline;
pub mod scoping;
pub mod skeleton;
