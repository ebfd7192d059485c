//! Helper loading.
//!
//! Transforms call small runtime helpers. How a helper is reached depends
//! on the mode: imported from a runtime package, or read off a global
//! helper object.

pub mod loaded;
pub mod options;
pub mod store;
