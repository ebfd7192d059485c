//! Core of a JavaScript/TypeScript toolchain: a compact syntax tree, the
//! symbol, scope and reference tables built over it, and the traversal
//! context that analysis and rewriting passes share.

pub mod ast;
pub mod diagnostic;
pub mod linter;
pub mod parser;
pub mod semantic;
pub mod span;
pub mod syntax;
pub mod text;
pub mod transformer;
pub mod traverse;
