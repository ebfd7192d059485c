//! The syntax tree.
//!
//! Every node enum wraps each of its payloads behind one owning
//! indirection, so a node value is a tag and a pointer whatever the size of
//! the payload. A parent owns its children exclusively; every other
//! relation (use to binding, binding to declaring node) is an id into a
//! side table.

pub mod access;
pub mod kind;
pub mod nodes;
