//! What the parser hands over beside the tree.

pub mod comments;
