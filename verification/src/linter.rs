//! Lint rules and what they run on.

pub mod config;
pub mod ast_util;
pub mod context;
pub mod rule;
pub mod rules;
