//! The rules.

pub mod no_infinite_rerender_loop;
pub mod prefer_numeric_literals;
pub mod security;
