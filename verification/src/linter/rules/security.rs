//! Rules that look for secrets in the source text.

pub mod custom;
