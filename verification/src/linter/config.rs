//! Settings that plugins read.

pub mod next;
