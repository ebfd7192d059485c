//! Helpers of the transforms.

pub mod loader;
