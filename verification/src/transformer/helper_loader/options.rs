//! Options of helper loading.

use std::borrow::Cow;
use vstd::prelude::*;

verus! {

/// How helpers are reached.
#[derive(Clone, Copy, Debug, PartialEq, Eq, Structural)]
pub enum HelperLoaderMode {
    /// The helper's code is put into the file that uses it.
    Inline,
    /// The helper is a property of the global `babelHelpers` object.
    External,
    /// The helper is imported from the runtime package.
    Runtime,
}

impl Default for HelperLoaderMode {
    /// Helpers are imported from the runtime package.
    fn default() -> (mode: HelperLoaderMode)
        ensures
            mode == HelperLoaderMode::Runtime,
    {
        HelperLoaderMode::Runtime
    }
}

/// Options of helper loading.
#[derive(Debug)]
pub struct HelperLoaderOptions {
    /// The package that runtime helpers are imported from.
    pub module_name: Cow<'static, str>,
    pub mode: HelperLoaderMode,
}

impl Default for HelperLoaderOptions {
    /// Helpers are imported from `@babel/runtime`.
    fn default() -> (options: HelperLoaderOptions)
        ensures
            options.module_name@ == "@babel/runtime"@,
            options.mode == HelperLoaderMode::Runtime,
    {
        HelperLoaderOptions {
            module_name: default_as_module_name(),
            mode: HelperLoaderMode::Runtime,
        }
    }
}

/// The package that runtime helpers are imported from unless the options
/// name another.
pub fn default_as_module_name() -> (name: Cow<'static, str>)
    ensures
        name@ == "@babel/runtime"@,
{
    Cow::Borrowed("@babel/runtime")
}

} // verus!
