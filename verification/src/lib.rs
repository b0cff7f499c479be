//! Translation policy for converting WGSL shader modules to Metal Shading
//! Language: deriving the target entry-point name from the input file's
//! naming convention, building the per-entry-point resource-binding map from
//! the validated module, and renaming entry-point symbols in the generated
//! source.

use vstd::prelude::*;

pub mod bindings;
pub mod classify;
pub mod naga_api;
pub mod rename;
pub mod scan;
pub mod translate;

verus! {

/// A terminal failure of one translation stage. Each variant carries what
/// the command line needs to report it; none is ever recovered from.
#[derive(Debug)]
pub enum TranslateError {
    /// The source text is not a valid module in the source language.
    Parse(String),
    /// The parsed module failed semantic validation.
    Validation(String),
    /// A used, explicitly bound buffer global has a binding index above the
    /// greatest representable target buffer slot.
    BindingRange { group: u32, binding: u32 },
    /// The backend could not generate target source for the module.
    Generation(String),
}

} // verus!
