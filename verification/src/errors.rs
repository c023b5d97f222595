//! Errors the inference engine can report.
//!
//! Only one condition is fatal for the engine itself: a load or a solved
//! value whose destination width it cannot express as bytes.  Everything
//! else (an unsatisfiable condition, a branch to a non-address target) is
//! recovered locally and never surfaces as an error value.

use vstd::prelude::*;

verus! {

/// Widths the engine can convert to bytes: one, four or eight bytes.
pub open spec fn supported_width(size: usize) -> bool {
    size == 1 || size == 4 || size == 8
}

/// A fatal condition: the run must stop rather than continue with a value
/// the engine could not faithfully convert.
#[derive(Debug, Clone, Copy, PartialEq, Eq, Structural)]
pub enum InferenceError {
    /// A destination width outside the supported set of one, four or
    /// eight bytes.
    UnsupportedWidth { size: usize },
}

impl InferenceError {
    /// A short description of the error, in place of a `Display` impl.
    pub fn message(&self) -> (r: String)
        ensures
            r@ == "unsupported value width for last load event"@,
    {
        "unsupported value width for last load event".to_owned()
    }
}

} // verus!
