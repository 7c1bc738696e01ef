//! The library's general error type, reported by the conversion surfaces
//! built around the decimal type.

use vstd::prelude::*;

verus! {

/// Error type for the library.
#[derive(Clone, Debug, PartialEq)]
#[non_exhaustive]
pub enum Error {
    /// The value provided exceeds `Self::MAX`.
    ExceedsMaximumPossibleValue,
    /// The value provided is less than `Self::MIN`.
    LessThanMinimumPossibleValue,
    /// An underflow is when there are more fractional digits than can be
    /// represented within the decimal type.
    Underflow,
    /// The scale provided exceeds the maximum scale the decimal type can
    /// represent.
    ScaleExceedsMaximumPrecision(u32),
    /// A failure to convert to or from the decimal type and the named
    /// type, typically due to the types' ranges.
    ConversionTo(String),
}

} // verus!
