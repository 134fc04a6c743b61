use vstd::prelude::*;

verus! {

/// Why a configuration document could not be turned into a configuration.
#[derive(Copy, Clone, Debug, PartialEq, Eq, Structural)]
pub enum ConfigError {
    /// The document does not have the expected structure.
    MalformedDocument,
    /// An account address does not decode from its text.
    MalformedIdentifier,
    /// A range bound lies outside the unsigned 16-bit domain.
    OutOfRangeNumeric,
    /// A range whose lower bound exceeds its upper bound.
    InvertedRange,
}

} // verus!
