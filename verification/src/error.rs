//! The error type shared by every descriptor operation.

use vstd::prelude::*;

verus! {

/// Why a descriptor operation failed.
#[derive(Debug, PartialEq, Eq)]
pub enum Error {
    /// The descriptor text is malformed; the message says how.
    BadDescriptor(String),
    /// A fragment or tree has an unexpected shape; the message says which.
    Unexpected(String),
    /// The descriptor text holds a byte outside the printable range.
    Unprintable(u8),
    /// The text of a public key is not hex of the right length, or is not a
    /// point on the curve.
    BadPubkey,
    /// No signature is available for this serialized public key.
    MissingSig(Vec<u8>),
    /// Neither spending path could be satisfied.
    CouldNotSatisfy,
    /// The fragment has no satisfaction, so its cost has no bound.
    ImpossibleSatisfaction,
    /// The fragment fails the engine's sanity check.
    AnalysisError,
    /// The fragment is not a standard top-level bare script.
    NonStandardBareScript,
}

} // verus!
