//! The ways in which a call across the boundary can fail.

use vstd::prelude::*;

verus! {

/// Why a call across the boundary produced nothing.
///
/// A foreign caller never sees these: every one of them reaches it as a null
/// pointer. They exist so that the layers beneath the entry points can say
/// exactly which inputs fail and how.
#[derive(Clone, Copy, Debug, PartialEq, Eq, Structural)]
pub enum BoundaryError {
    /// A null handle or pointer, or a buffer that has no terminator.
    InvalidInput,
    /// Text with an embedded NUL, or bytes that are not UTF-8.
    Encoding,
    /// The engine could not identify the input.
    Engine,
    /// The engine could not be brought up.
    Initialization,
}

} // verus!
