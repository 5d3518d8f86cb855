//! Typed errors for the fallible construction paths.

use vstd::prelude::*;

verus! {

/// A failed parse of an identity value.
///
/// Turning a string into a `UserId` or an `OAuthToken` cannot actually
/// fail; the parse path exists for API symmetry and reports this typed
/// error rather than panicking.
#[derive(Clone, Copy, Debug, PartialEq, Eq, Structural)]
pub struct ParseError;

/// Malformed caller input, rejected eagerly at entity construction.
#[derive(Clone, Copy, Debug, PartialEq, Eq, Structural)]
pub enum ValidationError {
    EmptyServiceId,
}

} // verus!
