//! The ways in which a verification attempt can fail before it reaches a
//! verdict.

use vstd::prelude::*;

verus! {

/// Why an attempt ended without a verdict. A negative verdict is not among
/// these: it is a result, not a failure.
#[derive(Clone, Copy, Debug, PartialEq, Eq, Structural)]
pub enum AttestationError {
    /// The attester or the resolver gave no usable response.
    TransportError,
    /// The evidence is structurally broken, unsealed, or its seal is wrong.
    MalformedEvidence,
    /// The evidence declares an environment for which there is no normaliser.
    UnsupportedEnvironment,
    /// The evidence does not carry the freshness token of this attempt.
    FreshnessMismatch,
    /// The resolver knows no reference value under the artifact's name.
    ReferenceValueNotFound,
    /// The resolver did not answer in time.
    ResolverUnavailable,
    /// The resolver answered with a document that is no reference value.
    MalformedReference,
}

} // verus!
