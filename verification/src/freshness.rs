//! The freshness binding: evidence counts only where it carries the token
//! that the verifying party issued for this very attempt.

use vstd::prelude::*;
use crate::error::AttestationError;
use crate::evidence::{Evidence, EvidenceModel, FreshnessToken};
use crate::text::same_text;

verus! {

/// Whether the evidence carries exactly the token `token` as its report
/// data. Evidence without report data carries no token.
pub open spec fn token_bound(e: EvidenceModel, token: Seq<char>) -> bool {
    e.report_data == Some(token)
}

/// Whether `evidence` is bound to `expected`.
pub fn is_bound(evidence: &Evidence, expected: &FreshnessToken) -> (r: bool)
    ensures
        r == token_bound(evidence@, expected@),
{
    match &evidence.report_data {
        Some(carried) => same_text(carried.as_str(), expected.value.as_str()),
        None => false,
    }
}

/// Confirms that `evidence` is bound to `expected`; a missing or different
/// token is a freshness mismatch.
pub fn bind_freshness(evidence: &Evidence, expected: &FreshnessToken) -> (r: Result<
    (),
    AttestationError,
>)
    ensures
        r is Ok <==> token_bound(evidence@, expected@),
        r is Err ==> r == Err::<(), AttestationError>(AttestationError::FreshnessMismatch),
{
    if is_bound(evidence, expected) {
        Ok(())
    } else {
        Err(AttestationError::FreshnessMismatch)
    }
}

} // verus!
