//! The attester's side: what the environment measured is put together with
//! the verifier's token and sealed, so that the verifier's normaliser
//! accepts it.

use vstd::prelude::*;
use crate::environment::EnvironmentKind;
use crate::evidence::{Evidence, FreshnessToken};
use crate::normalizer::{compute_seal, expected_seal, integrity_holds, sealed_bytes, stated_time};
use crate::text::{format_decimal, writes};

verus! {

/// The time of an optional instant, written in decimal.
pub fn format_instant(instant: Option<u64>) -> (r: Option<String>)
    ensures
        match instant {
            Some(t) => r matches Some(s) && writes(s@, t),
            None => r is None,
        },
{
    match instant {
        Some(t) => Some(format_decimal(t)),
        None => None,
    }
}

/// Seals evidence of `kind`: the measurement log as the environment wrote
/// it, the time of measuring, and the token of the verifier's request. The
/// seal is that of `kind` over these, written in decimal.
pub fn seal_evidence(
    kind: EnvironmentKind,
    token: &FreshnessToken,
    timestamp: Option<u64>,
    event_log: String,
) -> (evidence: Evidence)
    ensures
        evidence@.tee == kind.tag_text(),
        evidence@.report_data == Some(token@),
        evidence@.event_log == event_log@,
        match timestamp {
            Some(t) => evidence@.timestamp matches Some(s) && writes(s, t),
            None => evidence@.timestamp is None,
        },
        writes(evidence@.seal, expected_seal(kind, evidence@)),
        stated_time(evidence@) == Some(timestamp),
        integrity_holds(kind, evidence@),
{
    let mut evidence = Evidence {
        tee: kind.tag().to_owned(),
        report_data: Some(token.value.clone()),
        timestamp: format_instant(timestamp),
        event_log,
        seal: String::new(),
    };
    let ghost unsealed = evidence@;
    let seal: u64 = compute_seal(kind, &evidence);
    evidence.seal = format_decimal(seal);
    proof {
        assert(sealed_bytes(evidence@) == sealed_bytes(unsealed));
    }
    evidence
}

} // verus!
