//! From evidence to an event log: the seal is checked, then the
//! measurement log is read in the grammar of the declared environment, then
//! the freshness token is looked for. Only evidence that passes all three
//! yields a log.

use vstd::prelude::*;
use vstd::utf8::*;
use crate::environment::{kind_of_tag, lemma_tag_names_kind, EnvironmentKind};
use crate::error::AttestationError;
use crate::event_log::{read_records, records_of, EventLog, LogModel};
use crate::evidence::{Evidence, EvidenceModel, FreshnessToken};
use crate::freshness::{bind_freshness, token_bound};
use crate::seal::{absorb, checksum, lemma_seal_fold_concat, seal_fold, seal_step, start, step};
use crate::text::{decimal_value, parse_decimal};

verus! {

/// The characters of an optional text; none where it is missing.
pub open spec fn text_or_empty(value: Option<Seq<char>>) -> Seq<char> {
    match value {
        Some(s) => s,
        None => Seq::empty(),
    }
}

/// The bytes that the seal covers: environment, report data, time and
/// measurement log in UTF-8, a line feed between each two. What is missing
/// counts as empty.
pub open spec fn sealed_bytes(e: EvidenceModel) -> Seq<u8> {
    encode_utf8(e.tee) + seq![10u8] + encode_utf8(text_or_empty(e.report_data)) + seq![10u8]
        + encode_utf8(text_or_empty(e.timestamp)) + seq![10u8] + encode_utf8(e.event_log)
}

/// The seal that evidence of `kind` must carry.
pub open spec fn expected_seal(kind: EnvironmentKind, e: EvidenceModel) -> u64 {
    checksum(kind, sealed_bytes(e))
}

/// Whether the evidence carries, in decimal, the seal it must carry.
pub open spec fn integrity_holds(kind: EnvironmentKind, e: EvidenceModel) -> bool {
    decimal_value(e.seal) == Some(expected_seal(kind, e))
}

/// The time that the evidence states: `Some(None)` where it states none,
/// `None` where what it states is no decimal number of 64 bits.
pub open spec fn stated_time(e: EvidenceModel) -> Option<Option<u64>> {
    match e.timestamp {
        None => Some(None),
        Some(t) => match decimal_value(t) {
            Some(n) => Some(Some(n)),
            None => None,
        },
    }
}

/// The log that the evidence states in the grammar of `kind`, whatever its
/// seal.
pub open spec fn stated_log(kind: EnvironmentKind, e: EvidenceModel) -> Option<LogModel> {
    match (
        stated_time(e),
        records_of(e.event_log, kind.separator(), kind.delimiter(), kind.value_first()),
    ) {
        (Some(timestamp), Some(records)) => Some(LogModel { records, timestamp }),
        _ => None,
    }
}

/// The log of well-formed evidence: what the evidence states, provided its
/// seal holds.
pub open spec fn candidate_log(kind: EnvironmentKind, e: EvidenceModel) -> Option<LogModel> {
    if integrity_holds(kind, e) {
        stated_log(kind, e)
    } else {
        None
    }
}

/// What examining evidence yields before its freshness is looked at.
pub open spec fn examined(e: EvidenceModel) -> Result<LogModel, AttestationError> {
    match kind_of_tag(e.tee) {
        None => Err(AttestationError::UnsupportedEnvironment),
        Some(kind) => match candidate_log(kind, e) {
            None => Err(AttestationError::MalformedEvidence),
            Some(log) => Ok(log),
        },
    }
}

/// What normalising evidence against an expected token yields: the log of
/// evidence that is of a supported environment, well formed, sealed, and
/// bound to the token; else the first of these that fails, in this order.
pub open spec fn normalized(e: EvidenceModel, token: Seq<char>) -> Result<
    LogModel,
    AttestationError,
> {
    match examined(e) {
        Err(error) => Err(error),
        Ok(log) => if token_bound(e, token) {
            Ok(log)
        } else {
            Err(AttestationError::FreshnessMismatch)
        },
    }
}

/// The view of a result that holds a log.
pub open spec fn log_result_view(r: Result<EventLog, AttestationError>) -> Result<
    LogModel,
    AttestationError,
> {
    match r {
        Ok(log) => Ok(log@),
        Err(e) => Err(e),
    }
}

/// The bytes of an optional text; none where it is missing.
fn bytes_or_empty(value: &Option<String>) -> (bytes: &[u8])
    ensures
        bytes@ == encode_utf8(text_or_empty(crate::document::text_of(*value))),
{
    proof {
        reveal_strlit("");
        assert(""@ =~= Seq::<char>::empty());
    }
    match value {
        Some(s) => s.as_str().as_bytes(),
        None => "".as_bytes(),
    }
}

/// Computes the seal that `evidence` must carry if it is of `kind`.
pub fn compute_seal(kind: EnvironmentKind, evidence: &Evidence) -> (seal: u64)
    ensures
        seal == expected_seal(kind, evidence@),
{
    let ghost e = evidence@;
    let ghost a = encode_utf8(e.tee);
    let ghost b = encode_utf8(text_or_empty(e.report_data));
    let ghost c = encode_utf8(text_or_empty(e.timestamp));
    let ghost d = encode_utf8(e.event_log);
    let ghost lf = seq![10u8];
    let h0: u64 = start(kind);
    let h1: u64 = absorb(kind, h0, evidence.tee.as_str().as_bytes());
    let h2: u64 = step(kind, h1, 10);
    let h3: u64 = absorb(kind, h2, bytes_or_empty(&evidence.report_data));
    let h4: u64 = step(kind, h3, 10);
    let h5: u64 = absorb(kind, h4, bytes_or_empty(&evidence.timestamp));
    let h6: u64 = step(kind, h5, 10);
    let h7: u64 = absorb(kind, h6, evidence.event_log.as_str().as_bytes());
    proof {
        assert(lf.drop_last() =~= Seq::<u8>::empty());
        assert forall|h: u64| seal_fold(kind, h, lf) == seal_step(kind, h, 10u8) by {
            assert(seal_fold(kind, h, lf.drop_last()) == h);
        }
        lemma_seal_fold_concat(kind, h0, a, lf);
        lemma_seal_fold_concat(kind, h0, a + lf, b);
        lemma_seal_fold_concat(kind, h0, a + lf + b, lf);
        lemma_seal_fold_concat(kind, h0, a + lf + b + lf, c);
        lemma_seal_fold_concat(kind, h0, a + lf + b + lf + c, lf);
        lemma_seal_fold_concat(kind, h0, a + lf + b + lf + c + lf, d);
    }
    h7
}

/// Checks the seal of `evidence` under the scheme of `kind`.
pub fn verify_integrity(kind: EnvironmentKind, evidence: &Evidence) -> (ok: bool)
    ensures
        ok == integrity_holds(kind, evidence@),
{
    match parse_decimal(evidence.seal.as_str()) {
        Some(carried) => carried == compute_seal(kind, evidence),
        None => false,
    }
}

/// Reads the time and the measurement log of `evidence` in the grammar of
/// `kind`, without looking at the seal.
pub fn read_log(kind: EnvironmentKind, evidence: &Evidence) -> (r: Option<EventLog>)
    ensures
        match r {
            Some(log) => stated_log(kind, evidence@) == Some(log@) && log.wf(),
            None => stated_log(kind, evidence@) is None,
        },
{
    let timestamp: Option<u64> = match &evidence.timestamp {
        None => None,
        Some(t) => match parse_decimal(t.as_str()) {
            Some(n) => Some(n),
            None => {
                return None;
            },
        },
    };
    match read_records(
        evidence.event_log.as_str(),
        kind.separator_byte(),
        kind.delimiter_byte(),
        kind.lists_value_first(),
    ) {
        Some(records) => Some(EventLog { records, timestamp }),
        None => None,
    }
}

/// Evidence that has been examined and found well formed, with the log it
/// states. Whether the evidence is fresh is still open: the log comes out
/// only through `accept`, which checks the token.
#[derive(Clone, Debug, PartialEq, Eq)]
pub struct Candidate {
    evidence: Evidence,
    log: EventLog,
}

impl Candidate {
    /// The evidence that was examined.
    pub closed spec fn evidence(&self) -> EvidenceModel {
        self.evidence@
    }

    /// The log that the evidence states.
    pub closed spec fn log(&self) -> LogModel {
        self.log@
    }

    /// Whether the ordinals of the log count its records from zero.
    pub closed spec fn wf(&self) -> bool {
        self.log.wf()
    }

    /// Hands out the log if the evidence carries `expected`; a missing or
    /// different token is a freshness mismatch.
    pub fn accept(self, expected: &FreshnessToken) -> (r: Result<EventLog, AttestationError>)
        ensures
            match r {
                Ok(log) => token_bound(self.evidence(), expected@) && log@ == self.log() && (
                self.wf() ==> log.wf()),
                Err(error) => !token_bound(self.evidence(), expected@) && error
                    == AttestationError::FreshnessMismatch,
            },
    {
        match bind_freshness(&self.evidence, expected) {
            Ok(_) => Ok(self.log),
            Err(error) => Err(error),
        }
    }
}

/// Examines `evidence`: finds the normaliser of the environment it
/// declares, checks the seal and reads the log. The freshness token is not
/// looked at here; the candidate keeps the log until it is.
pub fn examine(evidence: Evidence) -> (r: Result<Candidate, AttestationError>)
    ensures
        match r {
            Ok(candidate) => candidate.evidence() == evidence@ && examined(evidence@) == Ok::<
                LogModel,
                AttestationError,
            >(candidate.log()) && candidate.wf(),
            Err(error) => examined(evidence@) == Err::<LogModel, AttestationError>(error),
        },
{
    match EnvironmentKind::from_tag(evidence.tee.as_str()) {
        None => Err(AttestationError::UnsupportedEnvironment),
        Some(kind) => {
            if !verify_integrity(kind, &evidence) {
                return Err(AttestationError::MalformedEvidence);
            }
            match read_log(kind, &evidence) {
                Some(log) => Ok(Candidate { evidence, log }),
                None => Err(AttestationError::MalformedEvidence),
            }
        },
    }
}

/// Normalises `evidence` against the token that the verifying party issued:
/// the log comes out only where the environment is supported, the seal
/// holds, the log is well formed and the token is bound.
pub fn normalize(evidence: Evidence, expected: &FreshnessToken) -> (r: Result<
    EventLog,
    AttestationError,
>)
    ensures
        log_result_view(r) == normalized(evidence@, expected@),
        r matches Ok(log) ==> log.wf(),
{
    match examine(evidence) {
        Err(error) => Err(error),
        Ok(candidate) => candidate.accept(expected),
    }
}

/// Evidence of any supported kind that declares its kind, carries the seal
/// of that kind, states a log in that kind's grammar and is bound to the
/// token normalises to that log.
pub proof fn lemma_sound_evidence_normalises(
    kind: EnvironmentKind,
    e: EvidenceModel,
    token: Seq<char>,
)
    requires
        e.tee == kind.tag_text(),
        integrity_holds(kind, e),
        stated_log(kind, e) is Some,
        token_bound(e, token),
    ensures
        normalized(e, token) == Ok::<LogModel, AttestationError>(stated_log(kind, e).unwrap()),
{
    lemma_tag_names_kind(kind);
}

} // verus!
