//! Evidence as the attester hands it over, and the freshness token it is
//! expected to carry.

use vstd::prelude::*;
use crate::document::{field_value, field_views, find_field, json_text_fields, parse_document, text_of};
use crate::error::AttestationError;

verus! {

/// The nonce that the verifying party issues for one attempt.
#[derive(Clone, Debug, PartialEq, Eq)]
pub struct FreshnessToken {
    pub value: String,
}

impl View for FreshnessToken {
    type V = Seq<char>;

    open spec fn view(&self) -> Seq<char> {
        self.value@
    }
}

impl FreshnessToken {
    /// The token that holds `value`.
    pub fn new(value: String) -> (token: FreshnessToken)
        ensures
            token@ == value@,
    {
        FreshnessToken { value }
    }
}

/// One piece of evidence, not yet examined: the environment it declares,
/// the report data bound into it, the time it states, its measurement log
/// as the environment wrote it, and its seal.
#[derive(Clone, Debug, PartialEq, Eq)]
pub struct Evidence {
    pub tee: String,
    pub report_data: Option<String>,
    pub timestamp: Option<String>,
    pub event_log: String,
    pub seal: String,
}

/// What a piece of evidence holds.
pub struct EvidenceModel {
    pub tee: Seq<char>,
    pub report_data: Option<Seq<char>>,
    pub timestamp: Option<Seq<char>>,
    pub event_log: Seq<char>,
    pub seal: Seq<char>,
}

impl View for Evidence {
    type V = EvidenceModel;

    open spec fn view(&self) -> EvidenceModel {
        EvidenceModel {
            tee: self.tee@,
            report_data: text_of(self.report_data),
            timestamp: text_of(self.timestamp),
            event_log: self.event_log@,
            seal: self.seal@,
        }
    }
}

/// The evidence that the members of a document make up. The environment,
/// the measurement log and the seal must be there; report data and time
/// may be missing.
pub open spec fn evidence_of_fields(fields: Seq<(Seq<char>, Seq<char>)>) -> Option<EvidenceModel> {
    match (
        field_value(fields, "tee"@),
        field_value(fields, "event_log"@),
        field_value(fields, "seal"@),
    ) {
        (Some(tee), Some(event_log), Some(seal)) => Some(
            EvidenceModel {
                tee,
                report_data: field_value(fields, "report_data"@),
                timestamp: field_value(fields, "timestamp"@),
                event_log,
                seal,
            },
        ),
        _ => None,
    }
}

/// The evidence that a document states, if it states any.
pub open spec fn evidence_of_document(text: Seq<char>) -> Option<EvidenceModel> {
    match json_text_fields(text) {
        Some(fields) => evidence_of_fields(fields),
        None => None,
    }
}

/// The views of an optional piece of evidence.
pub open spec fn evidence_view(evidence: Option<Evidence>) -> Option<EvidenceModel> {
    match evidence {
        Some(e) => Some(e@),
        None => None,
    }
}

impl Evidence {
    /// Assembles evidence from the members of a document.
    pub fn from_fields(fields: &Vec<(String, String)>) -> (r: Option<Evidence>)
        ensures
            evidence_view(r) == evidence_of_fields(field_views(fields@)),
    {
        let tee = find_field(fields, "tee");
        let event_log = find_field(fields, "event_log");
        let seal = find_field(fields, "seal");
        match (tee, event_log, seal) {
            (Some(tee), Some(event_log), Some(seal)) => Some(
                Evidence {
                    tee,
                    report_data: find_field(fields, "report_data"),
                    timestamp: find_field(fields, "timestamp"),
                    event_log,
                    seal,
                },
            ),
            _ => None,
        }
    }

    /// Reads an evidence document; a text that states no evidence is
    /// malformed.
    pub fn decode(text: &str) -> (r: Result<Evidence, AttestationError>)
        ensures
            match r {
                Ok(evidence) => evidence_of_document(text@) == Some(evidence@),
                Err(e) => e == AttestationError::MalformedEvidence && evidence_of_document(text@)
                    is None,
            },
    {
        match parse_document(text) {
            Some(fields) => match Evidence::from_fields(&fields) {
                Some(evidence) => Ok(evidence),
                None => Err(AttestationError::MalformedEvidence),
            },
            None => Err(AttestationError::MalformedEvidence),
        }
    }
}

} // verus!
