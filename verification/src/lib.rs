//! Remote attestation for confidential workloads: a relying party obtains
//! evidence of an environment's measurements from an attester, checks that
//! the evidence is sound and fresh, looks up the reference values of the
//! artifact concerned, and decides whether the environment is to be
//! trusted.
//!
//! * `orchestrator`: one verification attempt as a state machine.
//! * `normalizer`, `freshness`: from evidence to an accepted event log.
//! * `comparator`: the verdict on a log against reference values.
//! * `evidence`, `reference`, `document`: what travels on the wire.
//! * `environment`, `seal`, `event_log`: what each environment writes.
//! * `attester`: sealing evidence on the attester's side.
//! * `text`: scanning and writing ASCII text.

pub mod attester;
pub mod comparator;
pub mod document;
pub mod environment;
pub mod error;
pub mod event_log;
pub mod evidence;
pub mod freshness;
pub mod normalizer;
pub mod orchestrator;
pub mod reference;
pub mod seal;
pub mod text;
