use remote_attestation::comparator::{Failure, Verdict};
use remote_attestation::error::AttestationError;
use remote_attestation::evidence::FreshnessToken;
use remote_attestation::orchestrator::{Action, Attempt, AttemptState, Event};

const TDX_EVIDENCE: &str = r#"{"tee":"tdx","report_data":"nonce-1","event_log":"boot-loader=abc123;kernel=def456","seal":"16641788558257576234"}"#;
const SNP_EVIDENCE: &str = r#"{"tee":"snp","report_data":"nonce-1","event_log":"abc123 boot-loader\ndef456 kernel","seal":"1214779022"}"#;
const STALE_EVIDENCE: &str =
    r#"{"tee":"tdx","report_data":"stale","event_log":"kernel=def456","seal":"8767916113097776010"}"#;
const UNBOUND_EVIDENCE: &str =
    r#"{"tee":"tdx","event_log":"kernel=def456","seal":"5951714479092767319"}"#;
const KERNEL_REFERENCE: &str = r#"{"name":"kernel","accepted":"def456,def789"}"#;

fn attempt(artifact: &str) -> Attempt {
    Attempt::new(FreshnessToken::new("nonce-1".to_string()), artifact.to_string())
}

fn run(mut attempt: Attempt, events: Vec<Event>) -> (Attempt, Vec<Action>) {
    let mut actions = Vec::new();
    for event in events {
        let (next, action) = attempt.step(event);
        attempt = next;
        actions.push(action);
    }
    (attempt, actions)
}

fn received(document: &str) -> Event {
    Event::EvidenceReceived(document.to_string())
}

fn found(document: &str) -> Event {
    Event::ReferenceFound(document.to_string())
}

fn to_comparison(evidence: &str) -> Vec<Event> {
    vec![Event::Proceed, received(evidence), Event::Proceed, Event::Proceed]
}

#[test]
fn sound_attempt_passes_every_state_and_is_trusted() {
    for evidence in [TDX_EVIDENCE, SNP_EVIDENCE] {
        let fresh = attempt("kernel");
        assert_eq!(*fresh.state(), AttemptState::Init);
        assert_eq!(fresh.pending(), Action::Proceed);
        assert_eq!(fresh.outcome(), None);

        let (a, action) = fresh.step(Event::Proceed);
        assert_eq!(*a.state(), AttemptState::AwaitingEvidence);
        assert_eq!(action, Action::RequestEvidence);

        let (a, action) = a.step(received(evidence));
        assert_eq!(*a.state(), AttemptState::Normalizing { document: evidence.to_string() });
        assert_eq!(action, Action::Proceed);

        let (a, action) = a.step(Event::Proceed);
        assert!(matches!(a.state(), AttemptState::BindingFreshness { .. }));
        assert_eq!(action, Action::Proceed);
        assert_eq!(a.outcome(), None);

        let (a, action) = a.step(Event::Proceed);
        assert!(matches!(a.state(), AttemptState::ResolvingReferences { .. }));
        assert_eq!(action, Action::ResolveReference("kernel".to_string()));

        let (a, action) = a.step(found(KERNEL_REFERENCE));
        assert!(matches!(a.state(), AttemptState::Comparing { .. }));
        assert_eq!(action, Action::Proceed);
        assert_eq!(a.outcome(), None);

        let (a, action) = a.step(Event::Proceed);
        assert_eq!(*a.state(), AttemptState::Done(Verdict::Trusted));
        assert_eq!(action, Action::Stop);
        assert_eq!(a.outcome(), Some(Ok(&Verdict::Trusted)));
        assert_eq!(*a.token(), FreshnessToken::new("nonce-1".to_string()));
        assert_eq!(a.artifact(), "kernel");
    }
}

#[test]
fn negative_verdict_is_an_outcome_and_no_error() {
    let mut events = to_comparison(TDX_EVIDENCE);
    events.push(found(r#"{"name":"kernel","accepted":"zzz999"}"#));
    events.push(Event::Proceed);
    let (a, _) = run(attempt("kernel"), events);
    let expected = Verdict::Rejected(vec![Failure::ValueMismatch("kernel".to_string())]);
    assert_eq!(a.outcome(), Some(Ok(&expected)));

    let mut events = to_comparison(TDX_EVIDENCE);
    events.push(found(r#"{"name":"firmware","accepted":"f00"}"#));
    events.push(Event::Proceed);
    let (a, _) = run(attempt("firmware"), events);
    let expected = Verdict::Rejected(vec![Failure::MissingMeasurement("firmware".to_string())]);
    assert_eq!(a.outcome(), Some(Ok(&expected)));
}

#[test]
fn wrong_or_missing_token_ends_in_freshness_mismatch_before_comparing() {
    for evidence in [STALE_EVIDENCE, UNBOUND_EVIDENCE] {
        let mut events = to_comparison(evidence);
        let (a, actions) = run(attempt("kernel"), events.clone());
        assert_eq!(*a.state(), AttemptState::Aborted(AttestationError::FreshnessMismatch));
        assert_eq!(actions.last(), Some(&Action::Stop));
        assert!(!actions.iter().any(|action| matches!(action, Action::ResolveReference(_))));

        events.push(found(KERNEL_REFERENCE));
        events.push(Event::Proceed);
        let (a, actions) = run(attempt("kernel"), events);
        assert_eq!(a.outcome(), Some(Err(AttestationError::FreshnessMismatch)));
        assert_eq!(actions[4], Action::Stop);
        assert_eq!(actions[5], Action::Stop);
    }
}

#[test]
fn unknown_artifact_aborts_without_a_verdict() {
    let mut events = to_comparison(TDX_EVIDENCE);
    events.push(Event::ReferenceNotFound);
    let (a, actions) = run(attempt("unknown-app"), events);
    assert_eq!(actions[3], Action::ResolveReference("unknown-app".to_string()));
    assert_eq!(*a.state(), AttemptState::Aborted(AttestationError::ReferenceValueNotFound));
    assert_eq!(a.outcome(), Some(Err(AttestationError::ReferenceValueNotFound)));
    let (a, action) = a.step(Event::Proceed);
    assert_eq!(action, Action::Stop);
    assert_eq!(a.outcome(), Some(Err(AttestationError::ReferenceValueNotFound)));
}

#[test]
fn resolver_timeout_is_told_apart_from_not_found() {
    let mut events = to_comparison(TDX_EVIDENCE);
    events.push(Event::ResolverTimedOut);
    let (a, _) = run(attempt("kernel"), events);
    assert_eq!(a.outcome(), Some(Err(AttestationError::ResolverUnavailable)));
}

#[test]
fn reference_that_cannot_be_read_aborts() {
    let mut events = to_comparison(TDX_EVIDENCE);
    events.push(found(r#"{"name":"kernel"}"#));
    let (a, _) = run(attempt("kernel"), events);
    assert_eq!(a.outcome(), Some(Err(AttestationError::MalformedReference)));
}

#[test]
fn lost_response_is_a_transport_error() {
    let (a, _) = run(attempt("kernel"), vec![Event::Proceed, Event::TransportFailed]);
    assert_eq!(a.outcome(), Some(Err(AttestationError::TransportError)));
    let mut events = to_comparison(TDX_EVIDENCE);
    events.push(Event::TransportFailed);
    let (a, _) = run(attempt("kernel"), events);
    assert_eq!(a.outcome(), Some(Err(AttestationError::TransportError)));
}

#[test]
fn event_that_a_state_does_not_wait_for_aborts_the_attempt() {
    let cases: Vec<Vec<Event>> = vec![
        vec![received(TDX_EVIDENCE)],
        vec![Event::Proceed, Event::Proceed],
        vec![Event::Proceed, found(KERNEL_REFERENCE)],
        vec![Event::Proceed, received(TDX_EVIDENCE), received(TDX_EVIDENCE)],
        vec![Event::Proceed, received(TDX_EVIDENCE), Event::Proceed, Event::ReferenceNotFound],
        vec![
            Event::Proceed,
            received(TDX_EVIDENCE),
            Event::Proceed,
            Event::Proceed,
            Event::Proceed,
        ],
        vec![
            Event::Proceed,
            received(TDX_EVIDENCE),
            Event::Proceed,
            Event::Proceed,
            found(KERNEL_REFERENCE),
            Event::ResolverTimedOut,
        ],
    ];
    for events in cases {
        let (a, actions) = run(attempt("kernel"), events);
        assert_eq!(a.outcome(), Some(Err(AttestationError::TransportError)));
        assert_eq!(actions.last(), Some(&Action::Stop));
    }
}

#[test]
fn evidence_that_cannot_be_examined_aborts_in_normalizing() {
    let cases = [
        ("not json", AttestationError::MalformedEvidence),
        (r#"{"tee":"tdx","event_log":"kernel=def456"}"#, AttestationError::MalformedEvidence),
        (
            r#"{"tee":"tdx","report_data":"nonce-1","event_log":"kernel=def456","seal":"1"}"#,
            AttestationError::MalformedEvidence,
        ),
        (
            r#"{"tee":"sgx","report_data":"nonce-1","event_log":"kernel=def456","seal":"8192907057081377428"}"#,
            AttestationError::UnsupportedEnvironment,
        ),
    ];
    for (document, error) in cases {
        let (a, actions) =
            run(attempt("kernel"), vec![Event::Proceed, received(document), Event::Proceed]);
        assert_eq!(*a.state(), AttemptState::Aborted(error));
        assert_eq!(actions[2], Action::Stop);
    }
}

#[test]
fn final_states_absorb_every_event() {
    let finished = || {
        let mut events = to_comparison(TDX_EVIDENCE);
        events.push(found(KERNEL_REFERENCE));
        events.push(Event::Proceed);
        run(attempt("kernel"), events).0
    };
    let failed = || run(attempt("kernel"), to_comparison(STALE_EVIDENCE)).0;
    for event in [
        Event::Proceed,
        received(STALE_EVIDENCE),
        found(r#"{"name":"kernel","accepted":"zzz999"}"#),
        Event::ReferenceNotFound,
        Event::ResolverTimedOut,
        Event::TransportFailed,
    ] {
        let (after, action) = finished().step(event.clone());
        assert_eq!(after, finished());
        assert_eq!(*after.state(), AttemptState::Done(Verdict::Trusted));
        assert_eq!(action, Action::Stop);
        let (after, action) = failed().step(event);
        assert_eq!(*after.state(), AttemptState::Aborted(AttestationError::FreshnessMismatch));
        assert_eq!(action, Action::Stop);
    }
}

#[test]
fn attempts_are_independent() {
    let (first, _) = run(attempt("kernel"), to_comparison(STALE_EVIDENCE));
    let mut events = to_comparison(TDX_EVIDENCE);
    events.push(found(KERNEL_REFERENCE));
    events.push(Event::Proceed);
    let (second, _) = run(attempt("kernel"), events);
    assert_eq!(first.outcome(), Some(Err(AttestationError::FreshnessMismatch)));
    assert_eq!(second.outcome(), Some(Ok(&Verdict::Trusted)));
}
