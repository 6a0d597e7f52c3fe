//! One verification attempt as a state machine. The machine decides; the
//! caller does the outside work that a state asks for and hands back what
//! came of it as an event.

use vstd::prelude::*;
use crate::comparator::{
    compare, lemma_trusted_iff_all_satisfied, satisfies, verdict_of, Verdict, VerdictModel,
};
use crate::error::AttestationError;
use crate::event_log::{EventLog, LogModel};
use crate::evidence::{evidence_of_document, Evidence, EvidenceModel, FreshnessToken};
use crate::freshness::token_bound;
use crate::normalizer::{examine, examined, normalized, Candidate};
use crate::reference::{reference_models, reference_of_document, ReferenceModel, ReferenceValue};

verus! {

/// Where an attempt stands. The states are passed in the order in which
/// they are listed; `Done` and `Aborted` are final.
#[derive(Clone, Debug, PartialEq, Eq)]
pub enum AttemptState {
    /// Nothing has happened yet.
    Init,
    /// The attester has been asked for evidence.
    AwaitingEvidence,
    /// An evidence document is at hand and has to be examined.
    Normalizing { document: String },
    /// The evidence is well formed; its freshness has to be checked.
    BindingFreshness { candidate: Candidate },
    /// The log is accepted; the reference value has to be resolved.
    ResolvingReferences { log: EventLog },
    /// Log and reference value are at hand and have to be compared.
    Comparing { log: EventLog, reference: ReferenceValue },
    /// The attempt has rendered its verdict.
    Done(Verdict),
    /// The attempt has failed without a verdict.
    Aborted(AttestationError),
}

/// What a state holds.
pub enum StateModel {
    Init,
    AwaitingEvidence,
    Normalizing { document: Seq<char> },
    BindingFreshness { evidence: EvidenceModel, log: LogModel },
    ResolvingReferences { log: LogModel },
    Comparing { log: LogModel, reference: ReferenceModel },
    Done(VerdictModel),
    Aborted(AttestationError),
}

impl View for AttemptState {
    type V = StateModel;

    open spec fn view(&self) -> StateModel {
        match self {
            AttemptState::Init => StateModel::Init,
            AttemptState::AwaitingEvidence => StateModel::AwaitingEvidence,
            AttemptState::Normalizing { document } => StateModel::Normalizing {
                document: document@,
            },
            AttemptState::BindingFreshness { candidate } => StateModel::BindingFreshness {
                evidence: candidate.evidence(),
                log: candidate.log(),
            },
            AttemptState::ResolvingReferences { log } => StateModel::ResolvingReferences {
                log: log@,
            },
            AttemptState::Comparing { log, reference } => StateModel::Comparing {
                log: log@,
                reference: reference@,
            },
            AttemptState::Done(verdict) => StateModel::Done(verdict@),
            AttemptState::Aborted(error) => StateModel::Aborted(*error),
        }
    }
}

/// What the caller reports to the machine.
#[derive(Clone, Debug, PartialEq, Eq)]
pub enum Event {
    /// Nothing from outside: the machine is to take its next step.
    Proceed,
    /// The attester answered with this evidence document.
    EvidenceReceived(String),
    /// The resolver answered with this reference-value document.
    ReferenceFound(String),
    /// The resolver knows no reference value of that name.
    ReferenceNotFound,
    /// The resolver did not answer in time.
    ResolverTimedOut,
    /// A request got no usable response.
    TransportFailed,
}

/// What an event holds.
pub enum EventModel {
    Proceed,
    EvidenceReceived(Seq<char>),
    ReferenceFound(Seq<char>),
    ReferenceNotFound,
    ResolverTimedOut,
    TransportFailed,
}

impl View for Event {
    type V = EventModel;

    open spec fn view(&self) -> EventModel {
        match self {
            Event::Proceed => EventModel::Proceed,
            Event::EvidenceReceived(document) => EventModel::EvidenceReceived(document@),
            Event::ReferenceFound(document) => EventModel::ReferenceFound(document@),
            Event::ReferenceNotFound => EventModel::ReferenceNotFound,
            Event::ResolverTimedOut => EventModel::ResolverTimedOut,
            Event::TransportFailed => EventModel::TransportFailed,
        }
    }
}

/// What the machine asks of the caller.
#[derive(Clone, Debug, PartialEq, Eq)]
pub enum Action {
    /// Step again with `Event::Proceed`.
    Proceed,
    /// Ask the attester for evidence and report what comes back.
    RequestEvidence,
    /// Ask the resolver for the reference value of this artifact.
    ResolveReference(String),
    /// The attempt is over: read its outcome.
    Stop,
}

/// What an action holds.
pub enum ActionModel {
    Proceed,
    RequestEvidence,
    ResolveReference(Seq<char>),
    Stop,
}

impl View for Action {
    type V = ActionModel;

    open spec fn view(&self) -> ActionModel {
        match self {
            Action::Proceed => ActionModel::Proceed,
            Action::RequestEvidence => ActionModel::RequestEvidence,
            Action::ResolveReference(name) => ActionModel::ResolveReference(name@),
            Action::Stop => ActionModel::Stop,
        }
    }
}

/// One verification attempt: the token issued for it, the artifact whose
/// reference value it needs, and where it stands. An attempt is made by
/// `new` and moved by `step` only, so it holds nothing that it has not
/// come by through the states before.
#[derive(Debug, PartialEq, Eq)]
pub struct Attempt {
    token: FreshnessToken,
    artifact: String,
    state: AttemptState,
}

/// What an attempt holds.
pub struct AttemptModel {
    pub token: Seq<char>,
    pub artifact: Seq<char>,
    pub state: StateModel,
}

impl View for Attempt {
    type V = AttemptModel;

    closed spec fn view(&self) -> AttemptModel {
        AttemptModel { token: self.token@, artifact: self.artifact@, state: self.state@ }
    }
}

/// Whether a state is final.
pub open spec fn is_final(state: StateModel) -> bool {
    state is Done || state is Aborted
}

/// The place of a state in the order of the attempt.
pub open spec fn rank(state: StateModel) -> nat {
    match state {
        StateModel::Init => 0,
        StateModel::AwaitingEvidence => 1,
        StateModel::Normalizing { .. } => 2,
        StateModel::BindingFreshness { .. } => 3,
        StateModel::ResolvingReferences { .. } => 4,
        StateModel::Comparing { .. } => 5,
        StateModel::Done(_) => 6,
        StateModel::Aborted(_) => 6,
    }
}

/// The state that follows `state` on `event` in an attempt that expects
/// `token`. A final state stays. Any other state moves on where the event
/// is the one it waits for, and aborts with a transport error where it is
/// not.
pub open spec fn next_state(token: Seq<char>, state: StateModel, event: EventModel) -> StateModel {
    match (state, event) {
        (StateModel::Done(_), _) => state,
        (StateModel::Aborted(_), _) => state,
        (StateModel::Init, EventModel::Proceed) => StateModel::AwaitingEvidence,
        (StateModel::AwaitingEvidence, EventModel::EvidenceReceived(document)) => {
            StateModel::Normalizing { document }
        },
        (StateModel::Normalizing { document }, EventModel::Proceed) => {
            match evidence_of_document(document) {
                None => StateModel::Aborted(AttestationError::MalformedEvidence),
                Some(evidence) => match examined(evidence) {
                    Err(error) => StateModel::Aborted(error),
                    Ok(log) => StateModel::BindingFreshness { evidence, log },
                },
            }
        },
        (StateModel::BindingFreshness { evidence, log }, EventModel::Proceed) => {
            if token_bound(evidence, token) {
                StateModel::ResolvingReferences { log }
            } else {
                StateModel::Aborted(AttestationError::FreshnessMismatch)
            }
        },
        (StateModel::ResolvingReferences { log }, EventModel::ReferenceFound(document)) => {
            match reference_of_document(document) {
                None => StateModel::Aborted(AttestationError::MalformedReference),
                Some(reference) => StateModel::Comparing { log, reference },
            }
        },
        (StateModel::ResolvingReferences { .. }, EventModel::ReferenceNotFound) => {
            StateModel::Aborted(AttestationError::ReferenceValueNotFound)
        },
        (StateModel::ResolvingReferences { .. }, EventModel::ResolverTimedOut) => {
            StateModel::Aborted(AttestationError::ResolverUnavailable)
        },
        (StateModel::Comparing { log, reference }, EventModel::Proceed) => {
            StateModel::Done(verdict_of(log, seq![reference]))
        },
        _ => StateModel::Aborted(AttestationError::TransportError),
    }
}

/// What a state asks of the caller.
pub open spec fn action_of(artifact: Seq<char>, state: StateModel) -> ActionModel {
    match state {
        StateModel::AwaitingEvidence => ActionModel::RequestEvidence,
        StateModel::ResolvingReferences { .. } => ActionModel::ResolveReference(artifact),
        StateModel::Done(_) => ActionModel::Stop,
        StateModel::Aborted(_) => ActionModel::Stop,
        _ => ActionModel::Proceed,
    }
}

/// The attempt after one event.
pub open spec fn next(attempt: AttemptModel, event: EventModel) -> AttemptModel {
    AttemptModel {
        token: attempt.token,
        artifact: attempt.artifact,
        state: next_state(attempt.token, attempt.state, event),
    }
}

/// The attempt after a run of events, taken in order.
pub open spec fn run(attempt: AttemptModel, events: Seq<EventModel>) -> AttemptModel
    decreases events.len(),
{
    if events.len() == 0 {
        attempt
    } else {
        next(run(attempt, events.drop_last()), events.last())
    }
}

/// The outcome that a state shows: none before the attempt is over.
pub open spec fn outcome_of(state: StateModel) -> Option<Result<VerdictModel, AttestationError>> {
    match state {
        StateModel::Done(verdict) => Some(Ok(verdict)),
        StateModel::Aborted(error) => Some(Err(error)),
        _ => None,
    }
}

/// The view of an outcome.
pub open spec fn outcome_view(outcome: Option<Result<&Verdict, AttestationError>>) -> Option<
    Result<VerdictModel, AttestationError>,
> {
    match outcome {
        Some(Ok(verdict)) => Some(Ok(verdict@)),
        Some(Err(error)) => Some(Err(error)),
        None => None,
    }
}

impl Attempt {
    #[verifier::type_invariant]
    spec fn holds_nothing_unfounded(self) -> bool {
        well_founded(self.token@, self.state@)
    }

    /// A fresh attempt for `artifact` that expects `token` in the evidence.
    pub fn new(token: FreshnessToken, artifact: String) -> (attempt: Attempt)
        ensures
            attempt@ == fresh(token@, artifact@),
    {
        Attempt { token, artifact, state: AttemptState::Init }
    }

    /// Where the attempt stands.
    pub fn state(&self) -> (state: &AttemptState)
        ensures
            state@ == self@.state,
    {
        &self.state
    }

    /// The token that the attempt expects in the evidence.
    pub fn token(&self) -> (token: &FreshnessToken)
        ensures
            token@ == self@.token,
    {
        &self.token
    }

    /// The artifact whose reference value the attempt needs.
    pub fn artifact(&self) -> (artifact: &String)
        ensures
            artifact@ == self@.artifact,
    {
        &self.artifact
    }

    /// What the attempt asks of the caller in its present state.
    pub fn pending(&self) -> (action: Action)
        ensures
            action@ == action_of(self@.artifact, self@.state),
    {
        match &self.state {
            AttemptState::AwaitingEvidence => Action::RequestEvidence,
            AttemptState::ResolvingReferences { .. } => Action::ResolveReference(
                self.artifact.clone(),
            ),
            AttemptState::Done(_) => Action::Stop,
            AttemptState::Aborted(_) => Action::Stop,
            _ => Action::Proceed,
        }
    }

    /// Takes one event and moves to the state that follows. Returns the
    /// attempt in its new state and what that state asks of the caller.
    pub fn step(self, event: Event) -> (r: (Attempt, Action))
        ensures
            r.0@ == next(self@, event@),
            r.1@ == action_of(self@.artifact, r.0@.state),
    {
        proof {
            use_type_invariant(&self);
            lemma_step_keeps_well_founded(self.token@, self.state@, event@);
        }
        let Attempt { token, artifact, state } = self;
        let state: AttemptState = match (state, event) {
            (AttemptState::Done(verdict), _) => AttemptState::Done(verdict),
            (AttemptState::Aborted(error), _) => AttemptState::Aborted(error),
            (AttemptState::Init, Event::Proceed) => AttemptState::AwaitingEvidence,
            (AttemptState::AwaitingEvidence, Event::EvidenceReceived(document)) => {
                AttemptState::Normalizing { document }
            },
            (AttemptState::Normalizing { document }, Event::Proceed) => {
                match Evidence::decode(document.as_str()) {
                    Err(error) => AttemptState::Aborted(error),
                    Ok(evidence) => match examine(evidence) {
                        Err(error) => AttemptState::Aborted(error),
                        Ok(candidate) => AttemptState::BindingFreshness { candidate },
                    },
                }
            },
            (AttemptState::BindingFreshness { candidate }, Event::Proceed) => {
                match candidate.accept(&token) {
                    Ok(log) => AttemptState::ResolvingReferences { log },
                    Err(error) => AttemptState::Aborted(error),
                }
            },
            (AttemptState::ResolvingReferences { log }, Event::ReferenceFound(document)) => {
                match ReferenceValue::decode(document.as_str()) {
                    Err(error) => AttemptState::Aborted(error),
                    Ok(reference) => AttemptState::Comparing { log, reference },
                }
            },
            (AttemptState::ResolvingReferences { .. }, Event::ReferenceNotFound) => {
                AttemptState::Aborted(AttestationError::ReferenceValueNotFound)
            },
            (AttemptState::ResolvingReferences { .. }, Event::ResolverTimedOut) => {
                AttemptState::Aborted(AttestationError::ResolverUnavailable)
            },
            (AttemptState::Comparing { log, reference }, Event::Proceed) => {
                let ghost model = reference@;
                let mut references: Vec<ReferenceValue> = Vec::new();
                references.push(reference);
                assert(reference_models(references@) =~= seq![model]);
                AttemptState::Done(compare(&log, &references))
            },
            _ => AttemptState::Aborted(AttestationError::TransportError),
        };
        let attempt = Attempt { token, artifact, state };
        let action = attempt.pending();
        (attempt, action)
    }

    /// The outcome of the attempt: the verdict, or the error that ended it;
    /// nothing while the attempt is under way. `Trusted` comes out only
    /// where it has been earned.
    pub fn outcome(&self) -> (r: Option<Result<&Verdict, AttestationError>>)
        ensures
            outcome_view(r) == outcome_of(self@.state),
            outcome_view(r) == Some(
                Ok::<VerdictModel, AttestationError>(VerdictModel::Trusted),
            ) ==> trust_is_earned(self@.token),
    {
        proof {
            use_type_invariant(self);
            if self.state@ == StateModel::Done(VerdictModel::Trusted) {
                lemma_trusted_state_is_earned(self.token@, self.state@);
            }
        }
        match &self.state {
            AttemptState::Done(verdict) => Some(Ok(verdict)),
            AttemptState::Aborted(error) => Some(Err(*error)),
            _ => None,
        }
    }
}

/// A fresh attempt.
pub open spec fn fresh(token: Seq<char>, artifact: Seq<char>) -> AttemptModel {
    AttemptModel { token, artifact, state: StateModel::Init }
}

/// Whether `document` is evidence that carries `token`.
pub open spec fn carries_token(document: Seq<char>, token: Seq<char>) -> bool {
    match evidence_of_document(document) {
        Some(evidence) => token_bound(evidence, token),
        None => false,
    }
}

/// The events of an attempt that goes well, from its start to its verdict.
pub open spec fn full_course(evidence: Seq<char>, reference: Seq<char>) -> Seq<EventModel> {
    seq![
        EventModel::Proceed,
        EventModel::EvidenceReceived(evidence),
        EventModel::Proceed,
        EventModel::Proceed,
        EventModel::ReferenceFound(reference),
        EventModel::Proceed,
    ]
}

/// The events of an attempt up to the check of the freshness token.
pub open spec fn course_to_binding(evidence: Seq<char>) -> Seq<EventModel> {
    seq![
        EventModel::Proceed,
        EventModel::EvidenceReceived(evidence),
        EventModel::Proceed,
        EventModel::Proceed,
    ]
}

/// Running one event more is taking one step more.
pub proof fn lemma_run_push(attempt: AttemptModel, events: Seq<EventModel>, event: EventModel)
    ensures
        run(attempt, events.push(event)) == next(run(attempt, events), event),
{
    assert(events.push(event).drop_last() =~= events);
}

/// A run keeps the token and the artifact of the attempt.
pub proof fn lemma_run_keeps_identity(attempt: AttemptModel, events: Seq<EventModel>)
    ensures
        run(attempt, events).token == attempt.token,
        run(attempt, events).artifact == attempt.artifact,
    decreases events.len(),
{
    if events.len() > 0 {
        lemma_run_keeps_identity(attempt, events.drop_last());
    }
}

/// Every step out of a state that is not final leads to a later state, so
/// no state is entered twice; a final state is never left.
pub proof fn lemma_states_are_passed_in_order(
    token: Seq<char>,
    state: StateModel,
    event: EventModel,
)
    ensures
        is_final(state) ==> next_state(token, state, event) == state,
        !is_final(state) ==> rank(next_state(token, state, event)) > rank(state),
{
}

/// Whether what a state holds has been come by rightly: a log past the
/// freshness check is the log of evidence that normalises against the
/// token, and a verdict is the verdict on such a log.
pub open spec fn well_founded(token: Seq<char>, state: StateModel) -> bool {
    match state {
        StateModel::BindingFreshness { evidence, log } => examined(evidence) == Ok::<
            LogModel,
            AttestationError,
        >(log),
        StateModel::ResolvingReferences { log } => exists|evidence: EvidenceModel|
            #[trigger] normalized(evidence, token) == Ok::<LogModel, AttestationError>(log),
        StateModel::Comparing { log, reference } => exists|evidence: EvidenceModel|
            #[trigger] normalized(evidence, token) == Ok::<LogModel, AttestationError>(log),
        StateModel::Done(verdict) => exists|
            evidence: EvidenceModel,
            log: LogModel,
            reference: ReferenceModel,
        |
            #[trigger] normalized(evidence, token) == Ok::<LogModel, AttestationError>(log)
                && verdict == #[trigger] verdict_of(log, seq![reference]),
        _ => true,
    }
}

/// A step keeps what the states hold rightly come by.
pub proof fn lemma_step_keeps_well_founded(token: Seq<char>, state: StateModel, event: EventModel)
    requires
        well_founded(token, state),
    ensures
        well_founded(token, next_state(token, state, event)),
{
    let after = next_state(token, state, event);
    match (state, event) {
        (StateModel::BindingFreshness { evidence, log }, EventModel::Proceed) => {
            if token_bound(evidence, token) {
                assert(normalized(evidence, token) == Ok::<LogModel, AttestationError>(log));
            }
        },
        (StateModel::ResolvingReferences { log }, EventModel::ReferenceFound(document)) => {
            let evidence = choose|evidence: EvidenceModel|
                #[trigger] normalized(evidence, token) == Ok::<LogModel, AttestationError>(log);
            assert(normalized(evidence, token) == Ok::<LogModel, AttestationError>(log));
        },
        (StateModel::Comparing { log, reference }, EventModel::Proceed) => {
            let evidence = choose|evidence: EvidenceModel|
                #[trigger] normalized(evidence, token) == Ok::<LogModel, AttestationError>(log);
            assert(normalized(evidence, token) == Ok::<LogModel, AttestationError>(log) && after
                == StateModel::Done(verdict_of(log, seq![reference])));
        },
        _ => {},
    }
}

/// Whatever the events, an attempt holds only what it has rightly come by.
pub proof fn lemma_run_is_well_founded(
    token: Seq<char>,
    artifact: Seq<char>,
    events: Seq<EventModel>,
)
    ensures
        well_founded(token, run(fresh(token, artifact), events).state),
    decreases events.len(),
{
    if events.len() > 0 {
        lemma_run_is_well_founded(token, artifact, events.drop_last());
        lemma_run_keeps_identity(fresh(token, artifact), events.drop_last());
        lemma_step_keeps_well_founded(
            token,
            run(fresh(token, artifact), events.drop_last()).state,
            events.last(),
        );
    }
}

/// Whether there is evidence that normalises against `token`, so that it
/// is of a supported environment, sealed, well formed and bound to the
/// token, and a reference value that the log of this evidence satisfies:
/// the measurement is there, it is an accepted alternative, and nothing has
/// expired.
pub open spec fn trust_is_earned(token: Seq<char>) -> bool {
    exists|evidence: EvidenceModel, log: LogModel, reference: ReferenceModel|
        #[trigger] normalized(evidence, token) == Ok::<LogModel, AttestationError>(log)
            && token_bound(evidence, token) && #[trigger] satisfies(log, reference)
}

/// A state that holds `Trusted` rightly come by holds trust that is earned.
pub proof fn lemma_trusted_state_is_earned(token: Seq<char>, state: StateModel)
    requires
        well_founded(token, state),
        state == StateModel::Done(VerdictModel::Trusted),
    ensures
        trust_is_earned(token),
{
    let (evidence, log, reference) = choose|
        evidence: EvidenceModel,
        log: LogModel,
        reference: ReferenceModel,
    |
        #[trigger] normalized(evidence, token) == Ok::<LogModel, AttestationError>(log)
            && VerdictModel::Trusted == #[trigger] verdict_of(log, seq![reference]);
    lemma_trusted_iff_all_satisfied(log, seq![reference]);
    assert(seq![reference][0] == reference);
    assert(normalized(evidence, token) == Ok::<LogModel, AttestationError>(log) && token_bound(
        evidence,
        token,
    ) && satisfies(log, reference));
}

/// No run of events brings an attempt to `Trusted` unless the trust is
/// earned: partial success is never taken for the whole.
pub proof fn lemma_trusted_is_earned(
    token: Seq<char>,
    artifact: Seq<char>,
    events: Seq<EventModel>,
)
    requires
        run(fresh(token, artifact), events).state == StateModel::Done(VerdictModel::Trusted),
    ensures
        trust_is_earned(token),
{
    lemma_run_is_well_founded(token, artifact, events);
    lemma_trusted_state_is_earned(token, run(fresh(token, artifact), events).state);
}

/// Evidence of a supported environment that is sealed and well formed and
/// carries the token, with a reference value that its log satisfies, brings
/// the attempt to `Trusted`.
pub proof fn lemma_sound_evidence_is_trusted(
    token: Seq<char>,
    artifact: Seq<char>,
    evidence_document: Seq<char>,
    reference_document: Seq<char>,
)
    requires
        evidence_of_document(evidence_document) matches Some(evidence) && (normalized(
            evidence,
            token,
        ) matches Ok(log) && (reference_of_document(reference_document) matches Some(reference)
            && satisfies(log, reference))),
    ensures
        run(fresh(token, artifact), full_course(evidence_document, reference_document)).state
            == StateModel::Done(VerdictModel::Trusted),
{
    let evidence = evidence_of_document(evidence_document).unwrap();
    let log = normalized(evidence, token).unwrap();
    let reference = reference_of_document(reference_document).unwrap();
    let start = fresh(token, artifact);
    let e0 = Seq::<EventModel>::empty();
    let e1 = e0.push(EventModel::Proceed);
    let e2 = e1.push(EventModel::EvidenceReceived(evidence_document));
    let e3 = e2.push(EventModel::Proceed);
    let e4 = e3.push(EventModel::Proceed);
    let e5 = e4.push(EventModel::ReferenceFound(reference_document));
    let e6 = e5.push(EventModel::Proceed);
    assert(e6 =~= full_course(evidence_document, reference_document));
    lemma_run_push(start, e0, EventModel::Proceed);
    lemma_run_push(start, e1, EventModel::EvidenceReceived(evidence_document));
    lemma_run_push(start, e2, EventModel::Proceed);
    lemma_run_push(start, e3, EventModel::Proceed);
    lemma_run_push(start, e4, EventModel::ReferenceFound(reference_document));
    lemma_run_push(start, e5, EventModel::Proceed);
    assert(run(start, e0) == start);
    assert(run(start, e3).state == StateModel::BindingFreshness { evidence, log });
    assert(run(start, e4).state == StateModel::ResolvingReferences { log });
    assert(run(start, e5).state == StateModel::Comparing { log, reference });
    lemma_trusted_iff_all_satisfied(log, seq![reference]);
}

/// Evidence that is otherwise sound but does not carry the token ends the
/// attempt with a freshness mismatch.
pub proof fn lemma_unbound_evidence_is_a_freshness_mismatch(
    token: Seq<char>,
    artifact: Seq<char>,
    evidence_document: Seq<char>,
)
    requires
        evidence_of_document(evidence_document) matches Some(evidence) && examined(evidence)
            is Ok && !token_bound(evidence, token),
    ensures
        run(fresh(token, artifact), course_to_binding(evidence_document)).state
            == StateModel::Aborted(AttestationError::FreshnessMismatch),
{
    let start = fresh(token, artifact);
    let e0 = Seq::<EventModel>::empty();
    let e1 = e0.push(EventModel::Proceed);
    let e2 = e1.push(EventModel::EvidenceReceived(evidence_document));
    let e3 = e2.push(EventModel::Proceed);
    let e4 = e3.push(EventModel::Proceed);
    assert(e4 =~= course_to_binding(evidence_document));
    lemma_run_push(start, e0, EventModel::Proceed);
    lemma_run_push(start, e1, EventModel::EvidenceReceived(evidence_document));
    lemma_run_push(start, e2, EventModel::Proceed);
    lemma_run_push(start, e3, EventModel::Proceed);
    assert(run(start, e0) == start);
}

/// Whether a state lies before the point at which the freshness check has
/// been passed, or is the end of a failed attempt.
pub open spec fn before_acceptance(token: Seq<char>, state: StateModel) -> bool {
    match state {
        StateModel::Init => true,
        StateModel::AwaitingEvidence => true,
        StateModel::Normalizing { document } => !carries_token(document, token),
        StateModel::BindingFreshness { evidence, log } => !token_bound(evidence, token),
        StateModel::Aborted(_) => true,
        _ => false,
    }
}

/// Where no evidence that reaches the attempt carries its token, be the
/// token wrong or missing, the attempt never gets to resolve references, to
/// compare or to render a verdict, whatever else happens.
pub proof fn lemma_unbound_evidence_is_never_compared(
    token: Seq<char>,
    artifact: Seq<char>,
    events: Seq<EventModel>,
)
    requires
        forall|i: int|
            0 <= i < events.len() ==> (#[trigger] events[i] matches EventModel::EvidenceReceived(
                document,
            ) ==> !carries_token(document, token)),
    ensures
        before_acceptance(token, run(fresh(token, artifact), events).state),
        !(run(fresh(token, artifact), events).state is ResolvingReferences),
        !(run(fresh(token, artifact), events).state is Comparing),
        !(run(fresh(token, artifact), events).state is Done),
    decreases events.len(),
{
    if events.len() > 0 {
        let front = events.drop_last();
        assert forall|i: int| 0 <= i < front.len() implies (
        #[trigger] front[i] matches EventModel::EvidenceReceived(document) ==> !carries_token(
            document,
            token,
        )) by {
            assert(front[i] == events[i]);
        }
        lemma_unbound_evidence_is_never_compared(token, artifact, front);
        lemma_run_keeps_identity(fresh(token, artifact), front);
        assert(events.last() == events[events.len() - 1]);
    }
}

} // verus!
