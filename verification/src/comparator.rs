//! The policy comparator: holds an event log against a set of reference
//! values and says whether the measured environment is to be trusted.

use vstd::prelude::*;
use crate::event_log::{EventLog, LogModel, MeasurementRecord, RecordModel};
use crate::reference::{reference_models, ReferenceModel, ReferenceValue};
use crate::text::same_text;

verus! {

/// One reason for which a log fails a reference value, with the name of
/// the measurement concerned.
#[derive(Clone, Debug, PartialEq, Eq)]
pub enum Failure {
    /// The log holds no measurement of that name.
    MissingMeasurement(String),
    /// A measurement of that name equals none of the alternatives.
    ValueMismatch(String),
    /// The evidence is dated outside the validity window of the reference.
    Expired(String),
}

/// What a failure says.
pub enum FailureModel {
    MissingMeasurement(Seq<char>),
    ValueMismatch(Seq<char>),
    Expired(Seq<char>),
}

impl View for Failure {
    type V = FailureModel;

    open spec fn view(&self) -> FailureModel {
        match self {
            Failure::MissingMeasurement(name) => FailureModel::MissingMeasurement(name@),
            Failure::ValueMismatch(name) => FailureModel::ValueMismatch(name@),
            Failure::Expired(name) => FailureModel::Expired(name@),
        }
    }
}

/// The outcome of one comparison. A rejection carries every failure found,
/// in the order of the reference values.
#[derive(Clone, Debug, PartialEq, Eq)]
pub enum Verdict {
    Trusted,
    Rejected(Vec<Failure>),
}

/// What a verdict says.
pub enum VerdictModel {
    Trusted,
    Rejected(Seq<FailureModel>),
}

/// The views of `failures`, in order.
pub open spec fn failure_models(failures: Seq<Failure>) -> Seq<FailureModel> {
    Seq::new(failures.len(), |i: int| failures[i]@)
}

impl View for Verdict {
    type V = VerdictModel;

    open spec fn view(&self) -> VerdictModel {
        match self {
            Verdict::Trusted => VerdictModel::Trusted,
            Verdict::Rejected(failures) => VerdictModel::Rejected(failure_models(failures@)),
        }
    }
}

/// Whether the log holds no measurement called `name`.
pub open spec fn is_missing(log: LogModel, name: Seq<char>) -> bool {
    forall|i: int| 0 <= i < log.records.len() ==> (#[trigger] log.records[i]).name != name
}

/// Whether the log holds a measurement of the reference's name whose value
/// is none of the alternatives.
pub open spec fn is_mismatched(log: LogModel, reference: ReferenceModel) -> bool {
    exists|i: int|
        0 <= i < log.records.len() && (#[trigger] log.records[i]).name == reference.name
            && !reference.alternatives.contains(log.records[i].value)
}

/// Whether the log is dated, the reference has a validity window, and the
/// date lies outside the window.
pub open spec fn is_expired(log: LogModel, reference: ReferenceModel) -> bool {
    match (log.timestamp, reference.validity) {
        (Some(t), Some(window)) => !window.covers(t),
        _ => false,
    }
}

/// Whether the log meets the reference: a measurement of that name is
/// there, every measurement of that name is an accepted alternative, and
/// the reference has not expired.
pub open spec fn satisfies(log: LogModel, reference: ReferenceModel) -> bool {
    !is_missing(log, reference.name) && !is_mismatched(log, reference) && !is_expired(
        log,
        reference,
    )
}

/// The failures of the log against one reference: at most one about the
/// measurement, then at most one about the date.
pub open spec fn entry_failures(log: LogModel, reference: ReferenceModel) -> Seq<FailureModel> {
    let about_value = if is_missing(log, reference.name) {
        seq![FailureModel::MissingMeasurement(reference.name)]
    } else if is_mismatched(log, reference) {
        seq![FailureModel::ValueMismatch(reference.name)]
    } else {
        Seq::empty()
    };
    let about_date = if is_expired(log, reference) {
        seq![FailureModel::Expired(reference.name)]
    } else {
        Seq::empty()
    };
    about_value + about_date
}

/// The failures of the log against all references, reference by reference.
pub open spec fn failures_of(log: LogModel, references: Seq<ReferenceModel>) -> Seq<FailureModel>
    decreases references.len(),
{
    if references.len() == 0 {
        Seq::empty()
    } else {
        failures_of(log, references.drop_last()) + entry_failures(log, references.last())
    }
}

/// The verdict on a log: trusted where there is no failure, else rejected
/// with all of them.
pub open spec fn verdict_of(log: LogModel, references: Seq<ReferenceModel>) -> VerdictModel {
    let failures = failures_of(log, references);
    if failures.len() == 0 {
        VerdictModel::Trusted
    } else {
        VerdictModel::Rejected(failures)
    }
}

/// Whether `value` is one of the alternatives of `reference`.
pub fn accepts_value(reference: &ReferenceValue, value: &str) -> (r: bool)
    ensures
        r == reference@.alternatives.contains(value@),
{
    let n: usize = reference.alternatives.len();
    let mut i: usize = 0;
    while i < n
        invariant
            n == reference.alternatives@.len(),
            i <= n,
            forall|j: int| 0 <= j < i ==> reference@.alternatives[j] != value@,
        decreases n - i,
    {
        assert(reference@.alternatives[i as int] == reference.alternatives@[i as int]@);
        if same_text(reference.alternatives[i].as_str(), value) {
            return true;
        }
        i += 1;
    }
    false
}

/// Looks through the log for measurements of the reference's name: whether
/// there is one, and whether one of them is not accepted.
pub fn survey(log: &EventLog, reference: &ReferenceValue) -> (r: (bool, bool))
    ensures
        r.0 == !is_missing(log@, reference@.name),
        r.1 == is_mismatched(log@, reference@),
{
    let n: usize = log.records.len();
    let mut found: bool = false;
    let mut refused: bool = false;
    let mut i: usize = 0;
    while i < n
        invariant
            n == log.records@.len(),
            i <= n,
            found <==> exists|j: int|
                0 <= j < i && (#[trigger] log@.records[j]).name == reference@.name,
            refused <==> exists|j: int|
                0 <= j < i && (#[trigger] log@.records[j]).name == reference@.name
                    && !reference@.alternatives.contains(log@.records[j].value),
        decreases n - i,
    {
        let record: &MeasurementRecord = &log.records[i];
        assert(log@.records[i as int] == record@);
        if same_text(record.name.as_str(), reference.name.as_str()) {
            found = true;
            if !accepts_value(reference, record.value.as_str()) {
                refused = true;
            }
        }
        i += 1;
    }
    (found, refused)
}

/// Whether the date of the log lies outside the reference's window.
pub fn expired(log: &EventLog, reference: &ReferenceValue) -> (r: bool)
    ensures
        r == is_expired(log@, reference@),
{
    match (log.timestamp, reference.validity) {
        (Some(t), Some(window)) => !window.contains(t),
        _ => false,
    }
}

/// Compares the log with the references and renders the verdict. Each
/// reference is held against the measurements of its name; measurements
/// that no reference names are left aside. The verdict is `Trusted` only
/// where no reference fails, and a rejection lists every failure.
pub fn compare(log: &EventLog, references: &Vec<ReferenceValue>) -> (verdict: Verdict)
    ensures
        verdict@ == verdict_of(log@, reference_models(references@)),
{
    let ghost models = reference_models(references@);
    let n: usize = references.len();
    let mut failures: Vec<Failure> = Vec::new();
    let mut i: usize = 0;
    assert(models.take(0) =~= Seq::empty());
    assert(failure_models(failures@) =~= Seq::empty());
    while i < n
        invariant
            n == references@.len(),
            i <= n,
            models == reference_models(references@),
            failure_models(failures@) == failures_of(log@, models.take(i as int)),
        decreases n - i,
    {
        let reference: &ReferenceValue = &references[i];
        let ghost before = failure_models(failures@);
        proof {
            assert(models.take(i + 1).drop_last() =~= models.take(i as int));
            assert(models.take(i + 1).last() == reference@);
        }
        let (found, refused) = survey(log, reference);
        if !found {
            failures.push(Failure::MissingMeasurement(reference.name.clone()));
        } else if refused {
            failures.push(Failure::ValueMismatch(reference.name.clone()));
        }
        let ghost middle = failure_models(failures@);
        if expired(log, reference) {
            failures.push(Failure::Expired(reference.name.clone()));
        }
        proof {
            let about_value = if is_missing(log@, reference@.name) {
                seq![FailureModel::MissingMeasurement(reference@.name)]
            } else if is_mismatched(log@, reference@) {
                seq![FailureModel::ValueMismatch(reference@.name)]
            } else {
                Seq::empty()
            };
            assert(middle =~= before + about_value);
            assert(failure_models(failures@) =~= before + entry_failures(log@, reference@));
        }
        i += 1;
    }
    assert(models.take(n as int) =~= models);
    if failures.len() == 0 {
        Verdict::Trusted
    } else {
        Verdict::Rejected(failures)
    }
}

/// A failure is listed for the whole set exactly where it is a failure
/// against one of the references.
pub proof fn lemma_failure_comes_from_a_reference(
    log: LogModel,
    references: Seq<ReferenceModel>,
    failure: FailureModel,
)
    ensures
        failures_of(log, references).contains(failure) <==> exists|i: int|
            0 <= i < references.len() && (#[trigger] entry_failures(log, references[i])).contains(
                failure,
            ),
    decreases references.len(),
{
    if references.len() > 0 {
        let front = references.drop_last();
        let last = references.last();
        let a = failures_of(log, front);
        let b = entry_failures(log, last);
        lemma_failure_comes_from_a_reference(log, front, failure);
        if (a + b).contains(failure) {
            let k = choose|k: int| 0 <= k < (a + b).len() && (a + b)[k] == failure;
            if k < a.len() {
                assert(a[k] == failure);
                let i = choose|i: int|
                    0 <= i < front.len() && (#[trigger] entry_failures(log, front[i])).contains(
                        failure,
                    );
                assert(references[i] == front[i]);
            } else {
                assert(b[k - a.len()] == failure);
                assert(entry_failures(log, references[references.len() - 1]).contains(failure));
            }
        }
        if exists|i: int|
            0 <= i < references.len() && (#[trigger] entry_failures(log, references[i])).contains(
                failure,
            ) {
            let i = choose|i: int|
                0 <= i < references.len() && (#[trigger] entry_failures(
                    log,
                    references[i],
                )).contains(failure);
            if i < front.len() {
                assert(front[i] == references[i]);
                assert(entry_failures(log, front[i]).contains(failure));
                let k = choose|k: int| 0 <= k < a.len() && a[k] == failure;
                assert((a + b)[k] == failure);
            } else {
                let k = choose|k: int| 0 <= k < b.len() && b[k] == failure;
                assert((a + b)[a.len() + k] == failure);
            }
        }
    }
}

/// The failures against one reference are exactly those that hold of it:
/// a missing measurement; else a mismatch; and, beside either, an expiry.
pub proof fn lemma_entry_failures(log: LogModel, reference: ReferenceModel)
    ensures
        entry_failures(log, reference).contains(
            FailureModel::MissingMeasurement(reference.name),
        ) <==> is_missing(log, reference.name),
        entry_failures(log, reference).contains(FailureModel::ValueMismatch(reference.name))
            <==> !is_missing(log, reference.name) && is_mismatched(log, reference),
        entry_failures(log, reference).contains(FailureModel::Expired(reference.name))
            <==> is_expired(log, reference),
        entry_failures(log, reference).len() == 0 <==> satisfies(log, reference),
{
    let failures = entry_failures(log, reference);
    if is_missing(log, reference.name) {
        assert(failures[0] == FailureModel::MissingMeasurement(reference.name));
    } else if is_mismatched(log, reference) {
        assert(failures[0] == FailureModel::ValueMismatch(reference.name));
    }
    if is_expired(log, reference) {
        assert(failures[failures.len() - 1] == FailureModel::Expired(reference.name));
    }
}

/// The verdict is `Trusted` exactly where the log satisfies every reference:
/// each required measurement is there, each measurement of a required name
/// is an accepted alternative, and no reference has expired. A single
/// failure anywhere makes the verdict a rejection.
pub proof fn lemma_trusted_iff_all_satisfied(log: LogModel, references: Seq<ReferenceModel>)
    ensures
        verdict_of(log, references) == VerdictModel::Trusted <==> forall|i: int|
            0 <= i < references.len() ==> satisfies(log, #[trigger] references[i]),
    decreases references.len(),
{
    if references.len() > 0 {
        let front = references.drop_last();
        let last = references.last();
        lemma_trusted_iff_all_satisfied(log, front);
        lemma_entry_failures(log, last);
        if forall|i: int| 0 <= i < references.len() ==> satisfies(log, #[trigger] references[i]) {
            assert forall|i: int| 0 <= i < front.len() implies satisfies(
                log,
                #[trigger] front[i],
            ) by {
                assert(front[i] == references[i]);
            }
            assert(satisfies(log, references[references.len() - 1]));
        }
        if verdict_of(log, references) == VerdictModel::Trusted {
            assert forall|i: int| 0 <= i < references.len() implies satisfies(
                log,
                #[trigger] references[i],
            ) by {
                if i < front.len() {
                    assert(front[i] == references[i]);
                }
            }
        }
    }
}

/// Whether `value` equals the alternative of `reference` at some place.
pub open spec fn equals_some_alternative(reference: ReferenceModel, value: Seq<char>) -> bool {
    exists|k: int| 0 <= k < reference.alternatives.len() && reference.alternatives[k] == value
}

/// The alternatives of a reference are a disjunction. Where the log holds
/// a measurement of the reference's name and each such measurement equals
/// an alternative, whichever and at whatever place, the reference yields no
/// failure about the measurement. Where one such measurement equals none of
/// them, the verdict on any set that holds the reference is a rejection
/// that lists the mismatch.
pub proof fn lemma_any_alternative_is_accepted(
    log: LogModel,
    references: Seq<ReferenceModel>,
    i: int,
    j: int,
)
    requires
        0 <= i < references.len(),
        0 <= j < log.records.len(),
        log.records[j].name == references[i].name,
    ensures
        (forall|m: int|
            0 <= m < log.records.len() && (#[trigger] log.records[m]).name == references[i].name
                ==> equals_some_alternative(references[i], log.records[m].value))
            ==> !entry_failures(log, references[i]).contains(
            FailureModel::ValueMismatch(references[i].name),
        ) && !entry_failures(log, references[i]).contains(
            FailureModel::MissingMeasurement(references[i].name),
        ),
        !equals_some_alternative(references[i], log.records[j].value) ==> (verdict_of(
            log,
            references,
        ) matches VerdictModel::Rejected(failures) && failures.contains(
            FailureModel::ValueMismatch(references[i].name),
        )),
{
    let reference = references[i];
    lemma_entry_failures(log, reference);
    lemma_failure_comes_from_a_reference(
        log,
        references,
        FailureModel::ValueMismatch(reference.name),
    );
    assert(!is_missing(log, reference.name));
    if forall|m: int|
        0 <= m < log.records.len() && (#[trigger] log.records[m]).name == reference.name
            ==> equals_some_alternative(reference, log.records[m].value) {
        if is_mismatched(log, reference) {
            let m = choose|m: int|
                0 <= m < log.records.len() && (#[trigger] log.records[m]).name == reference.name
                    && !reference.alternatives.contains(log.records[m].value);
            assert(equals_some_alternative(reference, log.records[m].value));
        }
    }
    if !equals_some_alternative(reference, log.records[j].value) {
        assert(!reference.alternatives.contains(log.records[j].value));
        assert(is_mismatched(log, reference));
    }
}

/// A required measurement that the log lacks makes the verdict a rejection
/// that lists it as missing. This holds of each reference by itself, so
/// several deficiencies all appear in the one verdict.
pub proof fn lemma_missing_measurement_is_reported(
    log: LogModel,
    references: Seq<ReferenceModel>,
    i: int,
)
    requires
        0 <= i < references.len(),
        is_missing(log, references[i].name),
    ensures
        verdict_of(log, references) matches VerdictModel::Rejected(failures) && failures.contains(
            FailureModel::MissingMeasurement(references[i].name),
        ),
{
    let reference = references[i];
    lemma_entry_failures(log, reference);
    lemma_failure_comes_from_a_reference(
        log,
        references,
        FailureModel::MissingMeasurement(reference.name),
    );
}

/// A reference that has expired makes the verdict a rejection that lists
/// the expiry, whatever else fails.
pub proof fn lemma_expiry_is_reported(log: LogModel, references: Seq<ReferenceModel>, i: int)
    requires
        0 <= i < references.len(),
        is_expired(log, references[i]),
    ensures
        verdict_of(log, references) matches VerdictModel::Rejected(failures) && failures.contains(
            FailureModel::Expired(references[i].name),
        ),
{
    let reference = references[i];
    lemma_entry_failures(log, reference);
    lemma_failure_comes_from_a_reference(log, references, FailureModel::Expired(reference.name));
}

/// Comparing is a function of the log and the references: two runs on the
/// same pair render the same verdict.
pub proof fn lemma_comparison_is_repeatable(
    log: LogModel,
    references: Seq<ReferenceModel>,
    first: Verdict,
    second: Verdict,
)
    requires
        first@ == verdict_of(log, references),
        second@ == verdict_of(log, references),
    ensures
        first@ == second@,
{
}

/// A measurement that no reference names does not change the verdict.
pub proof fn lemma_unnamed_measurement_is_ignored(
    log: LogModel,
    references: Seq<ReferenceModel>,
    extra: RecordModel,
)
    requires
        forall|i: int| 0 <= i < references.len() ==> (#[trigger] references[i]).name != extra.name,
    ensures
        verdict_of(
            LogModel { records: log.records.push(extra), timestamp: log.timestamp },
            references,
        ) == verdict_of(log, references),
{
    lemma_unnamed_keeps_failures(log, references, extra);
}

/// A measurement that no reference names leaves every failure as it was.
proof fn lemma_unnamed_keeps_failures(
    log: LogModel,
    references: Seq<ReferenceModel>,
    extra: RecordModel,
)
    requires
        forall|i: int| 0 <= i < references.len() ==> (#[trigger] references[i]).name != extra.name,
    ensures
        failures_of(
            LogModel { records: log.records.push(extra), timestamp: log.timestamp },
            references,
        ) == failures_of(log, references),
    decreases references.len(),
{
    let longer = LogModel { records: log.records.push(extra), timestamp: log.timestamp };
    if references.len() > 0 {
        let front = references.drop_last();
        let last = references.last();
        assert forall|i: int| 0 <= i < front.len() implies (#[trigger] front[i]).name
            != extra.name by {
            assert(front[i] == references[i]);
        }
        lemma_unnamed_keeps_failures(log, front, extra);
        assert(last == references[references.len() - 1]);
        assert(last.name != extra.name);
        assert(is_missing(longer, last.name) <==> is_missing(log, last.name)) by {
            if is_missing(log, last.name) {
                assert forall|j: int| 0 <= j < longer.records.len() implies (
                #[trigger] longer.records[j]).name != last.name by {
                    if j < log.records.len() {
                        assert(longer.records[j] == log.records[j]);
                    }
                }
            }
            if is_missing(longer, last.name) {
                assert forall|j: int| 0 <= j < log.records.len() implies (
                #[trigger] log.records[j]).name != last.name by {
                    assert(longer.records[j] == log.records[j]);
                }
            }
        }
        assert(is_mismatched(longer, last) <==> is_mismatched(log, last)) by {
            if is_mismatched(log, last) {
                let j = choose|j: int|
                    0 <= j < log.records.len() && (#[trigger] log.records[j]).name == last.name
                        && !last.alternatives.contains(log.records[j].value);
                assert(longer.records[j] == log.records[j]);
            }
            if is_mismatched(longer, last) {
                let j = choose|j: int|
                    0 <= j < longer.records.len() && (#[trigger] longer.records[j]).name
                        == last.name && !last.alternatives.contains(longer.records[j].value);
                assert(longer.records[j] == log.records[j]);
            }
        }
    }
}

} // verus!
