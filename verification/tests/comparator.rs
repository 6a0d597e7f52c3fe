use remote_attestation::comparator::{accepts_value, compare, expired, survey, Failure, Verdict};
use remote_attestation::event_log::EventLog;
use remote_attestation::reference::{ReferenceValue, ValidityWindow};

fn log_of(entries: &[(&str, &str)], timestamp: Option<u64>) -> EventLog {
    let mut log = EventLog::new(timestamp);
    for (name, value) in entries {
        log.push(name.to_string(), value.to_string());
    }
    log
}

fn reference(name: &str, alternatives: &[&str]) -> ReferenceValue {
    ReferenceValue {
        name: name.to_string(),
        alternatives: alternatives.iter().map(|a| a.to_string()).collect(),
        validity: None,
    }
}

fn windowed(name: &str, alternatives: &[&str], not_before: u64, not_after: u64) -> ReferenceValue {
    ReferenceValue {
        name: name.to_string(),
        alternatives: alternatives.iter().map(|a| a.to_string()).collect(),
        validity: Some(ValidityWindow { not_before, not_after }),
    }
}

fn boot_log() -> EventLog {
    log_of(&[("boot-loader", "abc123"), ("kernel", "def456")], None)
}

#[test]
fn matching_log_is_trusted() {
    let references = vec![
        reference("boot-loader", &["abc123"]),
        reference("kernel", &["def456", "def789"]),
    ];
    assert_eq!(compare(&boot_log(), &references), Verdict::Trusted);
}

#[test]
fn one_mismatch_is_the_only_failure() {
    let references = vec![
        reference("boot-loader", &["zzz999"]),
        reference("kernel", &["def456"]),
    ];
    assert_eq!(
        compare(&boot_log(), &references),
        Verdict::Rejected(vec![Failure::ValueMismatch("boot-loader".to_string())])
    );
}

#[test]
fn required_measurement_that_is_absent_is_missing() {
    let references = vec![reference("firmware", &["f00"])];
    assert_eq!(
        compare(&boot_log(), &references),
        Verdict::Rejected(vec![Failure::MissingMeasurement("firmware".to_string())])
    );
}

#[test]
fn any_alternative_is_accepted_whatever_its_place() {
    let log = log_of(&[("kernel", "def789")], None);
    for alternatives in [
        vec!["def789", "def456", "def000"],
        vec!["def456", "def789", "def000"],
        vec!["def456", "def000", "def789"],
    ] {
        let references = vec![reference("kernel", &alternatives)];
        assert_eq!(compare(&log, &references), Verdict::Trusted);
    }
    let references = vec![reference("kernel", &["def456", "def000"])];
    assert_eq!(
        compare(&log, &references),
        Verdict::Rejected(vec![Failure::ValueMismatch("kernel".to_string())])
    );
}

#[test]
fn all_deficiencies_appear_in_one_verdict() {
    let log = log_of(&[("boot-loader", "abc123"), ("kernel", "def456")], Some(500));
    let references = vec![
        reference("firmware", &["f00"]),
        windowed("boot-loader", &["zzz999"], 0, 100),
        reference("initrd", &["1d"]),
        windowed("kernel", &["def456"], 600, 700),
    ];
    assert_eq!(
        compare(&log, &references),
        Verdict::Rejected(vec![
            Failure::MissingMeasurement("firmware".to_string()),
            Failure::ValueMismatch("boot-loader".to_string()),
            Failure::Expired("boot-loader".to_string()),
            Failure::MissingMeasurement("initrd".to_string()),
            Failure::Expired("kernel".to_string()),
        ])
    );
}

#[test]
fn measurements_without_a_reference_are_ignored() {
    let log = log_of(
        &[("boot-loader", "abc123"), ("debug-shell", "anything"), ("kernel", "def456")],
        None,
    );
    let references = vec![reference("kernel", &["def456"])];
    assert_eq!(compare(&log, &references), Verdict::Trusted);
}

#[test]
fn no_references_means_nothing_can_fail() {
    assert_eq!(compare(&boot_log(), &Vec::new()), Verdict::Trusted);
    assert_eq!(compare(&EventLog::new(None), &Vec::new()), Verdict::Trusted);
}

#[test]
fn empty_log_misses_every_required_name() {
    let references = vec![reference("kernel", &["def456"])];
    assert_eq!(
        compare(&EventLog::new(None), &references),
        Verdict::Rejected(vec![Failure::MissingMeasurement("kernel".to_string())])
    );
}

#[test]
fn reference_without_alternatives_accepts_nothing() {
    let references = vec![reference("kernel", &[])];
    assert_eq!(
        compare(&boot_log(), &references),
        Verdict::Rejected(vec![Failure::ValueMismatch("kernel".to_string())])
    );
}

#[test]
fn every_measurement_of_a_name_must_be_accepted() {
    let log = log_of(&[("kernel", "def456"), ("kernel", "evil")], None);
    let references = vec![reference("kernel", &["def456"])];
    assert_eq!(
        compare(&log, &references),
        Verdict::Rejected(vec![Failure::ValueMismatch("kernel".to_string())])
    );
    let both = vec![reference("kernel", &["def456", "evil"])];
    assert_eq!(compare(&log, &both), Verdict::Trusted);
}

#[test]
fn validity_window_is_inclusive_and_needs_a_date() {
    let references = vec![windowed("kernel", &["def456"], 100, 200)];
    for (timestamp, trusted) in [
        (None, true),
        (Some(99), false),
        (Some(100), true),
        (Some(150), true),
        (Some(200), true),
        (Some(201), false),
    ] {
        let log = log_of(&[("kernel", "def456")], timestamp);
        let verdict = compare(&log, &references);
        if trusted {
            assert_eq!(verdict, Verdict::Trusted);
        } else {
            assert_eq!(verdict, Verdict::Rejected(vec![Failure::Expired("kernel".to_string())]));
        }
        assert_eq!(expired(&log, &references[0]), !trusted);
    }
}

#[test]
fn comparing_twice_gives_the_same_verdict() {
    let references = vec![
        reference("boot-loader", &["zzz999"]),
        reference("firmware", &["f00"]),
    ];
    let log = boot_log();
    let first = compare(&log, &references);
    let second = compare(&log, &references);
    assert_eq!(first, second);
    assert_eq!(
        first,
        Verdict::Rejected(vec![
            Failure::ValueMismatch("boot-loader".to_string()),
            Failure::MissingMeasurement("firmware".to_string()),
        ])
    );
}

#[test]
fn survey_reports_presence_and_refusal() {
    let log = boot_log();
    assert_eq!(survey(&log, &reference("kernel", &["def456"])), (true, false));
    assert_eq!(survey(&log, &reference("kernel", &["other"])), (true, true));
    assert_eq!(survey(&log, &reference("firmware", &["f00"])), (false, false));
}

#[test]
fn accepts_value_looks_at_every_alternative() {
    let kernel = reference("kernel", &["def456", "def789"]);
    assert!(accepts_value(&kernel, "def456"));
    assert!(accepts_value(&kernel, "def789"));
    assert!(!accepts_value(&kernel, "def45"));
    assert!(!accepts_value(&kernel, ""));
}

#[test]
fn log_numbers_its_records() {
    let log = boot_log();
    assert_eq!(log.records.len(), 2);
    assert_eq!(log.records[0].ordinal, 0);
    assert_eq!(log.records[1].ordinal, 1);
    assert_eq!(log.records[1].name, "kernel");
    assert_eq!(log.records[1].value, "def456");
    assert_eq!(log.timestamp, None);
}
