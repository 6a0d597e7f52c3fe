use remote_attestation::attester::{format_instant, seal_evidence};
use remote_attestation::environment::EnvironmentKind;
use remote_attestation::error::AttestationError;
use remote_attestation::event_log::{EventLog, MeasurementRecord};
use remote_attestation::evidence::{Evidence, FreshnessToken};
use remote_attestation::normalizer::{normalize, verify_integrity};
use remote_attestation::text::{digit_text, format_decimal};

fn token(value: &str) -> FreshnessToken {
    FreshnessToken::new(value.to_string())
}

#[test]
fn numbers_are_written_without_leading_zeros() {
    assert_eq!(format_decimal(0), "0");
    assert_eq!(format_decimal(7), "7");
    assert_eq!(format_decimal(10), "10");
    assert_eq!(format_decimal(1700000000), "1700000000");
    assert_eq!(format_decimal(u64::MAX), "18446744073709551615");
    assert_eq!(digit_text(0), "0");
    assert_eq!(digit_text(9), "9");
    assert_eq!(format_instant(None), None);
    assert_eq!(format_instant(Some(42)), Some("42".to_string()));
}

#[test]
fn sealed_evidence_holds_what_it_was_given() {
    let sealed = seal_evidence(
        EnvironmentKind::Tdx,
        &token("nonce-1"),
        Some(1700000000),
        "kernel=def456".to_string(),
    );
    assert_eq!(
        sealed,
        Evidence {
            tee: "tdx".to_string(),
            report_data: Some("nonce-1".to_string()),
            timestamp: Some("1700000000".to_string()),
            event_log: "kernel=def456".to_string(),
            seal: "5150836470765703586".to_string(),
        }
    );
    let snp = seal_evidence(
        EnvironmentKind::SevSnp,
        &token("nonce-1"),
        Some(42),
        "def456 kernel".to_string(),
    );
    assert_eq!(snp.tee, "snp");
    assert_eq!(snp.seal, "2113603766");
}

#[test]
fn sealed_evidence_of_every_kind_is_normalised() {
    let cases = [
        (EnvironmentKind::Tdx, "boot-loader=abc123;kernel=def456"),
        (EnvironmentKind::SevSnp, "abc123 boot-loader\ndef456 kernel"),
    ];
    for (kind, text) in cases {
        let sealed = seal_evidence(kind, &token("nonce-1"), Some(5), text.to_string());
        assert!(verify_integrity(kind, &sealed));
        let log = normalize(sealed.clone(), &token("nonce-1")).unwrap();
        assert_eq!(
            log,
            EventLog {
                records: vec![
                    MeasurementRecord {
                        name: "boot-loader".to_string(),
                        value: "abc123".to_string(),
                        ordinal: 0,
                    },
                    MeasurementRecord {
                        name: "kernel".to_string(),
                        value: "def456".to_string(),
                        ordinal: 1,
                    },
                ],
                timestamp: Some(5),
            }
        );
        assert_eq!(normalize(sealed.clone(), &token("nonce-2")), Err(AttestationError::FreshnessMismatch));
    }
}

#[test]
fn sealing_does_not_mend_a_broken_log() {
    let sealed = seal_evidence(EnvironmentKind::Tdx, &token("nonce-1"), None, "kernel".to_string());
    assert!(verify_integrity(EnvironmentKind::Tdx, &sealed));
    assert_eq!(normalize(sealed.clone(), &token("nonce-1")), Err(AttestationError::MalformedEvidence));
}
