use remote_attestation::error::AttestationError;
use remote_attestation::reference::{read_alternatives, read_window, ReferenceValue, ValidityWindow};

fn strings(items: &[&str]) -> Vec<String> {
    items.iter().map(|s| s.to_string()).collect()
}

#[test]
fn alternatives_are_listed_between_commas() {
    assert_eq!(read_alternatives("def456,def789"), Some(strings(&["def456", "def789"])));
    assert_eq!(read_alternatives("def456"), Some(strings(&["def456"])));
    assert_eq!(read_alternatives(""), Some(Vec::new()));
    assert_eq!(read_alternatives("a b,c"), Some(strings(&["a b", "c"])));
}

#[test]
fn empty_alternative_spoils_the_list() {
    for text in [",", "def456,", ",def456", "def456,,def789", "déf456"] {
        assert_eq!(read_alternatives(text), None);
    }
}

#[test]
fn window_needs_both_bounds_or_none() {
    let bound = |s: &str| Some(s.to_string());
    assert_eq!(read_window(None, None), Some(None));
    assert_eq!(
        read_window(bound("100"), bound("200")),
        Some(Some(ValidityWindow { not_before: 100, not_after: 200 }))
    );
    assert_eq!(
        read_window(bound("200"), bound("100")),
        Some(Some(ValidityWindow { not_before: 200, not_after: 100 }))
    );
    assert_eq!(read_window(bound("100"), None), None);
    assert_eq!(read_window(None, bound("200")), None);
    assert_eq!(read_window(bound("soon"), bound("200")), None);
    assert_eq!(read_window(bound("100"), bound("")), None);
}

#[test]
fn window_holds_its_ends() {
    let window = ValidityWindow { not_before: 100, not_after: 200 };
    assert!(!window.contains(99));
    assert!(window.contains(100));
    assert!(window.contains(200));
    assert!(!window.contains(201));
    let inverted = ValidityWindow { not_before: 200, not_after: 100 };
    assert!(!inverted.contains(150));
}

#[test]
fn reference_document_is_decoded() {
    assert_eq!(
        ReferenceValue::decode(r#"{"name":"kernel","accepted":"def456,def789"}"#),
        Ok(ReferenceValue {
            name: "kernel".to_string(),
            alternatives: strings(&["def456", "def789"]),
            validity: None,
        })
    );
    assert_eq!(
        ReferenceValue::decode(
            r#"{"accepted":"","not_after":"200","name":"kernel","not_before":"100","version":"0.1"}"#
        ),
        Ok(ReferenceValue {
            name: "kernel".to_string(),
            alternatives: Vec::new(),
            validity: Some(ValidityWindow { not_before: 100, not_after: 200 }),
        })
    );
}

#[test]
fn document_that_states_no_reference_is_malformed() {
    for text in [
        "",
        "null",
        r#"{"accepted":"def456"}"#,
        r#"{"name":"kernel"}"#,
        r#"{"name":"kernel","accepted":"def456,"}"#,
        r#"{"name":"kernel","accepted":"def456","not_before":"100"}"#,
        r#"{"name":"kernel","accepted":"def456","not_before":"a","not_after":"b"}"#,
        r#"{"name":"kernel","accepted":["def456"]}"#,
    ] {
        assert_eq!(ReferenceValue::decode(text), Err(AttestationError::MalformedReference));
    }
}
