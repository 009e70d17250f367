use datagov::confidence::compute;
use datagov::exit::ExitCode;
use datagov::format::Format;
use datagov::recognizer::{builtin_recognizers, merge, Recognizer};
use datagov::recognizers_file::{
    build_recognizer, load_recognizers, malformed_file_error, validate_recognizers_file, RawRecognizer,
};
use datagov::scanner::{
    zip_check_blocked,
    check_scan_format, check_scan_target, column_candidates, detect_column, finding_reason, threshold_breached,
    PiiFinding,
};
use datagov::validators::{validate, ValidatorKind};

fn recognizer(id: &str) -> Recognizer {
    builtin_recognizers().into_iter().find(|r| r.id == id).unwrap()
}

fn custom(id: &str) -> Recognizer {
    Recognizer {
        id: id.to_string(),
        entity: "CUSTOM".to_string(),
        base_confidence: 990000,
        patterns: vec!["x".to_string()],
        context: vec![],
        validators: vec![],
    }
}

fn raw(id: &str, confidence: i64, text: &str, patterns: &[&str], validators: &[&str]) -> RawRecognizer {
    RawRecognizer {
        id: id.to_string(),
        entity: "CUSTOM".to_string(),
        confidence,
        confidence_text: text.to_string(),
        patterns: patterns.iter().map(|s| s.to_string()).collect(),
        context: vec![],
        validators: validators.iter().map(|s| s.to_string()).collect(),
    }
}

/// Candidates for the values and the address verdicts a caller would pass
/// (no address validator is involved in these tests).
fn scan(column: &str, values: &[&str], rec: &Recognizer) -> Option<PiiFinding> {
    let values: Vec<String> = values.iter().map(|s| s.to_string()).collect();
    let candidates = column_candidates(&values, rec).unwrap();
    let flags: Vec<Vec<(bool, bool)>> = candidates.iter().map(|r| vec![(false, false); r.len()]).collect();
    detect_column(column, &candidates, &flags, rec)
}

#[test]
fn validator_kind_name_round_trips() {
    for kind in [
        ValidatorKind::Luhn,
        ValidatorKind::Ipv4,
        ValidatorKind::Ipv6,
        ValidatorKind::Url,
        ValidatorKind::UsSsn,
        ValidatorKind::Uuid,
        ValidatorKind::UsZip,
    ] {
        assert_eq!(ValidatorKind::from_name(kind.name()), Some(kind));
    }
    assert_eq!(ValidatorKind::from_name("not_a_validator"), None);
}

#[test]
fn luhn_accepts_known_test_card_numbers() {
    assert!(validate(ValidatorKind::Luhn, "4111111111111111", false));
    assert!(validate(ValidatorKind::Luhn, "5555555555554444", false));
    assert!(validate(ValidatorKind::Luhn, "378282246310005", false));
    assert!(validate(ValidatorKind::Luhn, "6011111111111117", false));
}

#[test]
fn luhn_accepts_separators_and_rejects_bad_checksum() {
    assert!(validate(ValidatorKind::Luhn, "4111 1111 1111 1111", false));
    assert!(validate(ValidatorKind::Luhn, "4111-1111-1111-1111", false));
    assert!(!validate(ValidatorKind::Luhn, "4111111111111112", false));
}

#[test]
fn luhn_rejects_out_of_range_lengths() {
    assert!(!validate(ValidatorKind::Luhn, "411111111111", false));
    assert!(!validate(ValidatorKind::Luhn, "41111111111111111111", false));
}

#[test]
fn url_requires_scheme_and_host() {
    assert!(validate(ValidatorKind::Url, "https://example.com/path", false));
    assert!(!validate(ValidatorKind::Url, "not a url", false));
    assert!(!validate(ValidatorKind::Url, "mailto:someone@example.com", false));
}

#[test]
fn us_ssn_rejects_invalid_area_numbers() {
    assert!(validate(ValidatorKind::UsSsn, "555-01-0001", false));
    assert!(!validate(ValidatorKind::UsSsn, "000-01-0001", false));
    assert!(!validate(ValidatorKind::UsSsn, "666-01-0001", false));
    assert!(!validate(ValidatorKind::UsSsn, "900-01-0001", false));
}

#[test]
fn uuid_checks_version_and_variant_nibbles() {
    assert!(validate(ValidatorKind::Uuid, "123e4567-e89b-42d3-a456-426614174000", false));
    assert!(!validate(ValidatorKind::Uuid, "123e4567-e89b-02d3-a456-426614174000", false));
    assert!(!validate(ValidatorKind::Uuid, "123e4567-e89b-42d3-c456-426614174000", false));
}

#[test]
fn us_zip_rejects_denylisted_placeholders() {
    assert!(validate(ValidatorKind::UsZip, "94105", false));
    assert!(!validate(ValidatorKind::UsZip, "00000", false));
    assert!(!validate(ValidatorKind::UsZip, "99999-1234", false));
}

#[test]
fn address_validators_take_the_parse_verdict() {
    assert!(validate(ValidatorKind::Ipv4, "192.0.2.1", true));
    assert!(!validate(ValidatorKind::Ipv4, "999.0.2.1", false));
}

#[test]
fn base_only() {
    assert_eq!(compute(750000, false, false), 750000);
}

#[test]
fn base_plus_validator_bonus() {
    assert_eq!(compute(750000, true, false), 850000);
}

#[test]
fn base_plus_context_bonus() {
    assert_eq!(compute(750000, false, true), 800000);
}

#[test]
fn base_plus_both_bonuses() {
    assert_eq!(compute(750000, true, true), 900000);
}

#[test]
fn clamps_at_one() {
    assert_eq!(compute(950000, true, true), 1000000);
}

#[test]
fn clamps_at_zero_for_a_negative_base() {
    assert_eq!(compute(-500000, false, false), 0);
}

#[test]
fn ten_built_ins_with_unique_ids() {
    let recognizers = builtin_recognizers();
    assert_eq!(recognizers.len(), 10);
    let mut ids: Vec<&str> = recognizers.iter().map(|r| r.id.as_str()).collect();
    ids.sort_unstable();
    ids.dedup();
    assert_eq!(ids.len(), 10);
}

#[test]
fn every_pattern_compiles_and_confidence_is_in_range() {
    for recognizer in builtin_recognizers() {
        assert!(!recognizer.patterns.is_empty());
        assert!(recognizer.base_confidence >= 0 && recognizer.base_confidence <= 1000000);
        let raw = RawRecognizer {
            id: recognizer.id.clone(),
            entity: recognizer.entity.clone(),
            confidence: recognizer.base_confidence,
            confidence_text: String::new(),
            patterns: recognizer.patterns.clone(),
            context: recognizer.context.clone(),
            validators: recognizer.validators.iter().map(|v| v.name().to_string()).collect(),
        };
        assert!(build_recognizer(raw).is_ok());
    }
}

#[test]
fn summary_reports_pattern_count() {
    let mut recognizer = custom("test");
    recognizer.patterns = vec!["a".to_string(), "b".to_string()];
    recognizer.base_confidence = 500000;
    let summary = recognizer.summary();
    assert_eq!(summary.pattern_count, 2);
    assert_eq!(summary.confidence, 500000);
}

#[test]
fn registry_custom_recognizer_overrides_a_built_in_by_id() {
    let merged = merge(vec![custom("us_ssn")]);
    assert_eq!(merged.len(), 10);
    let us_ssn = merged.iter().find(|r| r.id == "us_ssn").unwrap();
    assert_eq!(us_ssn.base_confidence, 990000);
    assert_eq!(us_ssn.entity, "CUSTOM");
    assert_eq!(merged[5].id, "us_ssn");
}

#[test]
fn custom_recognizer_with_a_new_id_is_appended() {
    let merged = merge(vec![custom("my_custom_entity")]);
    assert_eq!(merged.len(), 11);
    assert_eq!(merged[10].id, "my_custom_entity");
}

#[test]
fn no_customs_returns_exactly_the_built_ins() {
    let merged = merge(vec![]);
    assert_eq!(merged.len(), builtin_recognizers().len());
}

#[test]
fn validators_kind_still_usable_after_merge() {
    let mut with_validator = custom("with_validator");
    with_validator.validators = vec![ValidatorKind::Luhn];
    let merged = merge(vec![with_validator]);
    let found = merged.iter().find(|r| r.id == "with_validator").unwrap();
    assert_eq!(found.validators, vec![ValidatorKind::Luhn]);
}

#[test]
fn the_last_custom_with_an_id_wins() {
    let mut a = custom("x_id");
    a.entity = "FIRST".to_string();
    let mut b = custom("x_id");
    b.entity = "SECOND".to_string();
    let merged = merge(vec![a, b]);
    assert_eq!(merged.len(), 11);
    assert_eq!(merged[10].entity, "SECOND");
}

#[test]
fn no_match_produces_no_finding() {
    assert!(scan("notes", &["nothing here", "still nothing"], &recognizer("us_ssn")).is_none());
}

#[test]
fn embedded_match_within_prose_is_detected() {
    let finding = scan(
        "notes",
        &["Reported via https://example.com/incidents/42 from host 192.0.2.10."],
        &recognizer("url"),
    )
    .unwrap();
    assert_eq!(finding.match_count, 1);
    assert_eq!(finding.entity, "URL");
    for sample in &finding.sample_evidence {
        assert!(!sample.contains("https://example.com/incidents/42"));
    }
}

#[test]
fn context_bonus_applies_when_column_name_matches() {
    let values = vec!["555-01-0001"; 5];
    let finding = scan("ssn", &values, &recognizer("us_ssn")).unwrap();
    let reason = finding_reason(&finding, "100.0");
    assert!(reason.contains("context term 'ssn'"));
    assert_eq!(finding.confidence, 900000);
    assert_eq!(finding.match_count, 5);
    assert_eq!(finding.non_null_count, 5);
    assert_eq!(
        reason,
        "column name matches context term 'ssn'; 5/5 values (100.0%) matched US_SSN and passed validation"
    );
}

#[test]
fn no_context_bonus_when_column_name_does_not_match() {
    let values = vec!["555-01-0001"; 3];
    let finding = scan("field_a", &values, &recognizer("us_ssn")).unwrap();
    assert!(!finding_reason(&finding, "100.0").contains("context term"));
    assert_eq!(finding.confidence, 850000);
}

#[test]
fn partial_validation_gives_no_validator_bonus() {
    let finding = scan("field_a", &["555-01-0001", "900-01-0001"], &recognizer("us_ssn")).unwrap();
    assert_eq!(finding.confidence, 750000);
    assert_eq!(finding.match_count, 1);
}

#[test]
fn sample_evidence_never_contains_the_raw_value() {
    let raw = "4111111111111111";
    let finding = scan("card_number", &[raw], &recognizer("credit_card")).unwrap();
    for sample in &finding.sample_evidence {
        assert!(!sample.contains(raw));
    }
    assert_eq!(finding.sample_evidence, vec!["41…11".to_string()]);
}

#[test]
fn overlapping_patterns_are_not_double_counted() {
    let finding = scan("zip", &["12345"], &recognizer("us_zip_code")).unwrap();
    assert_eq!(finding.match_count, 1);
}

#[test]
fn duplicate_spans_across_patterns_are_one_candidate() {
    let mut rec = custom("digits");
    rec.patterns = vec![r"\d{3}".to_string(), r"\d{3}".to_string(), r"\d".to_string()];
    let values = vec!["a123".to_string()];
    let candidates = column_candidates(&values, &rec).unwrap();
    // spans (1,2) (1,4) (2,3) (3,4): ordered by start then end
    assert_eq!(candidates[0], vec!["1".to_string(), "123".to_string(), "2".to_string(), "3".to_string()]);
}

#[test]
fn evidence_keeps_at_most_three_masked_matches() {
    let mut rec = custom("words");
    rec.patterns = vec![r"[a-z]{8,}".to_string()];
    let values = ["alphabetical", "benchmarking", "calibration", "demonstrated"];
    let finding = scan("notes", &values, &rec).unwrap();
    assert_eq!(finding.match_count, 4);
    assert_eq!(finding.sample_evidence, vec!["al…al", "be…ng", "ca…on"]);
    assert!(!finding.has_validator);
    assert_eq!(finding_reason(&finding, "100.0"), "4/4 values (100.0%) matched CUSTOM");
}

#[test]
fn address_verdicts_decide_address_validators() {
    let rec = recognizer("ip_address_v4");
    let values = vec!["host 192.0.2.1".to_string(), "999.1.1.1".to_string()];
    let candidates = column_candidates(&values, &rec).unwrap();
    let flags = vec![vec![(true, false)], vec![(false, false)]];
    let finding = detect_column("ipaddr", &candidates, &flags, &rec).unwrap();
    assert_eq!(finding.match_count, 1);
    assert_eq!(finding.confidence, 550000 + 50000);
}

#[test]
fn fail_on_threshold_is_inclusive() {
    let finding = scan("ssn", &["555-01-0001"], &recognizer("us_ssn")).unwrap();
    let findings = vec![finding];
    assert!(threshold_breached(&findings, 900000));
    assert!(!threshold_breached(&findings, 900001));
    assert!(!threshold_breached(&vec![], 0));
}

#[test]
fn unsupported_json_format_exits_4() {
    let err = check_scan_format("examples/customers.json", Format::Json).unwrap_err();
    assert_eq!(err.exit_code().code(), 4);
    assert!(check_scan_format("examples/customers.csv", Format::Csv).is_ok());
    assert_eq!(check_scan_target("-").unwrap_err().exit_code(), ExitCode::InvalidArgs);
}

#[test]
fn recognizers_validate_succeeds_on_a_valid_file() {
    let raws = vec![
        raw("us_ssn", 850000, "0.85", &[r"\b\d{3}-\d{2}-\d{4}\b"], &["us_ssn"]),
        raw("employee_id", 900000, "0.9", &[r"\bEMP-\d{6}\b"], &[]),
    ];
    assert_eq!(validate_recognizers_file(Ok(raws)).unwrap(), 2);
}

#[test]
fn parses_the_prd_10_9_example() {
    let mut r = raw("us_ssn", 850000, "0.85", &[r"\b\d{3}-\d{2}-\d{4}\b"], &["us_ssn"]);
    r.entity = "US_SSN".to_string();
    r.context = vec!["ssn".to_string(), "social_security".to_string(), "taxpayer_id".to_string()];
    let rec = build_recognizer(r).unwrap();
    assert_eq!(rec.id, "us_ssn");
    assert_eq!(rec.base_confidence, 850000);
    assert_eq!(rec.validators, vec![ValidatorKind::UsSsn]);
}

#[test]
fn context_and_validators_default_to_empty() {
    let rec = build_recognizer(raw("custom_id", 500000, "0.5", &["abc"], &[])).unwrap();
    assert!(rec.context.is_empty());
    assert!(rec.validators.is_empty());
}

#[test]
fn malformed_regex_names_the_id_and_field() {
    let err = build_recognizer(raw("broken", 500000, "0.5", &["(unclosed"], &[])).unwrap_err();
    assert_eq!(err.exit_code(), ExitCode::InvalidArgs);
    assert!(err.message().contains("broken"));
    assert!(err.message().contains("patterns"));
    assert!(err.message().contains("'(unclosed'"));
}

#[test]
fn out_of_range_confidence_names_the_id_and_field() {
    let err = build_recognizer(raw("too_high", 1500000, "1.5", &["abc"], &[])).unwrap_err();
    assert_eq!(err.exit_code(), ExitCode::InvalidArgs);
    assert_eq!(err.message(), "recognizer 'too_high': field 'confidence' must be within [0.0, 1.0], got 1.5");
}

#[test]
fn unknown_validator_names_the_id_and_field() {
    let err = build_recognizer(raw("bad_validator", 500000, "0.5", &["abc"], &["not_a_real_validator"])).unwrap_err();
    assert_eq!(err.exit_code(), ExitCode::InvalidArgs);
    assert!(err.message().contains("bad_validator"));
    assert!(err.message().contains("validators"));
    assert!(err.message().contains("not_a_real_validator"));
}

#[test]
fn empty_pattern_list_is_rejected() {
    let err = build_recognizer(raw("none", 500000, "0.5", &[], &[])).unwrap_err();
    assert_eq!(err.message(), "recognizer 'none': field 'patterns' must have at least one entry");
}

#[test]
fn totally_malformed_yaml_is_invalid_args() {
    let err = malformed_file_error("test.yaml", "did not find expected node content");
    assert_eq!(err.exit_code(), ExitCode::InvalidArgs);
    assert_eq!(validate_recognizers_file(Err(err)).unwrap_err().exit_code(), ExitCode::InvalidArgs);
}

#[test]
fn loading_merges_customs_over_the_built_ins() {
    let loaded = load_recognizers(Some(Ok(vec![raw("us_ssn", 990000, "0.99", &["x"], &[])]))).unwrap();
    assert_eq!(loaded.len(), 10);
    assert_eq!(load_recognizers(None).unwrap().len(), 10);
    let err = load_recognizers(Some(Ok(vec![raw("bad", 500000, "0.5", &["("], &[])]))).unwrap_err();
    assert_eq!(err.exit_code(), ExitCode::InvalidArgs);
}

#[test]
fn zip_check_is_blocked_only_when_reached_with_an_uncheckable_candidate() {
    let candidate = "1234\u{e9}6";
    assert!(zip_check_blocked(&vec![ValidatorKind::UsZip], candidate, (false, false)));
    assert!(!zip_check_blocked(&vec![ValidatorKind::Uuid, ValidatorKind::UsZip], candidate, (false, false)));
    assert!(zip_check_blocked(&vec![ValidatorKind::Ipv4, ValidatorKind::UsZip], candidate, (true, false)));
    assert!(!zip_check_blocked(&vec![ValidatorKind::Ipv4, ValidatorKind::UsZip], candidate, (false, false)));
    assert!(!zip_check_blocked(&vec![ValidatorKind::UsZip], "12345-6789", (false, false)));
    assert!(!zip_check_blocked(&vec![ValidatorKind::Luhn], candidate, (false, false)));
}
