use datagov::cli::{content_hash_for, content_hash_sha256, humanize_bytes, reject_csv};
use datagov::config::{load, Config, OutputFormat};
use datagov::error::DatagovError;
use datagov::exit::ExitCode;
use datagov::mask::Masked;
use datagov::report::{data_type_label, DataType};
use datagov::sensitivity::{heuristically_sensitive_match, is_heuristically_sensitive};

#[test]
fn humanizes_bytes_across_units() {
    assert_eq!(humanize_bytes(0), "0 B");
    assert_eq!(humanize_bytes(512), "512 B");
    assert_eq!(humanize_bytes(1536), "1.5 KiB");
    assert_eq!(humanize_bytes(494490), "482.9 KiB");
}

#[test]
fn humanize_bytes_rounds_ties_to_even_and_caps_at_tib() {
    // 1.25 KiB and 1.75 KiB are exact ties at one decimal place.
    assert_eq!(humanize_bytes(1280), "1.2 KiB");
    assert_eq!(humanize_bytes(1792), "1.8 KiB");
    assert_eq!(humanize_bytes(1023), "1023 B");
    assert_eq!(humanize_bytes(1024), "1.0 KiB");
    assert_eq!(humanize_bytes(1048576), "1.0 MiB");
    assert_eq!(humanize_bytes(5 * 1099511627776), "5.0 TiB");
    assert_eq!(humanize_bytes(2048 * 1099511627776), "2048.0 TiB");
}

#[test]
fn data_type_label_covers_every_variant() {
    assert_eq!(data_type_label(DataType::Boolean), "boolean");
    assert_eq!(data_type_label(DataType::Integer), "integer");
    assert_eq!(data_type_label(DataType::Float), "float");
    assert_eq!(data_type_label(DataType::String), "string");
    assert_eq!(data_type_label(DataType::Object), "object");
    assert_eq!(data_type_label(DataType::Array), "array");
    assert_eq!(data_type_label(DataType::Null), "null");
    assert_eq!(data_type_label(DataType::Mixed), "mixed");
}

#[test]
fn content_hash_for_stdin_is_none() {
    assert!(content_hash_for("-", None).is_none());
}

#[test]
fn content_hash_of_known_bytes() {
    assert_eq!(
        content_hash_sha256(b"hello world"),
        "sha256:b94d27b9934d3e08a52e52d7da7dabfac484efe37a5380ee9088f7ace2efcde9"
    );
    assert_eq!(
        content_hash_for("sample.txt", Some(b"hello world")).unwrap(),
        "sha256:b94d27b9934d3e08a52e52d7da7dabfac484efe37a5380ee9088f7ace2efcde9"
    );
    assert!(content_hash_for("unreadable.txt", None).is_none());
}

#[test]
fn variant_to_exit_code_mapping() {
    assert_eq!(DatagovError::internal("boom").exit_code(), ExitCode::Internal);
    assert_eq!(
        DatagovError::invalid_args("bad flag", "fix it").exit_code(),
        ExitCode::InvalidArgs
    );
    assert_eq!(
        DatagovError::input_not_found("missing.csv", "check the path").exit_code(),
        ExitCode::InputNotFound
    );
    assert_eq!(
        DatagovError::unsupported_input("unknown format", "use a supported format").exit_code(),
        ExitCode::UnsupportedInput
    );
}

#[test]
fn discriminants_match_prd_24() {
    assert_eq!(ExitCode::Success.code(), 0);
    assert_eq!(ExitCode::Internal.code(), 1);
    assert_eq!(ExitCode::InvalidArgs.code(), 2);
    assert_eq!(ExitCode::InputNotFound.code(), 3);
    assert_eq!(ExitCode::UnsupportedInput.code(), 4);
    assert_eq!(ExitCode::QualityFailed.code(), 10);
    assert_eq!(ExitCode::PolicyFailed.code(), 11);
    assert_eq!(ExitCode::PiiFailed.code(), 12);
    assert_eq!(ExitCode::SchemaFailed.code(), 13);
    assert_eq!(ExitCode::LineageIncomplete.code(), 14);
    assert_eq!(ExitCode::BackendUnavailable.code(), 20);
    assert_eq!(ExitCode::AuthFailed.code(), 21);
    assert_eq!(ExitCode::VerificationFailed.code(), 22);
}

#[test]
fn error_accessors_report_code_message_and_remediation() {
    let e = DatagovError::invalid_args("bad flag", "fix it");
    assert_eq!(e.code(), "invalid_args");
    assert_eq!(e.message(), "bad flag");
    assert_eq!(e.remediation(), "fix it");
    let i = DatagovError::internal("boom");
    assert_eq!(i.code(), "internal_error");
    assert_eq!(
        i.remediation(),
        "This is likely a bug; please file an issue with the command you ran."
    );
}

#[test]
fn long_value_never_appears_in_full_in_display_or_serialize() {
    let sample = "4111111122223333";
    let masked = Masked::new(sample);
    let displayed = masked.to_string();
    assert!(!displayed.contains(sample));
    assert_eq!(displayed, "41…33");
}

#[test]
fn short_value_is_fully_masked() {
    let masked = Masked::new("12345");
    assert_eq!(masked.to_string(), "●●●");
}

#[test]
fn boundary_length_eight_uses_lead_ellipsis_trail() {
    let sample = "12345678";
    let masked = Masked::new(sample);
    assert_eq!(masked.to_string(), "12…78");
}

#[test]
fn debug_rendering_also_never_leaks_the_value() {
    let sample = "sensitive-value-1234";
    let masked = Masked::new(sample);
    let debugged = masked.debug_string();
    assert!(!debugged.contains(sample));
    assert_eq!(debugged, "Masked(\"se…34\")");
}

#[test]
fn match_names_the_matched_fragment() {
    assert_eq!(heuristically_sensitive_match("email"), Some("email"));
    assert_eq!(heuristically_sensitive_match("Phone_Number"), Some("phone"));
    assert_eq!(heuristically_sensitive_match("username"), None);
}

#[test]
fn matches_known_fragments_case_insensitively() {
    assert!(is_heuristically_sensitive("email"));
    assert!(is_heuristically_sensitive("Email_Address"));
    assert!(is_heuristically_sensitive("PHONE_NUMBER"));
    assert!(is_heuristically_sensitive("ssn"));
    assert!(is_heuristically_sensitive("Social_Security_Number"));
    assert!(is_heuristically_sensitive("credit_card_last4"));
    assert!(is_heuristically_sensitive("CARD_NUMBER"));
    assert!(is_heuristically_sensitive("user_password"));
    assert!(is_heuristically_sensitive("client_secret"));
}

#[test]
fn does_not_match_unrelated_names() {
    assert!(!is_heuristically_sensitive("username"));
    assert!(!is_heuristically_sensitive("city"));
    assert!(!is_heuristically_sensitive("state"));
    assert!(!is_heuristically_sensitive("userid"));
}

#[test]
fn output_csv_is_rejected_with_exit_2() {
    let err = reject_csv(OutputFormat::Csv, "profile").unwrap_err();
    assert_eq!(err.exit_code(), ExitCode::InvalidArgs);
    assert_eq!(err.message(), "'profile' does not support --output csv");
    assert!(reject_csv(OutputFormat::Json, "profile").is_ok());
    assert!(reject_csv(OutputFormat::Table, "profile").is_ok());
}

#[test]
fn defaults_when_nothing_present() {
    let config = load(None, None, Ok(None), Ok(None), None, None).unwrap();
    assert_eq!(config, Config::default());
}

#[test]
fn env_var_alone() {
    let config = load(None, None, Ok(None), Ok(None), Some("json"), None).unwrap();
    assert_eq!(config.output, Some(OutputFormat::Json));
}

#[test]
fn override_order_env_beats_project_beats_dot_datagov_beats_xdg_beats_home() {
    let home = Config { output: Some(OutputFormat::Table), threads: Some(1) };
    let xdg = Config { output: None, threads: Some(2) };
    let dot = Config { output: None, threads: Some(3) };
    let project = Config { output: None, threads: Some(4) };
    let config = load(
        Some(Ok(Some(home))),
        Some(Ok(Some(xdg))),
        Ok(Some(dot)),
        Ok(Some(project)),
        Some("JSON"),
        None,
    )
    .unwrap();
    assert_eq!(config.threads, Some(4));
    assert_eq!(config.output, Some(OutputFormat::Json));
}

#[test]
fn first_failed_layer_is_the_error_and_invalid_env_values_are_ignored() {
    let bad = datagov::config::malformed_config("datagov.yaml", "bad indent");
    let err = load(None, None, Ok(None), Err(bad), None, None).unwrap_err();
    assert_eq!(err.exit_code(), ExitCode::InvalidArgs);
    assert_eq!(err.message(), "malformed config at datagov.yaml: bad indent");
    let config = load(None, None, Ok(Some(Config { output: None, threads: Some(3) })), Ok(None), Some("xml"), Some("many"))
        .unwrap();
    assert_eq!(config.output, None);
    assert_eq!(config.threads, Some(3));
    let config = load(None, None, Ok(None), Ok(None), None, Some("+16")).unwrap();
    assert_eq!(config.threads, Some(16));
}

#[test]
fn output_format_parses_case_insensitively() {
    assert_eq!(OutputFormat::from_str("Table").unwrap(), OutputFormat::Table);
    assert_eq!(OutputFormat::from_str("CSV").unwrap(), OutputFormat::Csv);
    assert_eq!(OutputFormat::from_str("XML").unwrap_err(), "unknown output format: xml");
}

#[test]
fn merge_from_only_overrides_set_fields() {
    let mut c = Config { output: Some(OutputFormat::Table), threads: Some(2) };
    c.merge_from(Config { output: None, threads: Some(8) });
    assert_eq!(c, Config { output: Some(OutputFormat::Table), threads: Some(8) });
}

#[test]
fn layer_paths_join_like_paths() {
    let (home, xdg, dot, project) = datagov::config::layer_paths("/work", Some("/home/me"), Some("/xdg/"));
    assert_eq!(home.unwrap(), "/home/me/.config/datagov/config.yaml");
    assert_eq!(xdg.unwrap(), "/xdg/datagov/config.yaml");
    assert_eq!(dot, "/work/.datagov/config.yaml");
    assert_eq!(project, "/work/datagov.yaml");
    let (home, xdg, _, _) = datagov::config::layer_paths("", None, None);
    assert!(home.is_none() && xdg.is_none());
}
