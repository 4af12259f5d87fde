use sap_pipeline::config::Config;
use sap_pipeline::config::ConfigError;

#[test]
fn test_default_config_is_valid() {
    let config = Config::default();
    assert!(config.validate().is_ok());
    assert_eq!(config.transform.format, "tsv");
    assert_eq!(config.transform.header_rows_to_skip, 6);
    assert_eq!(config.transform.header_match, "Plant\tDelivery\tMaterial");
    assert_eq!(config.api.mode, "multipart");
    assert_eq!(config.api.auth, "none");
    assert_eq!(config.retry.max_attempts, 3);
    assert_eq!(config.retry.initial_backoff_secs, 3);
    assert_eq!(config.loop_config.interval_seconds, 300);
    assert_eq!(config.files.file_glob, "*_y_149-ALL.txt");
    assert!(config.files.filename_timestamp_prefix);
}

#[test]
fn test_validate_reports_first_broken_rule() {
    let mut config = Config::default();
    config.extraction.executable = String::new();
    config.transform.format = "xml".to_string();
    // Both rules are broken; the first in checking order is reported.
    assert_eq!(config.validate(), Err(ConfigError::EmptyExecutable));
}

#[test]
fn test_validate_each_rule() {
    let base = Config::default();

    let mut c = base.clone();
    c.extraction.executable = String::new();
    assert_eq!(c.validate(), Err(ConfigError::EmptyExecutable));

    let mut c = base.clone();
    c.extraction.subcommand = String::new();
    assert_eq!(c.validate(), Err(ConfigError::EmptySubcommand));

    let mut c = base.clone();
    c.files.output_dir = String::new();
    assert_eq!(c.validate(), Err(ConfigError::EmptyOutputDir));

    let mut c = base.clone();
    c.files.file_glob = String::new();
    assert_eq!(c.validate(), Err(ConfigError::EmptyFileGlob));

    let mut c = base.clone();
    c.transform.format = "xml".to_string();
    assert_eq!(c.validate(), Err(ConfigError::InvalidTransformFormat));

    let mut c = base.clone();
    c.transform.output_line_ending = "cr".to_string();
    assert_eq!(c.validate(), Err(ConfigError::InvalidLineEnding));

    let mut c = base.clone();
    c.api.endpoint = String::new();
    assert_eq!(c.validate(), Err(ConfigError::EmptyEndpoint));

    let mut c = base.clone();
    c.api.mode = "ftp".to_string();
    assert_eq!(c.validate(), Err(ConfigError::InvalidApiMode));

    let mut c = base.clone();
    c.api.auth = "digest".to_string();
    assert_eq!(c.validate(), Err(ConfigError::InvalidAuthType));

    let mut c = base.clone();
    c.retry.max_attempts = 0;
    assert_eq!(c.validate(), Err(ConfigError::ZeroMaxAttempts));
}

#[test]
fn test_validate_accepts_all_legal_option_values() {
    let mut config = Config::default();
    config.transform.format = "csv".to_string();
    config.transform.output_line_ending = "lf".to_string();
    config.api.mode = "json_base64".to_string();
    config.api.auth = "bearer".to_string();
    config.api.bearer_token = "example-token".to_string();
    assert!(config.validate().is_ok());
}

#[test]
fn test_error_messages() {
    assert_eq!(
        ConfigError::InvalidTransformFormat.message(),
        "transform.format must be 'tsv' or 'csv'"
    );
    assert_eq!(
        ConfigError::ZeroMaxAttempts.message(),
        "retry.max_attempts must be greater than 0"
    );
}
