use sap_pipeline::config::ApiConfig;
use sap_pipeline::config::RetryConfig;
use sap_pipeline::upload::RetryDecision;
use sap_pipeline::upload::StatusClass;
use sap_pipeline::upload::UploadConfigError;
use sap_pipeline::upload::UploadErrorKind;
use sap_pipeline::upload::Uploader;
use sap_pipeline::upload::classify_status;
use sap_pipeline::upload::status_error_kind;

fn create_test_config() -> (ApiConfig, RetryConfig) {
    let api_config = ApiConfig {
        endpoint: "http://localhost:8080/upload".to_string(),
        mode: "multipart".to_string(),
        field_name: "file".to_string(),
        extra_fields: Vec::new(),
        json_filename_key: "filename".to_string(),
        json_data_key: "data".to_string(),
        auth: "none".to_string(),
        bearer_token: String::new(),
        basic_username: String::new(),
        basic_password: String::new(),
    };

    let retry_config = RetryConfig { max_attempts: 3, initial_backoff_secs: 1 };

    (api_config, retry_config)
}

#[test]
fn test_uploader_creation() {
    let (api_config, retry_config) = create_test_config();
    let uploader = Uploader::new(&api_config, &retry_config);
    assert!(uploader.is_ok());
}

#[test]
fn test_retryable_error_detection() {
    let (api_config, retry_config) = create_test_config();
    let uploader = Uploader::new(&api_config, &retry_config).unwrap();

    // Retryable kinds: a connection timeout, a server-side failure, a
    // failed connection.
    assert!(uploader.is_retryable_error(&UploadErrorKind::Timeout));
    assert!(uploader.is_retryable_error(&UploadErrorKind::ServerError(500)));
    assert!(uploader.is_retryable_error(&UploadErrorKind::ConnectionFailed));

    // Non-retryable kinds: a client-side rejection, anything else.
    assert!(!uploader.is_retryable_error(&UploadErrorKind::ClientError(400)));
    assert!(!uploader.is_retryable_error(&UploadErrorKind::Other));
}

#[test]
fn test_auth_validation() {
    let (mut api_config, retry_config) = create_test_config();

    api_config.auth = "bearer".to_string();
    assert_eq!(
        Uploader::new(&api_config, &retry_config).err(),
        Some(UploadConfigError::MissingBearerToken)
    );
    api_config.bearer_token = "example-token".to_string();
    assert!(Uploader::new(&api_config, &retry_config).is_ok());

    api_config.auth = "basic".to_string();
    assert_eq!(
        Uploader::new(&api_config, &retry_config).err(),
        Some(UploadConfigError::MissingBasicCredentials)
    );
    api_config.basic_username = "user".to_string();
    assert_eq!(
        Uploader::new(&api_config, &retry_config).err(),
        Some(UploadConfigError::MissingBasicCredentials)
    );
    api_config.basic_password = "example-password".to_string();
    assert!(Uploader::new(&api_config, &retry_config).is_ok());

    api_config.auth = "token".to_string();
    assert_eq!(
        Uploader::new(&api_config, &retry_config).err(),
        Some(UploadConfigError::InvalidAuthType)
    );
}

#[test]
fn test_status_classification() {
    assert_eq!(classify_status(200), StatusClass::Success);
    assert_eq!(classify_status(201), StatusClass::Success);
    assert_eq!(classify_status(202), StatusClass::Success);
    assert_eq!(classify_status(404), StatusClass::ClientError);
    assert_eq!(classify_status(500), StatusClass::ServerError);
    assert_eq!(classify_status(599), StatusClass::ServerError);
    assert_eq!(classify_status(303), StatusClass::Other);
    assert_eq!(status_error_kind(503), UploadErrorKind::ServerError(503));
    assert_eq!(status_error_kind(418), UploadErrorKind::ClientError(418));
    assert_eq!(status_error_kind(303), UploadErrorKind::Other);
}

#[test]
fn test_retry_two_timeouts_then_success() {
    let (api_config, retry_config) = create_test_config(); // max 3, backoff 1
    let uploader = Uploader::new(&api_config, &retry_config).unwrap();
    let mut state = uploader.retry_state();
    let mut sleeps: Vec<u64> = Vec::new();

    // Attempt 1 fails with a timeout: retry after the initial backoff.
    match state.on_failure(&UploadErrorKind::Timeout) {
        RetryDecision::RetryAfter(secs) => sleeps.push(secs),
        other => panic!("expected a retry, got {:?}", other),
    }
    // Attempt 2 fails with a timeout: retry after a doubled backoff.
    match state.on_failure(&UploadErrorKind::Timeout) {
        RetryDecision::RetryAfter(secs) => sleeps.push(secs),
        other => panic!("expected a retry, got {:?}", other),
    }
    // Attempt 3 succeeds: the caller stops without consulting the policy.
    assert_eq!(sleeps, vec![1, 2]);
    assert_eq!(state.attempt, 2);
}

#[test]
fn test_retry_non_retryable_fails_immediately() {
    let (api_config, retry_config) = create_test_config();
    let uploader = Uploader::new(&api_config, &retry_config).unwrap();
    let mut state = uploader.retry_state();
    assert_eq!(
        state.on_failure(&UploadErrorKind::ClientError(400)),
        RetryDecision::GiveUpNonRetryable
    );
    assert_eq!(state.attempt, 1);
}

#[test]
fn test_retry_exhausts_at_ceiling() {
    let (api_config, retry_config) = create_test_config(); // max 3
    let uploader = Uploader::new(&api_config, &retry_config).unwrap();
    let mut state = uploader.retry_state();
    assert!(matches!(
        state.on_failure(&UploadErrorKind::ServerError(500)),
        RetryDecision::RetryAfter(_)
    ));
    assert!(matches!(
        state.on_failure(&UploadErrorKind::ServerError(500)),
        RetryDecision::RetryAfter(_)
    ));
    assert_eq!(
        state.on_failure(&UploadErrorKind::ServerError(500)),
        RetryDecision::GiveUpTerminal
    );
}

#[test]
fn test_backoff_doubles_and_caps_at_thirty() {
    let (api_config, retry_config) = create_test_config();
    let _ = retry_config;
    let retry_config = RetryConfig { max_attempts: 10, initial_backoff_secs: 8 };
    let uploader = Uploader::new(&api_config, &retry_config).unwrap();
    let mut state = uploader.retry_state();
    let mut sleeps: Vec<u64> = Vec::new();
    for _ in 0..5 {
        match state.on_failure(&UploadErrorKind::Timeout) {
            RetryDecision::RetryAfter(secs) => sleeps.push(secs),
            other => panic!("expected a retry, got {:?}", other),
        }
    }
    assert_eq!(sleeps, vec![8, 16, 30, 30, 30]);
}

#[test]
fn test_json_payload_fields() {
    let (mut api_config, retry_config) = create_test_config();
    api_config.mode = "json_base64".to_string();
    api_config.extra_fields = vec![("dept".to_string(), "logistics".to_string())];
    let uploader = Uploader::new(&api_config, &retry_config).unwrap();

    let bytes: Vec<u8> = b"hello".to_vec();
    let fields = uploader.json_payload_fields("report.txt", &bytes);

    assert_eq!(fields.len(), 3);
    assert_eq!(fields[0], ("filename".to_string(), "report.txt".to_string()));
    assert_eq!(fields[1], ("data".to_string(), "aGVsbG8=".to_string()));
    assert_eq!(fields[2], ("dept".to_string(), "logistics".to_string()));
}

#[test]
fn test_json_payload_empty_file() {
    let (mut api_config, retry_config) = create_test_config();
    api_config.mode = "json_base64".to_string();
    let uploader = Uploader::new(&api_config, &retry_config).unwrap();
    let fields = uploader.json_payload_fields("empty.bin", &Vec::new());
    assert_eq!(fields[1].1, "");
}
