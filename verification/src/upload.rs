//! Resilient upload policy: authentication checked once at construction,
//! HTTP status classification, a closed taxonomy of attempt failures with
//! the retry rule over it, bounded exponential backoff, and the field
//! list for the base64-embedded JSON upload body.

use vstd::prelude::*;

verus! {

use crate::config::ApiConfig;
use crate::config::RetryConfig;

/// The base64 character for a six-bit value, in the RFC 4648 standard
/// alphabet.
pub open spec fn b64_char(v: int) -> char {
    if v < 26 {
        ((65 + v) as u8) as char
    } else if v < 52 {
        ((71 + v) as u8) as char
    } else if v < 62 {
        ((v - 4) as u8) as char
    } else if v == 62 {
        '+'
    } else {
        '/'
    }
}

/// The RFC 4648 standard, padded base64 writing of `bs`: three bytes to
/// four characters, a short final group padded with `'='`.
pub open spec fn base64_chars(bs: Seq<u8>) -> Seq<char>
    decreases bs.len(),
{
    if bs.len() == 0 {
        Seq::empty()
    } else if bs.len() == 1 {
        seq![b64_char(bs[0] as int / 4), b64_char((bs[0] as int % 4) * 16), '=', '=']
    } else if bs.len() == 2 {
        seq![
            b64_char(bs[0] as int / 4),
            b64_char((bs[0] as int % 4) * 16 + bs[1] as int / 16),
            b64_char((bs[1] as int % 16) * 4),
            '=',
        ]
    } else {
        seq![
            b64_char(bs[0] as int / 4),
            b64_char((bs[0] as int % 4) * 16 + bs[1] as int / 16),
            b64_char((bs[1] as int % 16) * 4 + bs[2] as int / 64),
            b64_char(bs[2] as int % 64),
        ] + base64_chars(bs.skip(3))
    }
}

/// Relies on the base64 crate's STANDARD engine: RFC 4648 standard
/// alphabet with `'='` padding.
#[verifier::external_body]
fn base64_encode(bytes: &Vec<u8>) -> (r: String)
    ensures
        r@ == base64_chars(bytes@),
{
    base64::Engine::encode(&base64::engine::general_purpose::STANDARD, bytes)
}

/// Why an uploader could not be built.
#[derive(Clone, Copy, Debug, PartialEq, Eq, Structural)]
pub enum UploadConfigError {
    /// Bearer auth demands a non-empty token.
    MissingBearerToken,
    /// Basic auth demands a non-empty username and password.
    MissingBasicCredentials,
    /// The auth mode is none of "none", "bearer", "basic".
    InvalidAuthType,
}

impl UploadConfigError {
    /// The diagnostic text for this error.
    pub fn message(&self) -> (r: &'static str)
        ensures
            r@ == self.message_spec(),
    {
        match self {
            UploadConfigError::MissingBearerToken => (
            "bearer token is required when auth is 'bearer'"),
            UploadConfigError::MissingBasicCredentials => (
            "username and password are required when auth is 'basic'"),
            UploadConfigError::InvalidAuthType => "invalid auth type",
        }
    }

    /// The diagnostic text owed for each variant.
    pub open spec fn message_spec(&self) -> Seq<char> {
        match self {
            UploadConfigError::MissingBearerToken => (
            "bearer token is required when auth is 'bearer'"@),
            UploadConfigError::MissingBasicCredentials => (
            "username and password are required when auth is 'basic'"@),
            UploadConfigError::InvalidAuthType => "invalid auth type"@,
        }
    }
}

/// The outcome `Uploader::new` owes for `api`: the first broken auth
/// rule, or `Ok`.
pub open spec fn auth_check_spec(api: ApiConfig) -> Result<(), UploadConfigError> {
    if api.auth@ == "bearer"@ {
        if api.bearer_token@.len() == 0 {
            Err(UploadConfigError::MissingBearerToken)
        } else {
            Ok(())
        }
    } else if api.auth@ == "basic"@ {
        if api.basic_username@.len() == 0 || api.basic_password@.len() == 0 {
            Err(UploadConfigError::MissingBasicCredentials)
        } else {
            Ok(())
        }
    } else if api.auth@ == "none"@ {
        Ok(())
    } else {
        Err(UploadConfigError::InvalidAuthType)
    }
}

/// What an HTTP status means for an upload attempt.
#[derive(Clone, Copy, Debug, PartialEq, Eq, Structural)]
pub enum StatusClass {
    /// 200, 201 or 202: the upload landed.
    Success,
    /// Any other 4xx-range status: the request itself is wrong.
    ClientError,
    /// Any 5xx-range status: the service failed.
    ServerError,
    /// Anything else, kept with its raw status for diagnostics.
    Other,
}

/// The class owed for each status.
pub open spec fn status_class_spec(status: u16) -> StatusClass {
    if status == 200 || status == 201 || status == 202 {
        StatusClass::Success
    } else if 400 <= status && status <= 499 {
        StatusClass::ClientError
    } else if 500 <= status && status <= 599 {
        StatusClass::ServerError
    } else {
        StatusClass::Other
    }
}

/// Classifies an HTTP response status: 200, 201 and 202 succeed, other
/// 4xx statuses are client errors, 5xx are server errors, and the rest
/// is unexpected.
pub fn classify_status(status: u16) -> (r: StatusClass)
    ensures
        r == status_class_spec(status),
{
    if status == 200 || status == 201 || status == 202 {
        StatusClass::Success
    } else if 400 <= status && status <= 499 {
        StatusClass::ClientError
    } else if 500 <= status && status <= 599 {
        StatusClass::ServerError
    } else {
        StatusClass::Other
    }
}

/// Why one upload attempt failed: a closed taxonomy set where the
/// failure happens, in place of re-parsing rendered error text.
#[derive(Clone, Copy, Debug, PartialEq, Eq, Structural)]
pub enum UploadErrorKind {
    /// The request timed out.
    Timeout,
    /// The connection could not be made or was lost.
    ConnectionFailed,
    /// The service answered with a 5xx status.
    ServerError(u16),
    /// The service rejected the request with a 4xx status.
    ClientError(u16),
    /// Anything else: serialization, unexpected status, and the rest.
    Other,
}

/// The failure kind owed for a non-success HTTP status.
pub open spec fn status_error_kind_spec(status: u16) -> UploadErrorKind {
    if 400 <= status && status <= 499 {
        UploadErrorKind::ClientError(status)
    } else if 500 <= status && status <= 599 {
        UploadErrorKind::ServerError(status)
    } else {
        UploadErrorKind::Other
    }
}

/// The failure kind a non-success HTTP status is recorded as.
pub fn status_error_kind(status: u16) -> (r: UploadErrorKind)
    ensures
        r == status_error_kind_spec(status),
{
    if 400 <= status && status <= 499 {
        UploadErrorKind::ClientError(status)
    } else if 500 <= status && status <= 599 {
        UploadErrorKind::ServerError(status)
    } else {
        UploadErrorKind::Other
    }
}

/// True for the transient failures worth retrying: timeouts, failed
/// connections, and server-side 5xx errors. Client errors and the rest
/// fail at once.
pub open spec fn retryable_spec(kind: UploadErrorKind) -> bool {
    kind is Timeout || kind is ConnectionFailed || kind is ServerError
}

/// The running state of one upload's retry loop.
#[derive(Clone, Copy, Debug, PartialEq, Eq, Structural)]
pub struct RetryState {
    /// Attempts made so far.
    pub attempt: u32,
    /// The wait before the next retry, in seconds.
    pub backoff_secs: u64,
    /// The attempt ceiling.
    pub max_attempts: u32,
}

/// What the retry policy decides after a failed attempt.
#[derive(Clone, Copy, Debug, PartialEq, Eq, Structural)]
pub enum RetryDecision {
    /// Sleep this many seconds, then attempt again.
    RetryAfter(u64),
    /// The attempt ceiling is spent: fail the upload.
    GiveUpTerminal,
    /// The failure is not transient: fail at once, with budget to spare.
    GiveUpNonRetryable,
}

/// The next backoff: doubled, capped at thirty seconds.
pub open spec fn next_backoff_spec(b: int) -> int {
    if 2 * b <= 30 {
        2 * b
    } else {
        30
    }
}

/// One step of the retry policy after a failed attempt: the attempt
/// count grows; at the ceiling the upload fails; below it, a retryable
/// failure waits the current backoff and doubles it (capped), and any
/// other failure gives up at once.
pub open spec fn retry_step_spec(s: RetryState, retryable: bool) -> (RetryState, RetryDecision) {
    let bumped = RetryState { attempt: (s.attempt + 1) as u32, ..s };
    if bumped.attempt >= s.max_attempts {
        (bumped, RetryDecision::GiveUpTerminal)
    } else if retryable {
        (
            RetryState { backoff_secs: next_backoff_spec(s.backoff_secs as int) as u64, ..bumped },
            RetryDecision::RetryAfter(s.backoff_secs),
        )
    } else {
        (bumped, RetryDecision::GiveUpNonRetryable)
    }
}

impl RetryState {
    /// Records one failed attempt and takes the policy's decision for
    /// `kind`.
    pub fn on_failure(&mut self, kind: &UploadErrorKind) -> (r: RetryDecision)
        requires
            old(self).attempt < 0xffff_ffffu32,
        ensures
            (*final(self), r) == retry_step_spec(*old(self), retryable_spec(*kind)),
    {
        self.attempt = self.attempt + 1;
        if self.attempt >= self.max_attempts {
            return RetryDecision::GiveUpTerminal;
        }
        let retryable = match kind {
            UploadErrorKind::Timeout => true,
            UploadErrorKind::ConnectionFailed => true,
            UploadErrorKind::ServerError(_) => true,
            UploadErrorKind::ClientError(_) => false,
            UploadErrorKind::Other => false,
        };
        if retryable {
            let wait = self.backoff_secs;
            self.backoff_secs = if self.backoff_secs >= 15 {
                30
            } else {
                self.backoff_secs * 2
            };
            RetryDecision::RetryAfter(wait)
        } else {
            RetryDecision::GiveUpNonRetryable
        }
    }
}

/// Uploads one file per call under a fixed endpoint, encoding mode and
/// auth scheme, retrying transient failures with bounded backoff.
pub struct Uploader {
    api_config: ApiConfig,
    retry_config: RetryConfig,
}

/// The views of a sequence of key-value string pairs.
pub open spec fn pair_seq_views(v: Seq<(String, String)>) -> Seq<(Seq<char>, Seq<char>)> {
    Seq::new(v.len(), |i: int| (v[i].0@, v[i].1@))
}

proof fn lemma_pair_seq_views_push(v: Seq<(String, String)>, x: (String, String))
    ensures
        pair_seq_views(v.push(x)) =~~= pair_seq_views(v).push((x.0@, x.1@)),
{
}

impl Uploader {
    /// The endpoint and encoding settings this uploader follows.
    pub closed spec fn spec_api_config(&self) -> ApiConfig {
        self.api_config
    }

    /// The retry settings this uploader follows.
    pub closed spec fn spec_retry_config(&self) -> RetryConfig {
        self.retry_config
    }

    /// Builds an uploader, refusing a malformed auth configuration at
    /// once: a missing bearer token, missing basic credentials, or an
    /// unknown auth mode never reaches a request.
    pub fn new(api_config: &ApiConfig, retry_config: &RetryConfig) -> (r: Result<
        Uploader,
        UploadConfigError,
    >)
        ensures
            r is Ok <==> auth_check_spec(*api_config) is Ok,
            r matches Err(e) ==> Err::<(), UploadConfigError>(e) == auth_check_spec(*api_config),
            r matches Ok(u) ==> ({
                let c = u.spec_api_config();
                &&& c.endpoint == api_config.endpoint
                &&& c.mode == api_config.mode
                &&& c.field_name == api_config.field_name
                &&& c.extra_fields@ == api_config.extra_fields@
                &&& c.json_filename_key == api_config.json_filename_key
                &&& c.json_data_key == api_config.json_data_key
                &&& c.auth == api_config.auth
                &&& c.bearer_token == api_config.bearer_token
                &&& c.basic_username == api_config.basic_username
                &&& c.basic_password == api_config.basic_password
                &&& u.spec_retry_config() == *retry_config
            }),
    {
        let auth = api_config.auth.as_str();
        if crate::text::str_eq_str(auth, "bearer") {
            if api_config.bearer_token.as_str().is_empty() {
                return Err(UploadConfigError::MissingBearerToken);
            }
        } else if crate::text::str_eq_str(auth, "basic") {
            if api_config.basic_username.as_str().is_empty()
                || api_config.basic_password.as_str().is_empty() {
                return Err(UploadConfigError::MissingBasicCredentials);
            }
        } else if !crate::text::str_eq_str(auth, "none") {
            return Err(UploadConfigError::InvalidAuthType);
        }
        let mut extra: Vec<(String, String)> = Vec::new();
        let n = api_config.extra_fields.len();
        let mut i: usize = 0;
        while i < n
            invariant
                0 <= i <= n,
                n == api_config.extra_fields@.len(),
                extra@.len() == i,
                forall|k: int| 0 <= k < i ==> #[trigger] extra@[k] == api_config.extra_fields@[k],
            decreases n - i,
        {
            extra.push(
                (api_config.extra_fields[i].0.clone(), api_config.extra_fields[i].1.clone()),
            );
            i = i + 1;
        }
        proof {
            assert(extra@ =~= api_config.extra_fields@);
        }
        Ok(
            Uploader {
                api_config: ApiConfig {
                    endpoint: api_config.endpoint.clone(),
                    mode: api_config.mode.clone(),
                    field_name: api_config.field_name.clone(),
                    extra_fields: extra,
                    json_filename_key: api_config.json_filename_key.clone(),
                    json_data_key: api_config.json_data_key.clone(),
                    auth: api_config.auth.clone(),
                    bearer_token: api_config.bearer_token.clone(),
                    basic_username: api_config.basic_username.clone(),
                    basic_password: api_config.basic_password.clone(),
                },
                retry_config: RetryConfig {
                    max_attempts: retry_config.max_attempts,
                    initial_backoff_secs: retry_config.initial_backoff_secs,
                },
            },
        )
    }

    /// A fresh retry state for one upload: no attempts made, the
    /// configured initial backoff pending.
    pub fn retry_state(&self) -> (r: RetryState)
        ensures
            r.attempt == 0,
            r.backoff_secs == self.spec_retry_config().initial_backoff_secs,
            r.max_attempts == self.spec_retry_config().max_attempts,
    {
        RetryState {
            attempt: 0,
            backoff_secs: self.retry_config.initial_backoff_secs,
            max_attempts: self.retry_config.max_attempts,
        }
    }

    /// True for the transient failures worth retrying.
    pub fn is_retryable_error(&self, kind: &UploadErrorKind) -> (r: bool)
        ensures
            r == retryable_spec(*kind),
    {
        match kind {
            UploadErrorKind::Timeout => true,
            UploadErrorKind::ConnectionFailed => true,
            UploadErrorKind::ServerError(_) => true,
            UploadErrorKind::ClientError(_) => false,
            UploadErrorKind::Other => false,
        }
    }

    /// The fields of the base64-embedded JSON upload body, in insertion
    /// order: the filename under the configured filename key, the file
    /// bytes base64-encoded under the configured data key, then the
    /// extra static fields — a later key overwrites an earlier equal
    /// one when the consumer builds the JSON object in this order.
    pub fn json_payload_fields(&self, original_filename: &str, file_bytes: &Vec<u8>) -> (r: Vec<
        (String, String),
    >)
        ensures
            pair_seq_views(r@) == seq![
                (self.spec_api_config().json_filename_key@, original_filename@),
                (self.spec_api_config().json_data_key@, base64_chars(file_bytes@)),
            ] + pair_seq_views(self.spec_api_config().extra_fields@),
    {
        let mut r: Vec<(String, String)> = Vec::new();
        let ghost r0 = r@;
        r.push(
            (self.api_config.json_filename_key.clone(), String::from_str(original_filename)),
        );
        proof {
            lemma_pair_seq_views_push(r0, r@.last());
        }
        let ghost r1 = r@;
        r.push((self.api_config.json_data_key.clone(), base64_encode(file_bytes)));
        proof {
            lemma_pair_seq_views_push(r1, r@.last());
        }
        let n = self.api_config.extra_fields.len();
        let mut i: usize = 0;
        while i < n
            invariant
                0 <= i <= n,
                n == self.spec_api_config().extra_fields@.len(),
                r@.len() == i + 2,
                pair_seq_views(r@) =~~= seq![
                    (self.spec_api_config().json_filename_key@, original_filename@),
                    (self.spec_api_config().json_data_key@, base64_chars(file_bytes@)),
                ] + pair_seq_views(self.spec_api_config().extra_fields@.subrange(0, i as int)),
            decreases n - i,
        {
            let ghost pre = r@;
            r.push(
                (
                    self.api_config.extra_fields[i].0.clone(),
                    self.api_config.extra_fields[i].1.clone(),
                ),
            );
            proof {
                lemma_pair_seq_views_push(pre, r@.last());
                assert(r@.last().0@ == self.spec_api_config().extra_fields@[i as int].0@);
                assert(r@.last().1@ == self.spec_api_config().extra_fields@[i as int].1@);
                assert(pair_seq_views(r@) =~~= seq![
                    (self.spec_api_config().json_filename_key@, original_filename@),
                    (self.spec_api_config().json_data_key@, base64_chars(file_bytes@)),
                ] + pair_seq_views(
                    self.spec_api_config().extra_fields@.subrange(0, i + 1 as int),
                ));
            }
            i = i + 1;
        }
        proof {
            assert(self.spec_api_config().extra_fields@.subrange(0, n as int)
                =~= self.spec_api_config().extra_fields@);
            assert(pair_seq_views(r@) =~~= seq![
                (self.spec_api_config().json_filename_key@, original_filename@),
                (self.spec_api_config().json_data_key@, base64_chars(file_bytes@)),
            ] + pair_seq_views(self.spec_api_config().extra_fields@));
        }
        r
    }
}

} // verus!
