//! Immutable pipeline configuration: one struct per stage, validated once
//! at startup, then passed by reference into each component.

use vstd::prelude::*;

verus! {

use crate::text::str_eq_str;

/// Settings for the external extraction program that produces report files.
#[derive(Clone, Debug)]
pub struct ExtractionConfig {
    pub executable: String,
    pub subcommand: String,
    pub args: Vec<String>,
    pub env: Vec<(String, String)>,
}

/// Settings for locating report files and waiting for them to settle.
#[derive(Clone, Debug)]
pub struct FilesConfig {
    pub output_dir: String,
    pub file_glob: String,
    pub filename_timestamp_prefix: bool,
    pub stable_size_check_secs: u64,
}

/// Settings for reshaping a raw report into normalized tabular output.
#[derive(Clone, Debug)]
pub struct TransformConfig {
    pub enabled: bool,
    pub format: String,
    pub header_rows_to_skip: usize,
    pub header_match: String,
    pub dedupe_rows: bool,
    pub trim_whitespace: bool,
    pub output_line_ending: String,
}

/// Settings for the upload endpoint: encoding mode, authentication, and
/// the extra static fields sent with every upload.
#[derive(Clone, Debug)]
pub struct ApiConfig {
    pub endpoint: String,
    pub mode: String,
    pub field_name: String,
    pub extra_fields: Vec<(String, String)>,
    pub json_filename_key: String,
    pub json_data_key: String,
    pub auth: String,
    pub bearer_token: String,
    pub basic_username: String,
    pub basic_password: String,
}

/// Settings for upload retry: attempt ceiling and first backoff.
#[derive(Clone, Debug)]
pub struct RetryConfig {
    pub max_attempts: u32,
    pub initial_backoff_secs: u64,
}

/// Settings for the outer run loop.
#[derive(Clone, Debug)]
pub struct LoopConfig {
    pub interval_seconds: u64,
    pub allow_nested: bool,
}

/// Settings for moving processed files aside.
#[derive(Clone, Debug)]
pub struct ArchiveConfig {
    pub enabled: bool,
    pub path: String,
    pub append_timestamp: bool,
}

/// Settings for the remote lookup enrichment service.
#[derive(Clone, Debug)]
pub struct LookupConfig {
    pub enabled: bool,
    pub url: String,
    pub chunk_size: usize,
    pub cookie: String,
    pub timeout_secs: u64,
    pub post_url: String,
}

/// The whole pipeline configuration.
#[derive(Clone, Debug)]
pub struct Config {
    pub extraction: ExtractionConfig,
    pub files: FilesConfig,
    pub transform: TransformConfig,
    pub api: ApiConfig,
    pub retry: RetryConfig,
    pub loop_config: LoopConfig,
    pub archive: ArchiveConfig,
    pub lookup: LookupConfig,
}

/// The first rule a configuration breaks, if any.
#[derive(Clone, Copy, Debug, PartialEq, Eq, Structural)]
pub enum ConfigError {
    EmptyExecutable,
    EmptySubcommand,
    EmptyOutputDir,
    EmptyFileGlob,
    InvalidTransformFormat,
    InvalidLineEnding,
    EmptyEndpoint,
    InvalidApiMode,
    InvalidAuthType,
    ZeroMaxAttempts,
}

/// The outcome `Config::validate` owes for `c`: the first broken rule in
/// checking order, or `Ok` when every rule holds.
pub open spec fn validate_spec(c: Config) -> Result<(), ConfigError> {
    if c.extraction.executable@.len() == 0 {
        Err(ConfigError::EmptyExecutable)
    } else if c.extraction.subcommand@.len() == 0 {
        Err(ConfigError::EmptySubcommand)
    } else if c.files.output_dir@.len() == 0 {
        Err(ConfigError::EmptyOutputDir)
    } else if c.files.file_glob@.len() == 0 {
        Err(ConfigError::EmptyFileGlob)
    } else if c.transform.format@ != "tsv"@ && c.transform.format@ != "csv"@ {
        Err(ConfigError::InvalidTransformFormat)
    } else if c.transform.output_line_ending@ != "crlf"@ && c.transform.output_line_ending@
        != "lf"@ {
        Err(ConfigError::InvalidLineEnding)
    } else if c.api.endpoint@.len() == 0 {
        Err(ConfigError::EmptyEndpoint)
    } else if c.api.mode@ != "multipart"@ && c.api.mode@ != "json_base64"@ {
        Err(ConfigError::InvalidApiMode)
    } else if c.api.auth@ != "none"@ && c.api.auth@ != "bearer"@ && c.api.auth@ != "basic"@ {
        Err(ConfigError::InvalidAuthType)
    } else if c.retry.max_attempts == 0 {
        Err(ConfigError::ZeroMaxAttempts)
    } else {
        Ok(())
    }
}

/// True when `c` breaks none of the validation rules.
pub open spec fn config_valid(c: Config) -> bool {
    validate_spec(c) is Ok
}

impl ConfigError {
    /// The diagnostic text for this error.
    pub fn message(&self) -> (r: &'static str)
        ensures
            r@ == self.message_spec(),
    {
        match self {
            ConfigError::EmptyExecutable => "extraction.executable cannot be empty",
            ConfigError::EmptySubcommand => "extraction.subcommand cannot be empty",
            ConfigError::EmptyOutputDir => "files.output_dir cannot be empty",
            ConfigError::EmptyFileGlob => "files.file_glob cannot be empty",
            ConfigError::InvalidTransformFormat => "transform.format must be 'tsv' or 'csv'",
            ConfigError::InvalidLineEnding => "transform.output_line_ending must be 'crlf' or 'lf'",
            ConfigError::EmptyEndpoint => "api.endpoint cannot be empty",
            ConfigError::InvalidApiMode => "api.mode must be 'multipart' or 'json_base64'",
            ConfigError::InvalidAuthType => "api.auth must be 'none', 'bearer', or 'basic'",
            ConfigError::ZeroMaxAttempts => "retry.max_attempts must be greater than 0",
        }
    }

    /// The diagnostic text owed for each variant.
    pub open spec fn message_spec(&self) -> Seq<char> {
        match self {
            ConfigError::EmptyExecutable => "extraction.executable cannot be empty"@,
            ConfigError::EmptySubcommand => "extraction.subcommand cannot be empty"@,
            ConfigError::EmptyOutputDir => "files.output_dir cannot be empty"@,
            ConfigError::EmptyFileGlob => "files.file_glob cannot be empty"@,
            ConfigError::InvalidTransformFormat => "transform.format must be 'tsv' or 'csv'"@,
            ConfigError::InvalidLineEnding => (
            "transform.output_line_ending must be 'crlf' or 'lf'"@),
            ConfigError::EmptyEndpoint => "api.endpoint cannot be empty"@,
            ConfigError::InvalidApiMode => "api.mode must be 'multipart' or 'json_base64'"@,
            ConfigError::InvalidAuthType => "api.auth must be 'none', 'bearer', or 'basic'"@,
            ConfigError::ZeroMaxAttempts => "retry.max_attempts must be greater than 0"@,
        }
    }
}

impl Config {
    /// Checks every configuration rule in order and reports the first one
    /// broken; a configuration that passes here is accepted by every
    /// component constructor.
    pub fn validate(&self) -> (r: Result<(), ConfigError>)
        ensures
            r == validate_spec(*self),
            r is Ok <==> config_valid(*self),
    {
        if self.extraction.executable.as_str().is_empty() {
            return Err(ConfigError::EmptyExecutable);
        }
        if self.extraction.subcommand.as_str().is_empty() {
            return Err(ConfigError::EmptySubcommand);
        }
        if self.files.output_dir.as_str().is_empty() {
            return Err(ConfigError::EmptyOutputDir);
        }
        if self.files.file_glob.as_str().is_empty() {
            return Err(ConfigError::EmptyFileGlob);
        }
        if !(str_eq_str(self.transform.format.as_str(), "tsv") || str_eq_str(
            self.transform.format.as_str(),
            "csv",
        )) {
            return Err(ConfigError::InvalidTransformFormat);
        }
        if !(str_eq_str(self.transform.output_line_ending.as_str(), "crlf") || str_eq_str(
            self.transform.output_line_ending.as_str(),
            "lf",
        )) {
            return Err(ConfigError::InvalidLineEnding);
        }
        if self.api.endpoint.as_str().is_empty() {
            return Err(ConfigError::EmptyEndpoint);
        }
        if !(str_eq_str(self.api.mode.as_str(), "multipart") || str_eq_str(
            self.api.mode.as_str(),
            "json_base64",
        )) {
            return Err(ConfigError::InvalidApiMode);
        }
        if !(str_eq_str(self.api.auth.as_str(), "none") || str_eq_str(
            self.api.auth.as_str(),
            "bearer",
        ) || str_eq_str(self.api.auth.as_str(), "basic")) {
            return Err(ConfigError::InvalidAuthType);
        }
        if self.retry.max_attempts == 0 {
            return Err(ConfigError::ZeroMaxAttempts);
        }
        Ok(())
    }
}

impl Default for Config {
    /// The built-in configuration used when no file overrides it.
    fn default() -> (r: Config)
        ensures
            r.extraction.executable@ == "C:\\tools\\sap_auto.exe"@,
            r.extraction.subcommand@ == "run-sequence"@,
            r.extraction.args@.len() == 4,
            r.extraction.env@.len() == 0,
            r.files.output_dir@ == "C:\\sap\\outputs"@,
            r.files.file_glob@ == "*_y_149-ALL.txt"@,
            r.files.filename_timestamp_prefix == true,
            r.files.stable_size_check_secs == 2,
            r.transform.enabled == false,
            r.transform.format@ == "tsv"@,
            r.transform.header_rows_to_skip == 6,
            r.transform.header_match@ == "Plant\tDelivery\tMaterial"@,
            r.transform.dedupe_rows == false,
            r.transform.trim_whitespace == true,
            r.transform.output_line_ending@ == "crlf"@,
            r.api.endpoint@ == "https://intranet.local/upload.php"@,
            r.api.mode@ == "multipart"@,
            r.api.field_name@ == "file"@,
            r.api.extra_fields@.len() == 0,
            r.api.json_filename_key@ == "filename"@,
            r.api.json_data_key@ == "data"@,
            r.api.auth@ == "none"@,
            r.api.bearer_token@.len() == 0,
            r.api.basic_username@.len() == 0,
            r.api.basic_password@.len() == 0,
            r.retry.max_attempts == 3,
            r.retry.initial_backoff_secs == 3,
            r.loop_config.interval_seconds == 300,
            r.loop_config.allow_nested == false,
            r.archive.enabled == false,
            r.archive.path@ == "C:\\sap\\archive"@,
            r.archive.append_timestamp == true,
            r.lookup.enabled == false,
            r.lookup.url@.len() == 0,
            r.lookup.chunk_size == 50,
            r.lookup.cookie@.len() == 0,
            r.lookup.timeout_secs == 30,
            r.lookup.post_url@.len() == 0,
    {
        let mut args: Vec<String> = Vec::new();
        args.push(String::from_str("--plant"));
        args.push(String::from_str("149"));
        args.push(String::from_str("--cols"));
        args.push(String::from_str("plant,material,delivery"));
        proof {
            reveal_strlit("");
        }
        Config {
            extraction: ExtractionConfig {
                executable: String::from_str("C:\\tools\\sap_auto.exe"),
                subcommand: String::from_str("run-sequence"),
                args,
                env: Vec::new(),
            },
            files: FilesConfig {
                output_dir: String::from_str("C:\\sap\\outputs"),
                file_glob: String::from_str("*_y_149-ALL.txt"),
                filename_timestamp_prefix: true,
                stable_size_check_secs: 2,
            },
            transform: TransformConfig {
                enabled: false,
                format: String::from_str("tsv"),
                header_rows_to_skip: 6,
                header_match: String::from_str("Plant\tDelivery\tMaterial"),
                dedupe_rows: false,
                trim_whitespace: true,
                output_line_ending: String::from_str("crlf"),
            },
            api: ApiConfig {
                endpoint: String::from_str("https://intranet.local/upload.php"),
                mode: String::from_str("multipart"),
                field_name: String::from_str("file"),
                extra_fields: Vec::new(),
                json_filename_key: String::from_str("filename"),
                json_data_key: String::from_str("data"),
                auth: String::from_str("none"),
                bearer_token: String::new(),
                basic_username: String::new(),
                basic_password: String::new(),
            },
            retry: RetryConfig { max_attempts: 3, initial_backoff_secs: 3 },
            loop_config: LoopConfig { interval_seconds: 300, allow_nested: false },
            archive: ArchiveConfig {
                enabled: false,
                path: String::from_str("C:\\sap\\archive"),
                append_timestamp: true,
            },
            lookup: LookupConfig {
                enabled: false,
                url: String::new(),
                chunk_size: 50,
                cookie: String::new(),
                timeout_secs: 30,
                post_url: String::new(),
            },
        }
    }
}

} // verus!
