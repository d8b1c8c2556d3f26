//! Failure modes of the run core and their process exit codes.
use crate::text::{contains, str_contains};
use vstd::prelude::*;

verus! {

/// Exit codes in the style of BSD `sysexits.h`.
pub const EXIT_OK: u8 = 0;
pub const EXIT_GENERAL_ERROR: u8 = 1;
pub const EXIT_USAGE: u8 = 64;
pub const EXIT_DATAERR: u8 = 65;
pub const EXIT_NOINPUT: u8 = 66;
pub const EXIT_UNAVAILABLE: u8 = 69;
pub const EXIT_SOFTWARE: u8 = 70;
pub const EXIT_CANTCREAT: u8 = 73;
pub const EXIT_IOERR: u8 = 74;
pub const EXIT_TEMPFAIL: u8 = 75;
pub const EXIT_NOPERM: u8 = 77;
pub const EXIT_CONFIG: u8 = 78;

/// Why a settings document was refused.
#[derive(Debug, Clone)]
pub enum SettingsValidationError {
    InvalidSchemaVersion(String),
    InvalidPermissionMode(String),
    InvalidPathPattern { path: String, reason: String },
    InvalidMaxBatchCu(u32),
    InvalidMaxBatchSteps(u32),
}

/// Every failure the run core reports. A foreign cause is carried as its message.
#[allow(inconsistent_fields)]
#[derive(Debug, Clone)]
pub enum NexusError {
    InvalidRunId(String),
    EventLogLocked,
    EventLogNotFound(String),
    EventLogCorrupted { line: usize, message: String },
    Serialization(String),
    PermissionDenied { action: String, reason: Option<String> },
    PatchFailed { path: String, reason: String },
    ConfigError { message: String, path: Option<String> },
    ConfigLoad { path: String, message: String },
    ConfigParse { path: String, message: String },
    ConfigValidation { path: String, source: SettingsValidationError },
    ApiError { message: String, status_code: Option<u16> },
    IoError { operation: String, path: String, message: String },
    ValidationError { message: String, field: Option<String> },
    JsonError { context: String, message: String },
    PathRejected { path: String, reason: String },
    MissingApiKey,
    RequestTimeout { timeout_secs: u64 },
    RateLimited { retry_after: Option<u64> },
    ModelNotAvailable { model: String },
    ResponseParseFailed { context: String, raw_response: Option<String> },
    StreamInterrupted { message: String },
}

/// The exit code that reports `e`.
pub open spec fn exit_code_spec(e: NexusError) -> u8 {
    match e {
        NexusError::InvalidRunId(_) => EXIT_USAGE,
        NexusError::EventLogLocked => EXIT_TEMPFAIL,
        NexusError::EventLogNotFound(_) => EXIT_NOINPUT,
        NexusError::EventLogCorrupted { .. } => EXIT_DATAERR,
        NexusError::Serialization(_) => EXIT_DATAERR,
        NexusError::PermissionDenied { .. } => EXIT_NOPERM,
        NexusError::PatchFailed { .. } => EXIT_DATAERR,
        NexusError::ConfigError { .. } => EXIT_CONFIG,
        NexusError::ConfigLoad { .. } => EXIT_NOINPUT,
        NexusError::ConfigParse { .. } => EXIT_CONFIG,
        NexusError::ConfigValidation { .. } => EXIT_CONFIG,
        NexusError::ApiError { .. } => EXIT_UNAVAILABLE,
        NexusError::IoError { operation, .. } => if contains(operation@, "read"@) {
            EXIT_NOINPUT
        } else {
            EXIT_IOERR
        },
        NexusError::ValidationError { .. } => EXIT_DATAERR,
        NexusError::JsonError { .. } => EXIT_DATAERR,
        NexusError::PathRejected { .. } => EXIT_NOPERM,
        NexusError::MissingApiKey => EXIT_CONFIG,
        NexusError::RequestTimeout { .. } => EXIT_UNAVAILABLE,
        NexusError::RateLimited { .. } => EXIT_UNAVAILABLE,
        NexusError::ModelNotAvailable { .. } => EXIT_CONFIG,
        NexusError::ResponseParseFailed { .. } => EXIT_DATAERR,
        NexusError::StreamInterrupted { .. } => EXIT_IOERR,
    }
}

impl NexusError {
    /// The process exit code for this error.
    pub fn exit_code(&self) -> (r: u8)
        ensures
            r == exit_code_spec(*self),
    {
        match self {
            NexusError::InvalidRunId(_) => EXIT_USAGE,
            NexusError::EventLogLocked => EXIT_TEMPFAIL,
            NexusError::EventLogNotFound(_) => EXIT_NOINPUT,
            NexusError::EventLogCorrupted { .. } => EXIT_DATAERR,
            NexusError::Serialization(_) => EXIT_DATAERR,
            NexusError::PermissionDenied { .. } => EXIT_NOPERM,
            NexusError::PatchFailed { .. } => EXIT_DATAERR,
            NexusError::ConfigError { .. } => EXIT_CONFIG,
            NexusError::ConfigLoad { .. } => EXIT_NOINPUT,
            NexusError::ConfigParse { .. } => EXIT_CONFIG,
            NexusError::ConfigValidation { .. } => EXIT_CONFIG,
            NexusError::ApiError { .. } => EXIT_UNAVAILABLE,
            NexusError::IoError { operation, .. } => {
                if str_contains(operation.as_str(), "read") {
                    EXIT_NOINPUT
                } else {
                    EXIT_IOERR
                }
            },
            NexusError::ValidationError { .. } => EXIT_DATAERR,
            NexusError::JsonError { .. } => EXIT_DATAERR,
            NexusError::PathRejected { .. } => EXIT_NOPERM,
            NexusError::MissingApiKey => EXIT_CONFIG,
            NexusError::RequestTimeout { .. } => EXIT_UNAVAILABLE,
            NexusError::RateLimited { .. } => EXIT_UNAVAILABLE,
            NexusError::ModelNotAvailable { .. } => EXIT_CONFIG,
            NexusError::ResponseParseFailed { .. } => EXIT_DATAERR,
            NexusError::StreamInterrupted { .. } => EXIT_IOERR,
        }
    }
}

/// The exit code for a failure at the program's top level: the error's own code where it
/// is one of this library's errors, `EXIT_IOERR` for a bare I/O error, and
/// `EXIT_GENERAL_ERROR` for anything else.
pub fn exit_code_from_anyhow(err: Option<&NexusError>, is_io_error: bool) -> (r: u8)
    ensures
        r == match err {
            Some(e) => exit_code_spec(*e),
            None => if is_io_error {
                EXIT_IOERR
            } else {
                EXIT_GENERAL_ERROR
            },
        },
{
    match err {
        Some(e) => e.exit_code(),
        None => if is_io_error {
            EXIT_IOERR
        } else {
            EXIT_GENERAL_ERROR
        },
    }
}

} // verus!
