//! What can go wrong during a sync.
use crate::text::{decimal, decimal_text, joined};
use vstd::prelude::*;
use vstd::std_specs::convert::FromSpecImpl;
use vstd::string::*;

verus! {

/// An input or output error of the operating system.
#[verifier::external_type_specification]
#[verifier::external_body]
pub struct ExIoError(std::io::Error);

/// An error of the directory walker or of one of its globs.
#[verifier::external_type_specification]
#[verifier::external_body]
pub struct ExIgnoreError(ignore::Error);

/// An error of the HTTP client.
#[verifier::external_type_specification]
#[verifier::external_body]
pub struct ExReqwestError(reqwest::Error);

/// An answer of the Roblox cloud that is not a success.
#[derive(Debug)]
pub enum RbxCloudError {
    /// The service answered with a status other than success.
    HttpStatusError { code: u16, msg: String },
    /// Anything else, as the client words it.
    Other { message: String },
}

/// A configuration that cannot be used.
#[derive(Debug)]
pub enum ConfigError {
    /// No target has the key that was asked for.
    UnknownTarget,
    /// The configuration could not be read.
    Unreadable { message: String },
}

/// The state of earlier syncs could not be read or written.
#[derive(Debug)]
pub struct StateError {
    pub message: String,
}

/// An asset could not be made ready for use.
#[derive(Debug)]
pub struct PreprocessError {
    pub message: String,
}

/// The content folders could not be linked.
#[derive(Debug)]
pub struct SymlinkError {
    pub message: String,
}

/// Why a sync, or the sync of one asset, failed.
#[allow(inconsistent_fields)]
#[derive(Debug)]
pub enum SyncError {
    /// API key is required for Roblox sync targets.
    MissingApiKey,
    /// User ID or group ID is required for Roblox sync targets.
    MissingCreator,
    /// A matched file is not supported.
    Unsupported { path: String, source: RbxCloudError },
    /// Failed to upload file.
    UploadFailed,
    /// Upload not finished.
    UploadNotDone,
    /// The sync finished, with errors on the way.
    HadErrors { error_count: usize },
    Preprocess { source: PreprocessError },
    Config { source: ConfigError },
    State { source: StateError },
    SymlinkError { source: SymlinkError },
    Io { source: std::io::Error },
    Ignore { source: ignore::Error },
    RbxCloud { source: RbxCloudError },
    /// Roblox API error.
    RobloxApi,
    Reqwest { source: reqwest::Error },
}

impl From<PreprocessError> for SyncError {
    fn from(source: PreprocessError) -> (r: Self) {
        SyncError::Preprocess { source }
    }
}

impl FromSpecImpl<PreprocessError> for SyncError {
    open spec fn obeys_from_spec() -> bool {
        true
    }

    open spec fn from_spec(source: PreprocessError) -> Self {
        SyncError::Preprocess { source }
    }
}

impl From<ConfigError> for SyncError {
    fn from(source: ConfigError) -> (r: Self) {
        SyncError::Config { source }
    }
}

impl FromSpecImpl<ConfigError> for SyncError {
    open spec fn obeys_from_spec() -> bool {
        true
    }

    open spec fn from_spec(source: ConfigError) -> Self {
        SyncError::Config { source }
    }
}

impl From<StateError> for SyncError {
    fn from(source: StateError) -> (r: Self) {
        SyncError::State { source }
    }
}

impl FromSpecImpl<StateError> for SyncError {
    open spec fn obeys_from_spec() -> bool {
        true
    }

    open spec fn from_spec(source: StateError) -> Self {
        SyncError::State { source }
    }
}

impl From<SymlinkError> for SyncError {
    fn from(source: SymlinkError) -> (r: Self) {
        SyncError::SymlinkError { source }
    }
}

impl FromSpecImpl<SymlinkError> for SyncError {
    open spec fn obeys_from_spec() -> bool {
        true
    }

    open spec fn from_spec(source: SymlinkError) -> Self {
        SyncError::SymlinkError { source }
    }
}

impl From<std::io::Error> for SyncError {
    fn from(source: std::io::Error) -> (r: Self) {
        SyncError::Io { source }
    }
}

impl FromSpecImpl<std::io::Error> for SyncError {
    open spec fn obeys_from_spec() -> bool {
        true
    }

    open spec fn from_spec(source: std::io::Error) -> Self {
        SyncError::Io { source }
    }
}

impl From<ignore::Error> for SyncError {
    fn from(source: ignore::Error) -> (r: Self) {
        SyncError::Ignore { source }
    }
}

impl FromSpecImpl<ignore::Error> for SyncError {
    open spec fn obeys_from_spec() -> bool {
        true
    }

    open spec fn from_spec(source: ignore::Error) -> Self {
        SyncError::Ignore { source }
    }
}

impl From<RbxCloudError> for SyncError {
    fn from(source: RbxCloudError) -> (r: Self) {
        SyncError::RbxCloud { source }
    }
}

impl FromSpecImpl<RbxCloudError> for SyncError {
    open spec fn obeys_from_spec() -> bool {
        true
    }

    open spec fn from_spec(source: RbxCloudError) -> Self {
        SyncError::RbxCloud { source }
    }
}

impl From<reqwest::Error> for SyncError {
    fn from(source: reqwest::Error) -> (r: Self) {
        SyncError::Reqwest { source }
    }
}

impl FromSpecImpl<reqwest::Error> for SyncError {
    open spec fn obeys_from_spec() -> bool {
        true
    }

    open spec fn from_spec(source: reqwest::Error) -> Self {
        SyncError::Reqwest { source }
    }
}

impl RbxCloudError {
    /// What the error says.
    pub open spec fn text(self) -> Seq<char> {
        match self {
            RbxCloudError::HttpStatusError { code, msg } => "http "@ + decimal_text(code as nat)
                + ": "@ + msg@,
            RbxCloudError::Other { message } => message@,
        }
    }

    /// Says what the error is.
    pub fn message(&self) -> (r: String)
        ensures
            r@ == self.text(),
    {
        match self {
            RbxCloudError::HttpStatusError { code, msg } => {
                let front = joined("http ", decimal(*code as u64).as_str());
                let front = joined(front.as_str(), ": ");
                joined(front.as_str(), msg.as_str())
            },
            RbxCloudError::Other { message } => message.clone(),
        }
    }
}

impl ConfigError {
    /// What the error says.
    pub open spec fn text(self) -> Seq<char> {
        match self {
            ConfigError::UnknownTarget => "Unknown target"@,
            ConfigError::Unreadable { message } => message@,
        }
    }

    /// Says what the error is.
    pub fn message(&self) -> (r: String)
        ensures
            r@ == self.text(),
    {
        match self {
            ConfigError::UnknownTarget => "Unknown target".to_owned(),
            ConfigError::Unreadable { message } => message.clone(),
        }
    }
}

/// `std::io::Error`'s `to_string` says what the error is. Nothing is claimed of
/// the text, which may come from the operating system.
#[verifier::external_body]
fn io_message(error: &std::io::Error) -> (r: String) {
    error.to_string()
}

/// `ignore::Error`'s `to_string` says what the error is. Nothing is claimed of
/// the text, which may hold that of an error of the operating system.
#[verifier::external_body]
fn ignore_message(error: &ignore::Error) -> (r: String) {
    error.to_string()
}

/// `reqwest::Error`'s `to_string` says what the error is. Nothing is claimed of
/// the text, which may hold that of an error of the operating system.
#[verifier::external_body]
fn reqwest_message(error: &reqwest::Error) -> (r: String) {
    error.to_string()
}

impl SyncError {
    /// What the error says, unless that is up to the operating system or the
    /// network.
    pub open spec fn text(self) -> Option<Seq<char>> {
        match self {
            SyncError::MissingApiKey => Some("API key is required for Roblox sync targets"@),
            SyncError::MissingCreator => Some(
                "User ID or group ID is required for Roblox sync targets"@,
            ),
            SyncError::Unsupported { path, source } => Some(
                "Matched file at "@ + path@ + " is not supported"@,
            ),
            SyncError::UploadFailed => Some("Failed to upload file"@),
            SyncError::UploadNotDone => Some("Upload not finished"@),
            SyncError::HadErrors { error_count } => Some(
                "Sync finished with "@ + decimal_text(error_count as nat) + " error(s)"@,
            ),
            SyncError::Preprocess { source } => Some(source.message@),
            SyncError::Config { source } => Some(source.text()),
            SyncError::State { source } => Some(source.message@),
            SyncError::SymlinkError { source } => Some(source.message@),
            SyncError::Io { source } => None,
            SyncError::Ignore { source } => None,
            SyncError::RbxCloud { source } => Some(source.text()),
            SyncError::RobloxApi => Some("Roblox API error"@),
            SyncError::Reqwest { source } => None,
        }
    }

    /// Says what the error is.
    pub fn message(&self) -> (r: String)
        ensures
            self.text() matches Some(text) ==> r@ == text,
    {
        match self {
            SyncError::MissingApiKey => "API key is required for Roblox sync targets".to_owned(),
            SyncError::MissingCreator => {
                "User ID or group ID is required for Roblox sync targets".to_owned()
            },
            SyncError::Unsupported { path, .. } => {
                let front = joined("Matched file at ", path.as_str());
                joined(front.as_str(), " is not supported")
            },
            SyncError::UploadFailed => "Failed to upload file".to_owned(),
            SyncError::UploadNotDone => "Upload not finished".to_owned(),
            SyncError::HadErrors { error_count } => {
                let front = joined("Sync finished with ", decimal(*error_count as u64).as_str());
                joined(front.as_str(), " error(s)")
            },
            SyncError::Preprocess { source } => source.message.clone(),
            SyncError::Config { source } => source.message(),
            SyncError::State { source } => source.message.clone(),
            SyncError::SymlinkError { source } => source.message.clone(),
            SyncError::Io { source } => io_message(source),
            SyncError::Ignore { source } => ignore_message(source),
            SyncError::RbxCloud { source } => source.message(),
            SyncError::RobloxApi => "Roblox API error".to_owned(),
            SyncError::Reqwest { source } => reqwest_message(source),
        }
    }
}

/// An error that a session notes down and goes on after.
#[derive(Debug)]
pub enum SessionError {
    /// The sync of one asset failed.
    Sync(SyncError),
    /// The directory walk stumbled over one entry.
    Walk(ignore::Error),
    /// Code generation failed.
    Codegen { message: String },
}

impl SessionError {
    /// What the error says, unless that is up to the operating system or the
    /// network.
    pub open spec fn text(self) -> Option<Seq<char>> {
        match self {
            SessionError::Sync(error) => error.text(),
            SessionError::Walk(_) => None,
            SessionError::Codegen { message } => Some(message@),
        }
    }

    /// Says what the error is.
    pub fn message(&self) -> (r: String)
        ensures
            self.text() matches Some(text) ==> r@ == text,
    {
        match self {
            SessionError::Sync(error) => error.message(),
            SessionError::Walk(error) => ignore_message(error),
            SessionError::Codegen { message } => message.clone(),
        }
    }
}

/// Notes `error` down behind those noted before.
pub fn raise_error(error: SessionError, errors: &mut Vec<SessionError>)
    ensures
        final(errors)@ == old(errors)@.push(error),
{
    errors.push(error);
}

} // verus!
