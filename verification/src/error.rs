//! The engine's error type.
use vstd::prelude::*;

verus! {

#[verifier::external_type_specification]
#[verifier::external_body]
pub struct ExIoError(std::io::Error);

#[verifier::external_type_specification]
#[verifier::external_body]
pub struct ExTomlDeError(toml::de::Error);

/// Everything that can go wrong in the engine.
#[derive(Debug)]
pub enum LynxError {
    /// The project file does not follow the `.lynx` schema
    ConfigParse(String),
    /// No project file at the given path
    ConfigNotFound(String),
    /// Bundling failed
    Bundle(String),
    /// Extraction failed
    Extract(String),
    /// An I/O operation failed
    Io(std::io::Error),
    /// The project file is not valid TOML
    TomlDe(toml::de::Error),
    /// The project could not be written as TOML
    TomlSer(String),
    /// Compression or decompression failed
    Compression(String),
    /// An install step failed
    StepFailed { step: String, reason: String },
    /// The operation is not supported on this platform
    UnsupportedPlatform(String),
}

/// The mathematical value of a `LynxError`: messages as character sequences;
/// the outside error values are carried as they are.
pub enum ErrorView {
    ConfigParse(Seq<char>),
    ConfigNotFound(Seq<char>),
    Bundle(Seq<char>),
    Extract(Seq<char>),
    Io(std::io::Error),
    TomlDe(toml::de::Error),
    TomlSer(Seq<char>),
    Compression(Seq<char>),
    StepFailed { step: Seq<char>, reason: Seq<char> },
    UnsupportedPlatform(Seq<char>),
}

impl View for LynxError {
    type V = ErrorView;

    open spec fn view(&self) -> ErrorView {
        match self {
            LynxError::ConfigParse(m) => ErrorView::ConfigParse(m@),
            LynxError::ConfigNotFound(m) => ErrorView::ConfigNotFound(m@),
            LynxError::Bundle(m) => ErrorView::Bundle(m@),
            LynxError::Extract(m) => ErrorView::Extract(m@),
            LynxError::Io(e) => ErrorView::Io(*e),
            LynxError::TomlDe(e) => ErrorView::TomlDe(*e),
            LynxError::TomlSer(m) => ErrorView::TomlSer(m@),
            LynxError::Compression(m) => ErrorView::Compression(m@),
            LynxError::StepFailed { step, reason } => ErrorView::StepFailed { step: step@, reason: reason@ },
            LynxError::UnsupportedPlatform(m) => ErrorView::UnsupportedPlatform(m@),
        }
    }
}

/// Result type of the engine's fallible operations.
pub type LynxResult<T> = Result<T, LynxError>;

} // verus!
