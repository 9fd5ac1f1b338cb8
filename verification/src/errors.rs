//! Error kinds shared by the processors.
//!
//! Every failure of the library is one of these kinds, each carrying a
//! human-readable message. The callers that perform file input and output
//! construct the `IoError`, `WavError` and `FileNotFound` kinds from the
//! failures they observe; the processors themselves only produce the
//! validation and processing kinds.

use vstd::prelude::*;

verus! {

/// A typed processing failure.
#[derive(Debug)]
pub enum AudioError {
    /// A filesystem operation failed.
    IoError(String),
    /// The WAV container could not be decoded or encoded.
    WavError(String),
    /// A splice duration was rejected by validation.
    InvalidDuration(String),
    /// A splice count was rejected by validation.
    InvalidSpliceCount(String),
    /// A processing failure: wrong configuration variant, silent input,
    /// or an empty sampling range.
    ProcessingError(String),
    /// The source file does not exist.
    FileNotFound(String),
    /// The source container is malformed.
    InvalidFormat(String),
}

pub type AudioResult<T> = Result<T, AudioError>;

impl AudioError {
    /// The machine-matchable tag of this error kind.
    pub fn kind_name(&self) -> (r: &'static str)
        ensures
            r@ == match self {
                AudioError::IoError(_) => "IoError"@,
                AudioError::WavError(_) => "WavError"@,
                AudioError::InvalidDuration(_) => "InvalidDuration"@,
                AudioError::InvalidSpliceCount(_) => "InvalidSpliceCount"@,
                AudioError::ProcessingError(_) => "ProcessingError"@,
                AudioError::FileNotFound(_) => "FileNotFound"@,
                AudioError::InvalidFormat(_) => "InvalidFormat"@,
            },
    {
        match self {
            AudioError::IoError(_) => "IoError",
            AudioError::WavError(_) => "WavError",
            AudioError::InvalidDuration(_) => "InvalidDuration",
            AudioError::InvalidSpliceCount(_) => "InvalidSpliceCount",
            AudioError::ProcessingError(_) => "ProcessingError",
            AudioError::FileNotFound(_) => "FileNotFound",
            AudioError::InvalidFormat(_) => "InvalidFormat",
        }
    }

    /// The HTTP status that a serving layer reports for this kind:
    /// validation errors map to 400, a missing file to 404, and every
    /// other failure to 500.
    pub fn status_code(&self) -> (r: u16)
        ensures
            r == match self {
                AudioError::InvalidDuration(_) => 400u16,
                AudioError::InvalidSpliceCount(_) => 400u16,
                AudioError::FileNotFound(_) => 404u16,
                _ => 500u16,
            },
    {
        match self {
            AudioError::InvalidDuration(_) | AudioError::InvalidSpliceCount(_) => 400,
            AudioError::FileNotFound(_) => 404,
            _ => 500,
        }
    }

    /// The message carried by this error.
    pub fn message(&self) -> (r: &String)
        ensures
            r@ == match self {
                AudioError::IoError(m) => m@,
                AudioError::WavError(m) => m@,
                AudioError::InvalidDuration(m) => m@,
                AudioError::InvalidSpliceCount(m) => m@,
                AudioError::ProcessingError(m) => m@,
                AudioError::FileNotFound(m) => m@,
                AudioError::InvalidFormat(m) => m@,
            },
    {
        match self {
            AudioError::IoError(m) => m,
            AudioError::WavError(m) => m,
            AudioError::InvalidDuration(m) => m,
            AudioError::InvalidSpliceCount(m) => m,
            AudioError::ProcessingError(m) => m,
            AudioError::FileNotFound(m) => m,
            AudioError::InvalidFormat(m) => m,
        }
    }
}

} // verus!
