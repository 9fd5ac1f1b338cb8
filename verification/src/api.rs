//! The plain value shapes exchanged with a hosting request boundary:
//! request and response envelopes, health and error bodies. A serving
//! layer maps its wire formats onto these one to one.

use vstd::prelude::*;
use crate::config::ProcessorConfig;
use crate::result::ProcessingResult;

verus! {

/// A request to process an uploaded source: its configuration variant.
#[derive(Debug)]
pub struct ProcessAudioRequest {
    pub config: ProcessorConfig,
}

/// The envelope a serving layer reports a run with: either a result or
/// an error message, never both.
#[derive(Debug)]
pub struct ProcessAudioResponse {
    pub success: bool,
    pub result: Option<ProcessingResult>,
    pub error: Option<String>,
}

impl ProcessAudioResponse {
    /// The envelope of a successful run.
    pub fn success(result: ProcessingResult) -> (r: Self)
        ensures
            r.success == true,
            r.result == Some(result),
            r.error is None,
    {
        Self { success: true, result: Some(result), error: None }
    }

    /// The envelope of a failed run.
    pub fn error(message: String) -> (r: Self)
        ensures
            r.success == false,
            r.result is None,
            r.error == Some(message),
    {
        Self { success: false, result: None, error: Some(message) }
    }
}

/// The body of a health report.
#[derive(Debug)]
pub struct HealthResponse {
    pub status: String,
    pub version: String,
    pub uptime_seconds: u64,
}

/// The structured error body a serving layer returns: a human-readable
/// message, the machine-matchable kind tag, and a timestamp.
#[derive(Debug)]
pub struct ErrorResponse {
    pub error: String,
    pub error_type: String,
    pub timestamp: String,
}

} // verus!
