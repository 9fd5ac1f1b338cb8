//! What a successful `process` call hands back: the produced clips, in
//! order, and a metadata record about the run.
//!
//! The caller writes each clip to its own output file (named by its
//! position in the list) and owns both the files and their cleanup.

use vstd::prelude::*;
use crate::audio::AudioStreamMeta;

verus! {

/// The tag of the processor that produced a result.
#[derive(Debug, Clone, Copy, PartialEq, Eq, Structural)]
pub enum ProcessorKind {
    Splice,
    Normalize,
}

/// Per-run metadata: which processor ran, the source duration in
/// milliseconds, the source format, and the elapsed wall-clock time. The
/// processors leave `processing_time_ms` at zero; a hosting layer that
/// times the surrounding input and output fills it in.
#[derive(Debug, Clone, Copy, PartialEq, Eq, Structural)]
pub struct ProcessingMetadata {
    pub processor_type: ProcessorKind,
    pub input_duration_ms: u64,
    pub sample_rate: u32,
    pub channels: u16,
    pub processing_time_ms: u64,
}

impl ProcessingMetadata {
    /// The metadata a processor reports for a source with the given
    /// stream metadata.
    pub open spec fn describes(self, kind: ProcessorKind, meta: AudioStreamMeta) -> bool {
        &&& self.processor_type == kind
        &&& self.input_duration_ms == meta.duration_ms()
        &&& self.sample_rate == meta.sample_rate
        &&& self.channels == meta.channels
        &&& self.processing_time_ms == 0
    }
}

/// The ordered clips a processor produced, plus the run's metadata.
#[derive(Debug)]
pub struct ProcessingResult {
    pub clips: Vec<Vec<i16>>,
    pub metadata: ProcessingMetadata,
}

} // verus!
