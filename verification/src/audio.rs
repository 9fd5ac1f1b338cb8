//! The in-memory form of a decoded source recording: its stream metadata
//! and its interleaved 16-bit samples.

use vstd::prelude::*;
use vstd::arithmetic::div_mod::lemma_fundamental_div_mod;
use crate::errors::{AudioError, AudioResult};

verus! {

/// Read-only per-source metadata: sample rate in Hz, channel count, and
/// the total number of sample frames (one frame holds one sample per
/// channel).
#[derive(Debug, Clone, Copy, PartialEq, Eq, Structural)]
pub struct AudioStreamMeta {
    pub sample_rate: u32,
    pub channels: u16,
    pub total_frames: u32,
}

impl AudioStreamMeta {
    /// Rate and channel count are positive.
    pub open spec fn is_valid(self) -> bool {
        self.sample_rate >= 1 && self.channels >= 1
    }

    /// The total duration in whole milliseconds:
    /// `total_frames * 1000 / sample_rate`, rounded down.
    pub open spec fn duration_ms(self) -> int {
        ((self.total_frames as int) * 1000) / (self.sample_rate as int)
    }

    /// Computes the total duration in milliseconds.
    pub fn input_duration_ms(&self) -> (r: u64)
        requires
            self.is_valid(),
        ensures
            r == self.duration_ms(),
    {
        ((self.total_frames as u64) * 1000) / (self.sample_rate as u64)
    }
}

/// A decoded source: metadata plus the interleaved sample stream. A valid
/// value holds exactly `total_frames * channels` samples.
#[derive(Debug)]
pub struct AudioData {
    pub samples: Vec<i16>,
    pub meta: AudioStreamMeta,
}

impl AudioData {
    /// Metadata is valid and the buffer length matches it.
    pub open spec fn is_valid(self) -> bool {
        &&& self.meta.is_valid()
        &&& self.samples@.len() == (self.meta.total_frames as int) * (self.meta.channels as int)
    }

    /// Wraps a decoded sample stream. Fails with `InvalidFormat` when the
    /// rate or channel count is zero, when the buffer length is not a
    /// whole number of frames, or when the frame count does not fit the
    /// metadata; succeeds exactly otherwise.
    pub fn new(samples: Vec<i16>, sample_rate: u32, channels: u16) -> (r: AudioResult<AudioData>)
        ensures
            match r {
                Ok(d) => {
                    &&& sample_rate >= 1
                    &&& channels >= 1
                    &&& (samples@.len() as int) % (channels as int) == 0
                    &&& (samples@.len() as int) / (channels as int) <= u32::MAX
                    &&& d.is_valid()
                    &&& d.samples@ == samples@
                    &&& d.meta.sample_rate == sample_rate
                    &&& d.meta.channels == channels
                    &&& d.meta.total_frames == (samples@.len() as int) / (channels as int)
                },
                Err(e) => {
                    &&& e is InvalidFormat
                    &&& !(sample_rate >= 1 && channels >= 1 && (samples@.len() as int) % (channels as int)
                        == 0 && (samples@.len() as int) / (channels as int) <= u32::MAX)
                },
            },
    {
        if sample_rate < 1 || channels < 1 {
            return Err(AudioError::InvalidFormat("sample rate and channel count must be positive".to_owned()));
        }
        let ch = channels as usize;
        let frames = samples.len() / ch;
        let rem = samples.len() % ch;
        if rem != 0 {
            return Err(AudioError::InvalidFormat("sample count is not a whole number of frames".to_owned()));
        }
        if frames > u32::MAX as usize {
            return Err(AudioError::InvalidFormat("source holds more frames than supported".to_owned()));
        }
        proof {
            lemma_fundamental_div_mod(samples@.len() as int, ch as int);
            assert(samples@.len() as int == (ch as int) * (frames as int));
            assert((frames as u32) as int == frames as int);
            assert((frames as int) * (ch as int) == (ch as int) * (frames as int))
                by (nonlinear_arith);
        }
        Ok(AudioData {
            samples,
            meta: AudioStreamMeta { sample_rate, channels, total_frames: frames as u32 },
        })
    }
}

} // verus!
