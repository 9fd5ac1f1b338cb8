//! The splice processor: extracts randomly positioned fixed-duration
//! sub-clips from a decoded source, optionally reversing each clip's
//! sample order.

use vstd::prelude::*;
use vstd::pervasive::VecAdditionalExecFns;
use vstd::arithmetic::mul::{lemma_mul_inequality, lemma_mul_is_distributive_add};
use crate::audio::AudioData;
use crate::config::ProcessorConfig;
use crate::errors::{AudioError, AudioResult};
use crate::processor::AudioProcessor;
use crate::result::{ProcessingMetadata, ProcessingResult, ProcessorKind};
use crate::rng::random_below;
use crate::samples::{extract_clip, reversed};

verus! {

/// The number of whole sample frames a clip of `duration_ms` milliseconds
/// covers at `sample_rate` frames per second.
pub open spec fn clip_frames(duration_ms: int, sample_rate: int) -> int {
    duration_ms * sample_rate / 1000
}

/// A buffer in the requested orientation: reversed when `rev` is set.
pub open spec fn oriented(rev: bool, s: Seq<i16>) -> Seq<i16> {
    if rev {
        reversed(s)
    } else {
        s
    }
}

/// The window of `cf` frames starting at frame `sf` of a source, as a
/// run of interleaved samples.
pub open spec fn clip_window(audio: AudioData, sf: int, cf: int) -> Seq<i16> {
    let ch = audio.meta.channels as int;
    audio.samples@.subrange(sf * ch, (sf + cf) * ch)
}

/// `clip` is some `cf`-frame window of the source that still ends before
/// the source does, in the requested orientation.
pub open spec fn is_clip_of(clip: Seq<i16>, audio: AudioData, cf: int, rev: bool) -> bool {
    exists|sf: int|
        0 <= sf && sf + cf < audio.meta.total_frames && clip == oriented(
            rev,
            #[trigger] clip_window(audio, sf, cf),
        )
}

/// What `SpliceProcessor::process` promises for a given source,
/// configuration and outcome: the validation errors in their order, the
/// guard against an empty sampling range, and, on success, exactly
/// `count` clips, each some window of the source in the requested
/// orientation, with the run's metadata.
pub open spec fn splice_process_ensures(
    audio: AudioData,
    config: ProcessorConfig,
    r: AudioResult<ProcessingResult>,
) -> bool {
    match config {
        ProcessorConfig::Normalize { .. } => r matches Err(AudioError::ProcessingError(_)),
        ProcessorConfig::Splice { duration_ms, count, reverse } => {
            let cf = clip_frames(duration_ms as int, audio.meta.sample_rate as int);
            if duration_ms == 0 {
                r matches Err(AudioError::InvalidDuration(_))
            } else if count < 1 {
                r matches Err(AudioError::InvalidSpliceCount(_))
            } else if cf >= audio.meta.total_frames {
                r matches Err(AudioError::ProcessingError(_))
            } else {
                match r {
                    Ok(res) => {
                        &&& res.clips@.len() == count as int
                        &&& forall|i: int|
                            0 <= i < count as int ==> is_clip_of(
                                #[trigger] res.clips@[i]@,
                                audio,
                                cf,
                                reverse,
                            )
                        &&& res.metadata.describes(ProcessorKind::Splice, audio.meta)
                    },
                    Err(_) => false,
                }
            }
        },
    }
}

/// Every clip of a splice run covers exactly the requested number of
/// frames: its sample count is the clip's frame count times the source's
/// channel count, never more than the requested duration.
pub proof fn lemma_clip_of_len(clip: Seq<i16>, audio: AudioData, cf: int, rev: bool)
    requires
        audio.is_valid(),
        0 <= cf,
        is_clip_of(clip, audio, cf, rev),
    ensures
        clip.len() == cf * (audio.meta.channels as int),
{
    let ch = audio.meta.channels as int;
    let sf = choose|sf: int|
        0 <= sf && sf + cf < audio.meta.total_frames && clip == oriented(
            rev,
            #[trigger] clip_window(audio, sf, cf),
        );
    lemma_mul_is_distributive_add(ch, sf, cf);
    assert((sf + cf) * ch <= (audio.meta.total_frames as int) * ch) by {
        lemma_mul_inequality(sf + cf, audio.meta.total_frames as int, ch);
    }
    assert(sf * ch + cf * ch == (sf + cf) * ch) by (nonlinear_arith);
    assert(sf * ch >= 0) by (nonlinear_arith)
        requires
            sf >= 0,
            ch >= 0,
    ;
    assert(cf * ch >= 0) by (nonlinear_arith)
        requires
            cf >= 0,
            ch >= 0,
    ;
    assert(clip_window(audio, sf, cf).len() == cf * ch);
}

pub struct SpliceProcessor;

impl SpliceProcessor {
    pub fn new() -> (r: Self) {
        SpliceProcessor
    }

    /// Reverses the sample order of a buffer in place. Interleaving is
    /// not undone first: the reversal is over raw sample slots, not a
    /// per-channel audio-correct reversal.
    pub fn reverse_samples(samples: &mut Vec<i16>)
        ensures
            final(samples)@ == reversed(old(samples)@),
    {
        let len = samples.len();
        let mut i: usize = 0;
        while i < len / 2
            invariant
                len == samples@.len(),
                len == old(samples)@.len(),
                i <= len / 2,
                forall|k: int|
                    0 <= k < i || len - i <= k < len ==> samples@[k] == reversed(old(samples)@)[k],
                forall|k: int| i <= k < len - i ==> samples@[k] == old(samples)@[k],
            decreases len / 2 - i,
        {
            proof {
                assert(2 * ((len as int) / 2) <= len as int);
                assert((i as int) < (len as int) - 1 - (i as int) + 1);
            }
            let j = len - 1 - i;
            let a = samples[i];
            let b = samples[j];
            samples.set(i, b);
            samples.set(j, a);
            proof {
                assert(samples@[i as int] == old(samples)@[j as int]);
                assert(reversed(old(samples)@)[i as int] == old(samples)@[j as int]);
                assert(reversed(old(samples)@)[j as int] == old(samples)@[i as int]);
            }
            i = i + 1;
        }
        proof {
            assert(final(samples)@ =~= reversed(old(samples)@));
        }
    }

    /// Validates splice parameters: the duration must be positive and the
    /// count at least one, checked in that order.
    pub fn validate_splice_params(duration_ms: u64, count: i32) -> (r: AudioResult<()>)
        ensures
            r is Ok <==> (duration_ms >= 1 && count >= 1),
            duration_ms == 0 ==> r matches Err(AudioError::InvalidDuration(_)),
            duration_ms >= 1 && count < 1 ==> r matches Err(AudioError::InvalidSpliceCount(_)),
    {
        if duration_ms == 0 {
            return Err(AudioError::InvalidDuration("splice duration must be positive".to_owned()));
        }
        if count < 1 {
            return Err(AudioError::InvalidSpliceCount("splice count must be >= 1".to_owned()));
        }
        Ok(())
    }

}

/// What `SpliceProcessor::validate_config` promises: the two validation
/// errors in their order, and rejection of the wrong variant rather than
/// a silent coercion.
pub open spec fn splice_validate_ensures(config: ProcessorConfig, r: AudioResult<()>) -> bool {
    match config {
        ProcessorConfig::Splice { duration_ms, count, .. } => {
            &&& (r is Ok <==> (duration_ms >= 1 && count >= 1))
            &&& (duration_ms == 0 ==> r matches Err(AudioError::InvalidDuration(_)))
            &&& (duration_ms >= 1 && count < 1 ==> r matches Err(
                AudioError::InvalidSpliceCount(_),
            ))
        },
        ProcessorConfig::Normalize { .. } => r matches Err(AudioError::ProcessingError(_)),
    }
}

impl AudioProcessor for SpliceProcessor {
    open spec fn process_post(
        &self,
        audio: AudioData,
        config: ProcessorConfig,
        r: AudioResult<ProcessingResult>,
    ) -> bool {
        splice_process_ensures(audio, config, r)
    }

    open spec fn validate_post(&self, config: ProcessorConfig, r: AudioResult<()>) -> bool {
        splice_validate_ensures(config, r)
    }

    open spec fn type_tag(&self) -> Seq<char> {
        "splice"@
    }

    /// Accepts exactly the well-formed `Splice` configurations; a
    /// `Normalize` configuration is the wrong variant for this processor
    /// and fails rather than being coerced.
    fn validate_config(&self, config: &ProcessorConfig) -> (r: AudioResult<()>) {
        match config {
            ProcessorConfig::Splice { duration_ms, count, .. } => Self::validate_splice_params(
                *duration_ms,
                *count,
            ),
            ProcessorConfig::Normalize { .. } => Err(
                AudioError::ProcessingError("invalid configuration for the splice processor".to_owned()),
            ),
        }
    }

    /// The immutable tag used in metadata and dispatch.
    fn processor_type(&self) -> (r: &'static str) {
        "splice"
    }

    /// Extracts `count` clips of `duration_ms` milliseconds each from a
    /// decoded source, each starting at a start frame drawn from the
    /// range that keeps the clip inside the recording, reversing each
    /// clip when asked to.
    fn process(&self, audio: &AudioData, config: &ProcessorConfig) -> (r: AudioResult<
        ProcessingResult,
    >) {
        let (duration_ms, count, reverse) = match config {
            ProcessorConfig::Splice { duration_ms, count, reverse } => (
                *duration_ms,
                *count,
                *reverse,
            ),
            ProcessorConfig::Normalize { .. } => {
                return Err(
                    AudioError::ProcessingError(
                        "invalid configuration for the splice processor".to_owned(),
                    ),
                );
            },
        };
        if let Err(e) = self.validate_config(config) {
            return Err(e);
        }
        let rate = audio.meta.sample_rate;
        let tf = audio.meta.total_frames;
        let ch = audio.meta.channels;
        proof {
            assert((duration_ms as u128) * (rate as u128) <= 0xffff_ffff_ffff_ffffu128
                * 0xffff_ffffu128) by (nonlinear_arith)
                requires
                    duration_ms as u128 <= 0xffff_ffff_ffff_ffffu128,
                    rate as u128 <= 0xffff_ffffu128,
            ;
        }
        let cf128: u128 = (duration_ms as u128) * (rate as u128) / 1000;
        if cf128 >= tf as u128 {
            return Err(
                AudioError::ProcessingError(
                    "splice duration must be shorter than the source".to_owned(),
                ),
            );
        }
        let cf: u64 = cf128 as u64;
        proof {
            assert(cf as int == clip_frames(duration_ms as int, rate as int));
            assert(cf < tf);
        }
        let cnt: usize = count as usize;
        let n = audio.samples.len();
        let mut clips: Vec<Vec<i16>> = Vec::new();
        let mut i: usize = 0;
        while i < cnt
            invariant
                audio.is_valid(),
                n == audio.samples@.len(),
                rate == audio.meta.sample_rate,
                tf == audio.meta.total_frames,
                ch == audio.meta.channels,
                cf < tf,
                cf as int == clip_frames(duration_ms as int, rate as int),
                i <= cnt,
                clips@.len() == i,
                forall|j: int|
                    0 <= j < i ==> is_clip_of(#[trigger] clips@[j]@, *audio, cf as int, reverse),
            decreases cnt - i,
        {
            let sf: u64 = random_below((tf as u64) - cf);
            proof {
                lemma_mul_is_distributive_add(ch as int, sf as int, cf as int);
                assert((sf as int + cf as int) * (ch as int) <= (tf as int) * (ch as int)) by {
                    lemma_mul_inequality(sf as int + cf as int, tf as int, ch as int);
                }
                assert((sf as int) * (ch as int) + (cf as int) * (ch as int) == (sf as int
                    + cf as int) * (ch as int)) by (nonlinear_arith);
                assert((sf as int) * (ch as int) >= 0) by (nonlinear_arith)
                    requires
                        sf >= 0,
                        ch >= 0,
                ;
                assert((cf as int) * (ch as int) >= 0) by (nonlinear_arith)
                    requires
                        cf >= 0,
                        ch >= 0,
                ;
                assert((tf as int) * (ch as int) == audio.samples@.len());
                assert((sf as int) * (ch as int) <= n);
                assert((cf as int) * (ch as int) <= n);
            }
            let start: usize = ((sf * (ch as u64))) as usize;
            let len_c: usize = ((cf * (ch as u64))) as usize;
            proof {
                assert(start as int == (sf as int) * (ch as int));
                assert(len_c as int == (cf as int) * (ch as int));
                assert(start as int + len_c as int <= audio.samples@.len());
            }
            let mut clip = extract_clip(&audio.samples, start, len_c);
            if reverse {
                Self::reverse_samples(&mut clip);
            }
            proof {
                let sfi = sf as int;
                let cfi = cf as int;
                assert(clip@ == oriented(reverse, clip_window(*audio, sfi, cfi)));
                assert(is_clip_of(clip@, *audio, cfi, reverse));
            }
            clips.push(clip);
            i = i + 1;
        }
        let metadata = ProcessingMetadata {
            processor_type: ProcessorKind::Splice,
            input_duration_ms: audio.meta.input_duration_ms(),
            sample_rate: rate,
            channels: ch,
            processing_time_ms: 0,
        };
        Ok(ProcessingResult { clips, metadata })
    }
}

} // verus!
