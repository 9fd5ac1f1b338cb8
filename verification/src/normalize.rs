//! The normalize processor: rescales sample amplitude so the peak
//! magnitude matches a target level, either over the whole file or over
//! each clip of an internal splice step.

use vstd::prelude::*;
use vstd::pervasive::VecAdditionalExecFns;
use vstd::arithmetic::mul::{lemma_mul_inequality, lemma_mul_is_distributive_add};
use crate::arith::{
    rounded_div, lemma_rounded_div_le_factor, lemma_rounded_div_neg, lemma_rounded_div_ordered,
};
use crate::audio::AudioData;
use crate::config::{ProcessorConfig, TargetLevel};
use crate::errors::{AudioError, AudioResult};
use crate::processor::AudioProcessor;
use crate::result::{ProcessingMetadata, ProcessingResult, ProcessorKind};
use crate::rng::random_below;
use crate::samples::{
    clamp16, extract_clip, gain_seq, lemma_peak_bounds, lemma_peak_le_bound,
    lemma_peak_take_step, peak_of, sample_abs, scaled_sample,
};
use crate::splice::{clip_frames, clip_window};

verus! {

/// The fixed duration of each clip of the internal splice step in hybrid
/// mode. The policy is not derived from the caller's configuration.
pub const HYBRID_CLIP_DURATION_MS: u64 = 2000;

/// The fixed number of clips of the internal splice step in hybrid mode.
pub const HYBRID_CLIP_COUNT: usize = 5;

/// `clip` is the per-clip normalization of some `cf`-frame window of the
/// source that still ends before the source does: the window is not
/// silent, and the gain for the window's own peak is applied to it.
pub open spec fn is_normalized_clip_of(
    clip: Seq<i16>,
    audio: AudioData,
    cf: int,
    target: TargetLevel,
) -> bool {
    exists|sf: int|
        {
            let window = #[trigger] clip_window(audio, sf, cf);
            &&& 0 <= sf
            &&& sf + cf < audio.meta.total_frames
            &&& peak_of(window) > 0
            &&& clip == gain_seq(window, target.num as int, target.den as int, peak_of(window))
        }
}

/// Some admissible window of a `cf`-frame splice step is silent. A run
/// that fails on a silent clip has drawn such a window.
pub open spec fn has_silent_window(audio: AudioData, cf: int) -> bool {
    exists|sf: int|
        0 <= sf && sf + cf < audio.meta.total_frames && peak_of(
            #[trigger] clip_window(audio, sf, cf),
        ) == 0
}

/// What `NormalizeProcessor::process` promises for a given source,
/// configuration and outcome: rejection of the wrong variant and of an
/// invalid target level; in whole-file mode, failure on empty or silent
/// input and otherwise exactly one clip holding the rescaled stream; in
/// hybrid mode, the guard against an empty sampling range, failure when
/// a drawn clip is silent, and otherwise the fixed number of
/// individually normalized clips, each from a window with signal.
pub open spec fn normalize_process_ensures(
    audio: AudioData,
    config: ProcessorConfig,
    r: AudioResult<ProcessingResult>,
) -> bool {
    match config {
        ProcessorConfig::Splice { .. } => r matches Err(AudioError::ProcessingError(_)),
        ProcessorConfig::Normalize { target, apply_to_splices } => {
            if !target.is_valid() {
                r matches Err(AudioError::ProcessingError(_))
            } else if !apply_to_splices {
                if audio.samples@.len() == 0 || peak_of(audio.samples@) == 0 {
                    r matches Err(AudioError::ProcessingError(_))
                } else {
                    match r {
                        Ok(res) => {
                            &&& res.clips@.len() == 1
                            &&& res.clips@[0]@ == gain_seq(
                                audio.samples@,
                                target.num as int,
                                target.den as int,
                                peak_of(audio.samples@),
                            )
                            &&& res.metadata.describes(ProcessorKind::Normalize, audio.meta)
                        },
                        Err(_) => false,
                    }
                }
            } else {
                let cf = clip_frames(
                    HYBRID_CLIP_DURATION_MS as int,
                    audio.meta.sample_rate as int,
                );
                if cf >= audio.meta.total_frames {
                    r matches Err(AudioError::ProcessingError(_))
                } else {
                    match r {
                        Ok(res) => {
                            &&& res.clips@.len() == HYBRID_CLIP_COUNT as int
                            &&& forall|i: int|
                                0 <= i < HYBRID_CLIP_COUNT as int ==> is_normalized_clip_of(
                                    #[trigger] res.clips@[i]@,
                                    audio,
                                    cf,
                                    target,
                                )
                            &&& res.metadata.describes(ProcessorKind::Normalize, audio.meta)
                        },
                        Err(e) => e is ProcessingError && has_silent_window(audio, cf),
                    }
                }
            }
        },
    }
}

/// Every clip of a hybrid run covers exactly the fixed clip duration:
/// per-clip normalization never changes a clip's length.
pub proof fn lemma_normalized_clip_of_len(
    clip: Seq<i16>,
    audio: AudioData,
    cf: int,
    target: TargetLevel,
)
    requires
        audio.is_valid(),
        0 <= cf,
        is_normalized_clip_of(clip, audio, cf, target),
    ensures
        clip.len() == cf * (audio.meta.channels as int),
{
    let sf = choose|sf: int|
        {
            let window = #[trigger] clip_window(audio, sf, cf);
            &&& 0 <= sf
            &&& sf + cf < audio.meta.total_frames
            &&& peak_of(window) > 0
            &&& clip == gain_seq(window, target.num as int, target.den as int, peak_of(window))
        };
    let window = clip_window(audio, sf, cf);
    assert(crate::splice::is_clip_of(window, audio, cf, false));
    crate::splice::lemma_clip_of_len(window, audio, cf, false);
    assert(clip.len() == window.len());
}

/// Every window of an all-zero source is silent.
proof fn lemma_silent_source_silent_window(audio: AudioData, sf: int, cf: int)
    requires
        audio.is_valid(),
        0 <= sf,
        0 <= cf,
        sf + cf < audio.meta.total_frames,
        forall|i: int| 0 <= i < audio.samples@.len() ==> audio.samples@[i] == 0,
    ensures
        peak_of(clip_window(audio, sf, cf)) == 0,
{
    let ch = audio.meta.channels as int;
    let window = clip_window(audio, sf, cf);
    lemma_mul_is_distributive_add(ch, sf, cf);
    assert((sf + cf) * ch <= (audio.meta.total_frames as int) * ch) by {
        lemma_mul_inequality(sf + cf, audio.meta.total_frames as int, ch);
    }
    assert(sf * ch + cf * ch == (sf + cf) * ch) by (nonlinear_arith);
    assert(sf * ch >= 0) by (nonlinear_arith)
        requires
            sf >= 0,
            ch >= 0,
    ;
    assert(cf * ch >= 0) by (nonlinear_arith)
        requires
            cf >= 0,
            ch >= 0,
    ;
    assert forall|k: int| 0 <= k < window.len() implies sample_abs(#[trigger] window[k]) <= 0 by {
        assert(window[k] == audio.samples@[sf * ch + k]);
        assert(window[k] == 0i16);
    }
    lemma_peak_le_bound(window, 0);
    lemma_peak_bounds(window);
}

/// Silent input to the normalize processor fails with a
/// `ProcessingError` in every mode: for an all-zero source no successful
/// outcome satisfies the processor's contract, in hybrid mode because
/// every window a clip could come from is itself silent.
pub proof fn lemma_silent_input_fails(
    audio: AudioData,
    config: ProcessorConfig,
    r: AudioResult<ProcessingResult>,
)
    requires
        audio.is_valid(),
        config is Normalize,
        forall|i: int| 0 <= i < audio.samples@.len() ==> audio.samples@[i] == 0,
        normalize_process_ensures(audio, config, r),
    ensures
        r matches Err(AudioError::ProcessingError(_)),
{
    match config {
        ProcessorConfig::Normalize { target, apply_to_splices } => {
            if target.is_valid() {
                if !apply_to_splices {
                    if audio.samples@.len() > 0 {
                        assert forall|i: int|
                            0 <= i < audio.samples@.len() implies sample_abs(
                            #[trigger] audio.samples@[i],
                        ) <= 0 by {
                            assert(audio.samples@[i] == 0i16);
                        }
                        lemma_peak_le_bound(audio.samples@, 0);
                    }
                } else {
                    let cf = clip_frames(
                        HYBRID_CLIP_DURATION_MS as int,
                        audio.meta.sample_rate as int,
                    );
                    assert(cf >= 0) by {
                        vstd::arithmetic::div_mod::lemma_div_pos_is_pos(
                            (HYBRID_CLIP_DURATION_MS as int) * (audio.meta.sample_rate as int),
                            1000,
                        );
                    }
                    if cf < audio.meta.total_frames {
                        match r {
                            Ok(res) => {
                                assert(is_normalized_clip_of(res.clips@[0]@, audio, cf, target));
                                let sf = choose|sf: int|
                                    {
                                        let window = #[trigger] clip_window(audio, sf, cf);
                                        &&& 0 <= sf
                                        &&& sf + cf < audio.meta.total_frames
                                        &&& peak_of(window) > 0
                                        &&& res.clips@[0]@ == gain_seq(
                                            window,
                                            target.num as int,
                                            target.den as int,
                                            peak_of(window),
                                        )
                                    };
                                lemma_silent_source_silent_window(audio, sf, cf);
                                assert(false);
                            },
                            Err(_) => {},
                        }
                    }
                }
            }
        },
        ProcessorConfig::Splice { .. } => {},
    }
}

pub struct NormalizeProcessor;

impl NormalizeProcessor {
    pub fn new() -> (r: Self) {
        NormalizeProcessor
    }

    /// The peak magnitude of a buffer, as a raw magnitude in `0 ..= 32768`.
    /// Relative to full scale (32767) this is the peak level; a return of
    /// `0` means the buffer is silent or empty.
    pub fn find_peak(samples: &Vec<i16>) -> (r: u32)
        ensures
            r == peak_of(samples@),
    {
        let mut peak: u32 = 0;
        let mut i: usize = 0;
        proof {
            assert(samples@.take(0) =~= Seq::<i16>::empty());
        }
        while i < samples.len()
            invariant
                i <= samples.len(),
                peak == peak_of(samples@.take(i as int)),
                peak <= 32768,
            decreases samples.len() - i,
        {
            let s = samples[i];
            let mag: u32 = if s >= 0 {
                s as u32
            } else {
                (-(s as i32)) as u32
            };
            proof {
                lemma_peak_take_step(samples@, i as int);
                lemma_peak_bounds(samples@.take(i as int + 1));
            }
            if mag > peak {
                peak = mag;
            }
            i = i + 1;
        }
        proof {
            assert(samples@.take(samples@.len() as int) =~= samples@);
        }
        peak
    }

    /// Applies the normalization gain for the target level to every
    /// sample of the buffer: each sample is scaled by
    /// `(target.num * 32767) / (target.den * peak)`, rounded to the
    /// nearest integer with ties away from zero, and saturated at the
    /// 16-bit bounds rather than wrapped.
    pub fn apply_gain(samples: &mut Vec<i16>, target: TargetLevel, peak: u32)
        requires
            target.is_valid(),
            peak >= 1,
        ensures
            final(samples)@ == gain_seq(
                old(samples)@,
                target.num as int,
                target.den as int,
                peak as int,
            ),
    {
        let num = target.num;
        let den = target.den;
        let ghost orig = old(samples)@;
        let len = samples.len();
        let mut i: usize = 0;
        while i < len
            invariant
                i <= len,
                len == samples@.len(),
                orig.len() == len,
                1 <= num <= den,
                peak >= 1,
                forall|k: int|
                    0 <= k < i ==> samples@[k] == gain_seq(
                        orig,
                        num as int,
                        den as int,
                        peak as int,
                    )[k],
                forall|k: int| i <= k < len ==> samples@[k] == orig[k],
            decreases len - i,
        {
            let x = samples[i];
            let m: u128 = if x >= 0 {
                x as u128
            } else {
                (-(x as i32)) as u128
            };
            proof {
                assert(m * (num as u128) * 32767 <= 32768u128 * 0xffff_ffffu128 * 32767)
                    by (nonlinear_arith)
                    requires
                        m <= 32768u128,
                        num as u128 <= 0xffff_ffffu128,
                ;
                assert(m * (num as u128) <= 32768u128 * 0xffff_ffffu128) by (nonlinear_arith)
                    requires
                        m <= 32768u128,
                        num as u128 <= 0xffff_ffffu128,
                ;
                assert((den as u128) * (peak as u128) <= 0xffff_ffffu128 * 0xffff_ffffu128)
                    by (nonlinear_arith)
                    requires
                        den as u128 <= 0xffff_ffffu128,
                        peak as u128 <= 0xffff_ffffu128,
                ;
            }
            let k: u128 = m * (num as u128) * 32767;
            let q: u128 = (den as u128) * (peak as u128);
            proof {
                assert(q >= 1) by (nonlinear_arith)
                    requires
                        q == (den as u128) * (peak as u128),
                        den >= 1,
                        peak >= 1,
                ;
            }
            let rd: u128 = (2 * k + q) / (2 * q);
            proof {
                lemma_rounded_div_ordered(0, k as int, q as int);
                assert(k as int <= (k as int) * (q as int)) by (nonlinear_arith)
                    requires
                        q >= 1,
                        k >= 0,
                ;
                lemma_rounded_div_le_factor(k as int, q as int, k as int);
                assert(rd == rounded_div(k as int, q as int));
                assert(rd <= k);
            }
            let v: i16 = if x >= 0 {
                if rd >= 32767 {
                    32767
                } else {
                    rd as i16
                }
            } else {
                if rd >= 32768 {
                    -32768
                } else {
                    -(rd as i16)
                }
            };
            proof {
                let xi = x as int;
                let ni = num as int;
                let di = den as int;
                let pi = peak as int;
                if x >= 0 {
                    assert(xi * ni * 32767 == k as int) by (nonlinear_arith)
                        requires
                            m == xi,
                            k == m * ni * 32767,
                            xi >= 0,
                    ;
                    assert(v as int == clamp16(rounded_div(k as int, q as int)));
                } else {
                    assert(xi * ni * 32767 == -((k as int))) by (nonlinear_arith)
                        requires
                            m == -xi,
                            k == m * ni * 32767,
                    ;
                    lemma_rounded_div_neg(k as int, q as int);
                    assert(rounded_div(xi * ni * 32767, q as int) == -(rd as int));
                    assert(v as int == clamp16(-(rd as int)));
                }
                assert(v == scaled_sample(x, ni, di, pi));
            }
            samples.set(i, v);
            i = i + 1;
        }
        proof {
            assert(final(samples)@ =~= gain_seq(orig, num as int, den as int, peak as int));
        }
    }

    /// Normalizes a whole buffer in place: fails on an empty buffer and
    /// on silence (the gain would divide by zero), and otherwise applies
    /// the gain that brings the peak to the target level.
    pub fn normalize_buffer(samples: &mut Vec<i16>, target: TargetLevel) -> (r: AudioResult<()>)
        requires
            target.is_valid(),
        ensures
            (old(samples)@.len() == 0 || peak_of(old(samples)@) == 0) ==> ((r matches Err(
                AudioError::ProcessingError(_))) && final(samples)@ == old(samples)@),
            (old(samples)@.len() > 0 && peak_of(old(samples)@) > 0) ==> (r is Ok
                && final(samples)@ == gain_seq(
                old(samples)@,
                target.num as int,
                target.den as int,
                peak_of(old(samples)@),
            )),
    {
        if samples.len() == 0 {
            return Err(AudioError::ProcessingError("No audio data found".to_owned()));
        }
        let peak = Self::find_peak(samples);
        if peak == 0 {
            return Err(
                AudioError::ProcessingError("Audio is silent (no signal detected)".to_owned()),
            );
        }
        Self::apply_gain(samples, target, peak);
        Ok(())
    }

    /// The hybrid mode's splice step: extracts the fixed number of
    /// fixed-duration clips at random start frames and normalizes each
    /// to the target level independently; a drawn clip that turns out
    /// silent fails the run, as silence leaves no gain to compute.
    fn create_normalized_splices(audio: &AudioData, target: TargetLevel) -> (r: AudioResult<
        Vec<Vec<i16>>,
    >)
        requires
            audio.is_valid(),
            target.is_valid(),
        ensures
            ({
                let cf = clip_frames(
                    HYBRID_CLIP_DURATION_MS as int,
                    audio.meta.sample_rate as int,
                );
                match r {
                    Ok(clips) => {
                        &&& cf < audio.meta.total_frames
                        &&& clips@.len() == HYBRID_CLIP_COUNT as int
                        &&& forall|i: int|
                            0 <= i < HYBRID_CLIP_COUNT as int ==> is_normalized_clip_of(
                                #[trigger] clips@[i]@,
                                *audio,
                                cf,
                                target,
                            )
                    },
                    Err(e) => e is ProcessingError && (cf >= audio.meta.total_frames
                        || has_silent_window(*audio, cf)),
                }
            }),
    {
        let rate = audio.meta.sample_rate;
        let tf = audio.meta.total_frames;
        let ch = audio.meta.channels;
        proof {
            assert((HYBRID_CLIP_DURATION_MS as u128) * (rate as u128) <= 2000u128
                * 0xffff_ffffu128) by (nonlinear_arith)
                requires
                    HYBRID_CLIP_DURATION_MS as u128 <= 2000u128,
                    rate as u128 <= 0xffff_ffffu128,
            ;
        }
        let cf128: u128 = (HYBRID_CLIP_DURATION_MS as u128) * (rate as u128) / 1000;
        if cf128 >= tf as u128 {
            return Err(
                AudioError::ProcessingError(
                    "splice duration must be shorter than the source".to_owned(),
                ),
            );
        }
        let cf: u64 = cf128 as u64;
        proof {
            assert(cf as int == clip_frames(HYBRID_CLIP_DURATION_MS as int, rate as int));
            assert(cf < tf);
        }
        let n = audio.samples.len();
        let mut clips: Vec<Vec<i16>> = Vec::new();
        let mut i: usize = 0;
        while i < HYBRID_CLIP_COUNT
            invariant
                audio.is_valid(),
                target.is_valid(),
                rate == audio.meta.sample_rate,
                tf == audio.meta.total_frames,
                ch == audio.meta.channels,
                n == audio.samples@.len(),
                cf < tf,
                cf as int == clip_frames(HYBRID_CLIP_DURATION_MS as int, rate as int),
                i <= HYBRID_CLIP_COUNT,
                clips@.len() == i,
                forall|j: int|
                    0 <= j < i ==> is_normalized_clip_of(
                        #[trigger] clips@[j]@,
                        *audio,
                        cf as int,
                        target,
                    ),
            decreases HYBRID_CLIP_COUNT - i,
        {
            let sf: u64 = random_below((tf as u64) - cf);
            proof {
                lemma_mul_is_distributive_add(ch as int, sf as int, cf as int);
                assert((sf as int + cf as int) * (ch as int) <= (tf as int) * (ch as int)) by {
                    lemma_mul_inequality(sf as int + cf as int, tf as int, ch as int);
                }
                assert((sf as int) * (ch as int) + (cf as int) * (ch as int) == (sf as int
                    + cf as int) * (ch as int)) by (nonlinear_arith);
                assert((sf as int) * (ch as int) >= 0) by (nonlinear_arith)
                    requires
                        sf >= 0,
                        ch >= 0,
                ;
                assert((cf as int) * (ch as int) >= 0) by (nonlinear_arith)
                    requires
                        cf >= 0,
                        ch >= 0,
                ;
                assert((tf as int) * (ch as int) == audio.samples@.len());
                assert((sf as int) * (ch as int) <= n);
                assert((cf as int) * (ch as int) <= n);
            }
            let start: usize = ((sf * (ch as u64))) as usize;
            let len_c: usize = ((cf * (ch as u64))) as usize;
            proof {
                assert(start as int == (sf as int) * (ch as int));
                assert(len_c as int == (cf as int) * (ch as int));
                assert(start as int + len_c as int <= audio.samples@.len());
            }
            let mut clip = extract_clip(&audio.samples, start, len_c);
            let peak = Self::find_peak(&clip);
            if peak < 1 {
                proof {
                    assert(peak_of(clip_window(*audio, sf as int, cf as int)) == 0);
                    assert(has_silent_window(*audio, cf as int));
                }
                return Err(
                    AudioError::ProcessingError(
                        "Audio is silent (no signal detected)".to_owned(),
                    ),
                );
            }
            Self::apply_gain(&mut clip, target, peak);
            proof {
                let sfi = sf as int;
                let cfi = cf as int;
                assert(peak_of(clip_window(*audio, sfi, cfi)) > 0);
                assert(is_normalized_clip_of(clip@, *audio, cfi, target));
            }
            clips.push(clip);
            i = i + 1;
        }
        Ok(clips)
    }

}

/// What `NormalizeProcessor::validate_config` promises: acceptance of
/// exactly the valid target levels, and rejection of the wrong variant
/// rather than a silent coercion.
pub open spec fn normalize_validate_ensures(config: ProcessorConfig, r: AudioResult<()>) -> bool {
    match config {
        ProcessorConfig::Normalize { target, .. } => {
            &&& (r is Ok <==> target.is_valid())
            &&& (!target.is_valid() ==> r matches Err(AudioError::ProcessingError(_)))
        },
        ProcessorConfig::Splice { .. } => r matches Err(AudioError::ProcessingError(_)),
    }
}

impl AudioProcessor for NormalizeProcessor {
    open spec fn process_post(
        &self,
        audio: AudioData,
        config: ProcessorConfig,
        r: AudioResult<ProcessingResult>,
    ) -> bool {
        normalize_process_ensures(audio, config, r)
    }

    open spec fn validate_post(&self, config: ProcessorConfig, r: AudioResult<()>) -> bool {
        normalize_validate_ensures(config, r)
    }

    open spec fn type_tag(&self) -> Seq<char> {
        "normalize"@
    }

    /// Accepts exactly the `Normalize` configurations whose target level
    /// lies in (0, 1]; a `Splice` configuration is the wrong variant for
    /// this processor and fails rather than being coerced.
    fn validate_config(&self, config: &ProcessorConfig) -> (r: AudioResult<()>) {
        match config {
            ProcessorConfig::Normalize { target, .. } => {
                if target.num < 1 || target.num > target.den {
                    return Err(
                        AudioError::ProcessingError(
                            "target_level must be between 0.0 and 1.0 (where 1.0 = maximum level)".to_owned(),
                        ),
                    );
                }
                Ok(())
            },
            ProcessorConfig::Splice { .. } => Err(
                AudioError::ProcessingError(
                    "invalid configuration for the normalize processor".to_owned(),
                ),
            ),
        }
    }

    /// The immutable tag used in metadata and dispatch.
    fn processor_type(&self) -> (r: &'static str) {
        "normalize"
    }

    /// Normalizes a decoded source to the target level: the whole stream
    /// into a single clip, or, when `apply_to_splices` is set, each clip
    /// of the internal fixed-policy splice step independently.
    fn process(&self, audio: &AudioData, config: &ProcessorConfig) -> (r: AudioResult<
        ProcessingResult,
    >) {
        let (target, apply_to_splices) = match config {
            ProcessorConfig::Normalize { target, apply_to_splices } => (
                *target,
                *apply_to_splices,
            ),
            ProcessorConfig::Splice { .. } => {
                return Err(
                    AudioError::ProcessingError(
                        "invalid configuration for the normalize processor".to_owned(),
                    ),
                );
            },
        };
        if let Err(e) = self.validate_config(config) {
            return Err(e);
        }
        let clips: Vec<Vec<i16>> = if apply_to_splices {
            match Self::create_normalized_splices(audio, target) {
                Ok(c) => c,
                Err(e) => {
                    return Err(e);
                },
            }
        } else {
            let mut buf = extract_clip(&audio.samples, 0, audio.samples.len());
            proof {
                assert(buf@ =~= audio.samples@);
            }
            if let Err(e) = Self::normalize_buffer(&mut buf, target) {
                return Err(e);
            }
            let mut one: Vec<Vec<i16>> = Vec::new();
            one.push(buf);
            one
        };
        let metadata = ProcessingMetadata {
            processor_type: ProcessorKind::Normalize,
            input_duration_ms: audio.meta.input_duration_ms(),
            sample_rate: audio.meta.sample_rate,
            channels: audio.meta.channels,
            processing_time_ms: 0,
        };
        Ok(ProcessingResult { clips, metadata })
    }
}

} // verus!
