use audio_core::audio::AudioData;
use audio_core::config::{ProcessorConfig, TargetLevel};
use audio_core::errors::AudioError;
use audio_core::normalize::NormalizeProcessor;
use audio_core::processor::AudioProcessor;
use audio_core::result::ProcessorKind;

fn mono_source(samples: Vec<i16>, sample_rate: u32) -> AudioData {
    AudioData::new(samples, sample_rate, 1).expect("valid mono source")
}

fn whole_file(target: TargetLevel) -> ProcessorConfig {
    ProcessorConfig::Normalize { target, apply_to_splices: false }
}

#[test]
fn half_scale_source_reaches_full_scale() {
    // Peak amplitude 0.5 (16384 of 32768-ish scale); a gain of about 2
    // is applied uniformly and the new peak is full scale.
    let audio = mono_source(vec![16384, -8192, 0], 8);
    let result = NormalizeProcessor::new()
        .process(&audio, &whole_file(TargetLevel::full_scale()))
        .expect("normalization succeeds");
    assert_eq!(result.clips.len(), 1);
    // 16384 * 32767 / 16384 = 32767; 8192 * 32767 / 16384 = 16383.5,
    // rounded away from zero.
    assert_eq!(result.clips[0], vec![32767, -16384, 0]);
    assert_eq!(result.metadata.processor_type, ProcessorKind::Normalize);
    assert_eq!(result.metadata.sample_rate, 8);
    assert_eq!(result.metadata.channels, 1);
}

#[test]
fn new_peak_matches_target_level_within_one_unit() {
    let cases: &[(Vec<i16>, u32, u32)] = &[
        (vec![1000, -2000, 500], 1, 1),
        (vec![1000, -2000, 500], 1, 2),
        (vec![12345, -1, 30000], 3, 4),
        (vec![7, -7, 3], 1, 10),
    ];
    for (samples, num, den) in cases {
        let audio = mono_source(samples.clone(), 8);
        let target = TargetLevel::new(*num, *den);
        let result = NormalizeProcessor::new()
            .process(&audio, &whole_file(target))
            .expect("normalization succeeds");
        let new_peak = result.clips[0]
            .iter()
            .map(|&s| (s as i32).abs())
            .max()
            .unwrap();
        // |new_peak - num * 32767 / den| <= 1 in sample units.
        let ideal_times_den = *num as i64 * 32767;
        let diff = (new_peak as i64 * *den as i64 - ideal_times_den).abs();
        assert!(diff <= *den as i64, "peak {} missed target {}/{}", new_peak, num, den);
    }
}

#[test]
fn normalizing_at_the_existing_peak_changes_nothing() {
    // The peak is 16384 and the target is the rational 16384/32767, so
    // the gain is exactly 1 and every sample is reproduced.
    let samples = vec![100, -16384, 5, 16000];
    let audio = mono_source(samples.clone(), 8);
    let target = TargetLevel::new(16384, 32767);
    let result = NormalizeProcessor::new()
        .process(&audio, &whole_file(target))
        .expect("normalization succeeds");
    assert_eq!(result.clips[0], samples);
}

#[test]
fn normalization_is_idempotent_at_full_scale() {
    // Normalizing an already-normalized buffer (peak 32767, target 1)
    // applies a gain of one.
    let audio = mono_source(vec![1000, -2000, 500], 8);
    let processor = NormalizeProcessor::new();
    let config = whole_file(TargetLevel::full_scale());
    let first = processor.process(&audio, &config).expect("first pass");
    let again = mono_source(first.clips[0].clone(), 8);
    let second = processor.process(&again, &config).expect("second pass");
    assert_eq!(second.clips[0], first.clips[0]);
}

#[test]
fn silent_input_fails_with_processing_error() {
    let audio = mono_source(vec![0, 0, 0, 0], 8);
    let err = NormalizeProcessor::new()
        .process(&audio, &whole_file(TargetLevel::full_scale()))
        .unwrap_err();
    assert!(matches!(err, AudioError::ProcessingError(_)));
}

#[test]
fn empty_input_fails_with_processing_error() {
    let audio = mono_source(vec![], 8);
    let err = NormalizeProcessor::new()
        .process(&audio, &whole_file(TargetLevel::full_scale()))
        .unwrap_err();
    assert!(matches!(err, AudioError::ProcessingError(_)));
}

#[test]
fn normalize_rejects_invalid_target_level() {
    let audio = mono_source(vec![1, 2, 3], 8);
    let processor = NormalizeProcessor::new();
    // Zero and above-one targets are both outside (0, 1].
    for (num, den) in [(0, 1), (3, 2), (1, 0)] {
        let config = whole_file(TargetLevel::new(num, den));
        assert!(matches!(
            processor.process(&audio, &config),
            Err(AudioError::ProcessingError(_))
        ));
        assert!(matches!(
            processor.validate_config(&config),
            Err(AudioError::ProcessingError(_))
        ));
    }
}

#[test]
fn normalize_rejects_splice_config() {
    let audio = mono_source(vec![1, 2, 3], 8);
    let config = ProcessorConfig::Splice { duration_ms: 10, count: 1, reverse: false };
    let processor = NormalizeProcessor::new();
    assert!(matches!(
        processor.process(&audio, &config),
        Err(AudioError::ProcessingError(_))
    ));
    assert!(matches!(
        processor.validate_config(&config),
        Err(AudioError::ProcessingError(_))
    ));
}

#[test]
fn gain_saturates_instead_of_wrapping() {
    // The most negative sample saturates at the lower bound when a gain
    // far above one is applied.
    let mut buffer = vec![-32768, 1, -1];
    NormalizeProcessor::apply_gain(&mut buffer, TargetLevel::full_scale(), 1);
    assert_eq!(buffer, vec![-32768, 32767, -32767]);
}

#[test]
fn find_peak_uses_magnitudes() {
    assert_eq!(NormalizeProcessor::find_peak(&vec![]), 0);
    assert_eq!(NormalizeProcessor::find_peak(&vec![0, 0]), 0);
    assert_eq!(NormalizeProcessor::find_peak(&vec![5, -9, 3]), 9);
    assert_eq!(NormalizeProcessor::find_peak(&vec![-32768]), 32768);
}

#[test]
fn hybrid_mode_produces_five_individually_normalized_clips() {
    // A 5-second source at 1000 Hz; the fixed policy takes five 2-second
    // clips. Every sample is 100, so each clip normalizes to full scale.
    let audio = mono_source(vec![100; 5000], 1000);
    let config = ProcessorConfig::Normalize {
        target: TargetLevel::full_scale(),
        apply_to_splices: true,
    };
    let result = NormalizeProcessor::new()
        .process(&audio, &config)
        .expect("hybrid mode succeeds");
    assert_eq!(result.clips.len(), 5);
    for clip in &result.clips {
        assert_eq!(clip.len(), 2000);
        assert!(clip.iter().all(|&s| s == 32767));
    }
}

#[test]
fn hybrid_mode_fails_on_silent_source() {
    // Any 2-second clip drawn from an all-zero source is silent, and a
    // silent clip leaves no gain to compute.
    let audio = mono_source(vec![0; 5000], 1000);
    let config = ProcessorConfig::Normalize {
        target: TargetLevel::full_scale(),
        apply_to_splices: true,
    };
    let err = NormalizeProcessor::new().process(&audio, &config).unwrap_err();
    assert!(matches!(err, AudioError::ProcessingError(_)));
}

#[test]
fn hybrid_clips_are_normalized_independently() {
    // Every sample is nonzero and the magnitudes vary along the file, so
    // every possible clip carries signal; each produced clip reaches the
    // full-scale target on its own peak.
    let source: Vec<i16> = (0..5000).map(|i| (i % 97) as i16 + 1).collect();
    let audio = mono_source(source, 1000);
    let config = ProcessorConfig::Normalize {
        target: TargetLevel::full_scale(),
        apply_to_splices: true,
    };
    let result = NormalizeProcessor::new()
        .process(&audio, &config)
        .expect("no clip of this source is silent");
    assert_eq!(result.clips.len(), 5);
    for clip in &result.clips {
        let peak = clip.iter().map(|&s| (s as i32).abs()).max().unwrap();
        assert_eq!(peak, 32767);
    }
}

#[test]
fn hybrid_mode_rejects_source_shorter_than_its_fixed_clips() {
    // One second of audio cannot yield 2-second clips.
    let audio = mono_source(vec![100; 1000], 1000);
    let config = ProcessorConfig::Normalize {
        target: TargetLevel::full_scale(),
        apply_to_splices: true,
    };
    let err = NormalizeProcessor::new().process(&audio, &config).unwrap_err();
    assert!(matches!(err, AudioError::ProcessingError(_)));
}
