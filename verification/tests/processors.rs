use audio_core::audio::AudioData;
use audio_core::config::{ProcessorConfig, TargetLevel};
use audio_core::errors::AudioError;
use audio_core::normalize::NormalizeProcessor;
use audio_core::processor::AudioProcessor;
use audio_core::result::ProcessorKind;
use audio_core::splice::SpliceProcessor;

fn mono_source(samples: Vec<i16>, sample_rate: u32) -> AudioData {
    AudioData::new(samples, sample_rate, 1).expect("valid mono source")
}

/// Checks that `clip` (already un-reversed if needed) is a contiguous
/// window of `source` of exactly `clip.len()` samples.
fn is_window_of(clip: &[i16], source: &[i16]) -> bool {
    if clip.is_empty() {
        return true;
    }
    if clip.len() > source.len() {
        return false;
    }
    for start in 0..=(source.len() - clip.len()) {
        if &source[start..start + clip.len()] == clip {
            return true;
        }
    }
    false
}

#[test]
fn splice_produces_requested_clip_count_and_lengths() {
    // 100 frames at 1000 Hz is a 100 ms source; 10 ms clips of 10 frames.
    let source: Vec<i16> = (0..100).map(|i| i as i16).collect();
    let audio = mono_source(source.clone(), 1000);
    let config = ProcessorConfig::Splice { duration_ms: 10, count: 3, reverse: false };
    let processor = SpliceProcessor::new();
    let result = processor.process(&audio, &config).expect("splice succeeds");
    assert_eq!(result.clips.len(), 3);
    for clip in &result.clips {
        assert_eq!(clip.len(), 10);
        assert!(is_window_of(clip, &source));
        // The last frame of the source can never start a clip: every
        // window must end before the source does.
        assert!(clip[clip.len() - 1] < 99);
    }
    assert_eq!(result.metadata.processor_type, ProcessorKind::Splice);
    assert_eq!(result.metadata.sample_rate, 1000);
    assert_eq!(result.metadata.channels, 1);
    assert_eq!(result.metadata.input_duration_ms, 100);
}

#[test]
fn splice_reversed_clips_are_reversed_windows() {
    let source: Vec<i16> = (0..200).map(|i| i as i16).collect();
    let audio = mono_source(source.clone(), 1000);
    let config = ProcessorConfig::Splice { duration_ms: 20, count: 4, reverse: true };
    let processor = SpliceProcessor::new();
    let result = processor.process(&audio, &config).expect("splice succeeds");
    assert_eq!(result.clips.len(), 4);
    for clip in &result.clips {
        assert_eq!(clip.len(), 20);
        let mut unreversed = clip.clone();
        unreversed.reverse();
        assert!(is_window_of(&unreversed, &source));
    }
}

#[test]
fn splice_rejects_zero_duration_before_any_work() {
    let audio = mono_source(vec![1, 2, 3, 4], 4);
    let config = ProcessorConfig::Splice { duration_ms: 0, count: 3, reverse: false };
    let processor = SpliceProcessor::new();
    let err = processor.process(&audio, &config).unwrap_err();
    assert!(matches!(err, AudioError::InvalidDuration(_)));
    let err = processor.validate_config(&config).unwrap_err();
    assert!(matches!(err, AudioError::InvalidDuration(_)));
}

#[test]
fn splice_rejects_nonpositive_count() {
    let audio = mono_source(vec![1, 2, 3, 4], 4);
    let processor = SpliceProcessor::new();
    for count in [0, -1] {
        let config = ProcessorConfig::Splice { duration_ms: 1000, count, reverse: false };
        let err = processor.process(&audio, &config).unwrap_err();
        assert!(matches!(err, AudioError::InvalidSpliceCount(_)));
        let err = processor.validate_config(&config).unwrap_err();
        assert!(matches!(err, AudioError::InvalidSpliceCount(_)));
    }
}

#[test]
fn splice_rejects_duration_not_shorter_than_source() {
    // A 4-frame source at 4 Hz lasts one second; a one-second clip does
    // not leave a nonempty range of start offsets.
    let audio = mono_source(vec![1, 2, 3, 4], 4);
    let config = ProcessorConfig::Splice { duration_ms: 1000, count: 1, reverse: false };
    let processor = SpliceProcessor::new();
    let err = processor.process(&audio, &config).unwrap_err();
    assert!(matches!(err, AudioError::ProcessingError(_)));
}

#[test]
fn splice_rejects_normalize_config() {
    let audio = mono_source(vec![1, 2, 3, 4], 4);
    let config = ProcessorConfig::Normalize {
        target: TargetLevel::full_scale(),
        apply_to_splices: false,
    };
    let processor = SpliceProcessor::new();
    assert!(matches!(
        processor.process(&audio, &config),
        Err(AudioError::ProcessingError(_))
    ));
    assert!(matches!(
        processor.validate_config(&config),
        Err(AudioError::ProcessingError(_))
    ));
}

#[test]
fn reverse_twice_restores_the_clip() {
    let original: Vec<i16> = vec![5, -3, 0, 32767, -32768, 17, 9];
    let mut buffer = original.clone();
    SpliceProcessor::reverse_samples(&mut buffer);
    assert_eq!(buffer, vec![9, 17, -32768, 32767, 0, -3, 5]);
    SpliceProcessor::reverse_samples(&mut buffer);
    assert_eq!(buffer, original);
}

#[test]
fn processor_type_tags() {
    assert_eq!(SpliceProcessor::new().processor_type(), "splice");
    assert_eq!(NormalizeProcessor::new().processor_type(), "normalize");
}

#[test]
fn ten_second_mono_source_three_reversed_two_second_clips() {
    // A 10-second, 44100 Hz mono source; 2-second clips must each be the
    // time-reversed sample sequence of some window starting in the first
    // eight seconds.
    let total: usize = 441000;
    let clip_len: usize = 88200;
    let source: Vec<i16> = (0..total).map(|i| (i & 0x7fff) as i16).collect();
    let audio = mono_source(source.clone(), 44100);
    let config = ProcessorConfig::Splice { duration_ms: 2000, count: 3, reverse: true };
    let result = SpliceProcessor::new()
        .process(&audio, &config)
        .expect("splice succeeds");
    assert_eq!(result.clips.len(), 3);
    for clip in &result.clips {
        assert_eq!(clip.len(), clip_len);
        // The clip is reversed, so its first sample came from the end of
        // its window; candidate window ends repeat every 0x8000 frames.
        let last_value = clip[0] as usize;
        let mut found = None;
        let mut end = last_value;
        while end < total {
            if end + 1 >= clip_len {
                let start = end + 1 - clip_len;
                let window = &source[start..start + clip_len];
                let matches_window =
                    (0..clip_len).all(|j| clip[j] == window[clip_len - 1 - j]);
                if matches_window {
                    found = Some(start);
                    break;
                }
            }
            end += 0x8000;
        }
        let start = found.expect("clip is a reversed window of the source");
        // The window starts inside [0 s, 8 s) and ends before the file does.
        assert!(start + clip_len < total);
    }
}
