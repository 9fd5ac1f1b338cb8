use audio_core::api::ProcessAudioResponse;
use audio_core::audio::AudioData;
use audio_core::errors::AudioError;
use audio_core::result::{ProcessingMetadata, ProcessingResult, ProcessorKind};

#[test]
fn audio_data_computes_frames_from_interleaved_samples() {
    let stereo = AudioData::new(vec![1, 2, 3, 4, 5, 6], 48000, 2).expect("valid stereo");
    assert_eq!(stereo.meta.total_frames, 3);
    assert_eq!(stereo.meta.channels, 2);
    assert_eq!(stereo.meta.sample_rate, 48000);
}

#[test]
fn audio_data_duration_is_frames_over_rate() {
    let audio = AudioData::new(vec![0; 441000], 44100, 1).expect("valid mono");
    assert_eq!(audio.meta.input_duration_ms(), 10000);
    let audio = AudioData::new(vec![0; 441], 44100, 1).expect("valid mono");
    assert_eq!(audio.meta.input_duration_ms(), 10);
}

#[test]
fn audio_data_rejects_malformed_streams() {
    assert!(matches!(
        AudioData::new(vec![1, 2, 3], 44100, 2),
        Err(AudioError::InvalidFormat(_))
    ));
    assert!(matches!(
        AudioData::new(vec![1, 2], 0, 1),
        Err(AudioError::InvalidFormat(_))
    ));
    assert!(matches!(
        AudioData::new(vec![1, 2], 44100, 0),
        Err(AudioError::InvalidFormat(_))
    ));
}

#[test]
fn error_kinds_have_stable_tags() {
    let cases: Vec<(AudioError, &str)> = vec![
        (AudioError::IoError("a".to_string()), "IoError"),
        (AudioError::WavError("b".to_string()), "WavError"),
        (AudioError::InvalidDuration("c".to_string()), "InvalidDuration"),
        (AudioError::InvalidSpliceCount("d".to_string()), "InvalidSpliceCount"),
        (AudioError::ProcessingError("e".to_string()), "ProcessingError"),
        (AudioError::FileNotFound("f".to_string()), "FileNotFound"),
        (AudioError::InvalidFormat("g".to_string()), "InvalidFormat"),
    ];
    for (err, tag) in cases {
        assert_eq!(err.kind_name(), tag);
    }
}

#[test]
fn error_kinds_map_to_http_statuses() {
    assert_eq!(AudioError::InvalidDuration("x".to_string()).status_code(), 400);
    assert_eq!(AudioError::InvalidSpliceCount("x".to_string()).status_code(), 400);
    assert_eq!(AudioError::FileNotFound("x".to_string()).status_code(), 404);
    assert_eq!(AudioError::IoError("x".to_string()).status_code(), 500);
    assert_eq!(AudioError::WavError("x".to_string()).status_code(), 500);
    assert_eq!(AudioError::ProcessingError("x".to_string()).status_code(), 500);
    assert_eq!(AudioError::InvalidFormat("x".to_string()).status_code(), 500);
}

#[test]
fn error_messages_are_preserved() {
    let err = AudioError::ProcessingError("something went wrong".to_string());
    assert_eq!(err.message(), "something went wrong");
}

#[test]
fn response_envelopes_carry_result_or_error() {
    let metadata = ProcessingMetadata {
        processor_type: ProcessorKind::Splice,
        input_duration_ms: 1000,
        sample_rate: 44100,
        channels: 2,
        processing_time_ms: 0,
    };
    let result = ProcessingResult { clips: vec![vec![1, 2]], metadata };
    let ok = ProcessAudioResponse::success(result);
    assert!(ok.success);
    assert!(ok.result.is_some());
    assert!(ok.error.is_none());

    let bad = ProcessAudioResponse::error("boom".to_string());
    assert!(!bad.success);
    assert!(bad.result.is_none());
    assert_eq!(bad.error.as_deref(), Some("boom"));
}
