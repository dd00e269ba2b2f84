use assistant_core::audio_types::{AudioRecordingConfig, AudioRecordingError, AudioRecordingSession};
use assistant_core::recorder::{
    downmix_to_mono, handle_command, negotiate_stream_config, pick_supported_config,
    negotiated_rate, RecorderCommand, RecorderResponse, RecorderState, SupportedConfigRange,
};

fn session(id: &str, rate: u32, channels: u16) -> AudioRecordingSession {
    AudioRecordingSession {
        session_id: id.to_string(),
        started_at: 1_000,
        sample_rate: rate,
        channels,
    }
}

#[test]
fn start_then_stop_roundtrip() {
    let mut state = RecorderState::new();
    let s = state.start_session(session("rec-1", 8000, 1)).unwrap();
    assert_eq!(s.session_id, "rec-1");
    let block: Vec<i16> = vec![100, -100, 3200];
    state.append_block(&block);
    let res = state.stop_session("rec-1", 2_500).unwrap();
    assert_eq!(res.session_id, "rec-1");
    assert_eq!(res.duration_ms, 1_500);
    assert_eq!(res.sample_rate, 8000);
    // decode with hound as the oracle
    let cursor = std::io::Cursor::new(res.audio_data.clone());
    let reader = hound::WavReader::new(cursor).unwrap();
    let spec = reader.spec();
    assert_eq!(spec.sample_rate, 8000);
    assert_eq!(spec.channels, 1);
    assert_eq!(spec.bits_per_sample, 16);
    let samples: Vec<i16> = reader.into_samples::<i16>().map(|s| s.unwrap()).collect();
    assert_eq!(samples, block);
}

#[test]
fn second_start_fails_and_keeps_session() {
    let mut state = RecorderState::new();
    state.start_session(session("rec-1", 48000, 1)).unwrap();
    let err = state.start_session(session("rec-2", 48000, 1)).unwrap_err();
    match err {
        AudioRecordingError::StreamInitFailed(m) => {
            assert_eq!(m, "Recording already in progress")
        }
        other => panic!("unexpected error: {:?}", other),
    }
    // the first session is untouched: it still stops cleanly
    let res = state.stop_session("rec-1", 1_000).unwrap();
    assert_eq!(res.session_id, "rec-1");
}

#[test]
fn stop_with_wrong_id_keeps_session() {
    let mut state = RecorderState::new();
    state.start_session(session("rec-1", 48000, 1)).unwrap();
    let block: Vec<i16> = vec![7, 8, 9];
    state.append_block(&block);
    assert!(matches!(
        state.stop_session("rec-9", 1_000),
        Err(AudioRecordingError::SessionMismatch)
    ));
    assert!(matches!(
        state.cancel_session("rec-9"),
        Err(AudioRecordingError::SessionMismatch)
    ));
    // the buffered samples survived the mismatched attempts
    let res = state.stop_session("rec-1", 1_000).unwrap();
    let cursor = std::io::Cursor::new(res.audio_data);
    let reader = hound::WavReader::new(cursor).unwrap();
    let samples: Vec<i16> = reader.into_samples::<i16>().map(|s| s.unwrap()).collect();
    assert_eq!(samples, block);
}

#[test]
fn stop_without_session_fails() {
    let mut state = RecorderState::new();
    assert!(matches!(
        state.stop_session("rec-1", 0),
        Err(AudioRecordingError::NoActiveSession)
    ));
    assert!(matches!(
        state.cancel_session("rec-1"),
        Err(AudioRecordingError::NoActiveSession)
    ));
}

#[test]
fn cancel_discards_samples() {
    let mut state = RecorderState::new();
    state.start_session(session("rec-1", 48000, 1)).unwrap();
    let block: Vec<i16> = vec![1, 2, 3];
    state.append_block(&block);
    state.cancel_session("rec-1").unwrap();
    assert!(matches!(
        state.stop_session("rec-1", 0),
        Err(AudioRecordingError::NoActiveSession)
    ));
}

#[test]
fn force_reset_reports_whether_active() {
    let mut state = RecorderState::new();
    assert!(!state.force_reset());
    state.start_session(session("rec-1", 48000, 1)).unwrap();
    assert!(state.force_reset());
    assert!(!state.force_reset());
}

#[test]
fn command_dispatch_matches_methods() {
    let mut state = RecorderState::new();
    let resp = handle_command(&mut state, RecorderCommand::StartCapture(session("rec-7", 16000, 2)), 0);
    assert!(matches!(resp, RecorderResponse::Started(Ok(_))));
    let resp = handle_command(&mut state, RecorderCommand::StopCapture("rec-0".to_string()), 5);
    assert!(matches!(
        resp,
        RecorderResponse::Stopped(Err(AudioRecordingError::SessionMismatch))
    ));
    let resp = handle_command(&mut state, RecorderCommand::ForceReset, 10);
    assert!(matches!(resp, RecorderResponse::WasReset(true)));
    let resp = handle_command(&mut state, RecorderCommand::Shutdown, 10);
    assert!(matches!(resp, RecorderResponse::ShuttingDown));
}

#[test]
fn downmix_two_channels_averages_frames() {
    // interleaved [1.0, -1.0, 0.5, -0.5] quantized the way the capture edge does
    let quantize = |s: f32| (s * 32767.0).clamp(-32768.0, 32767.0) as i16;
    let block: Vec<i16> = [1.0f32, -1.0, 0.5, -0.5].iter().map(|&s| quantize(s)).collect();
    assert_eq!(block, vec![32767, -32767, 16383, -16383]);
    let mono = downmix_to_mono(&block, 2);
    assert_eq!(mono, vec![0, 0]);
}

#[test]
fn downmix_single_channel_is_identity() {
    let block: Vec<i16> = vec![5, -6, 7];
    assert_eq!(downmix_to_mono(&block, 1), block);
}

#[test]
fn downmix_partial_frame_still_divides_by_channels() {
    // trailing lone sample of a 2-channel stream is still divided by 2
    let block: Vec<i16> = vec![10, 20, 9];
    assert_eq!(downmix_to_mono(&block, 2), vec![15, 4]);
}

fn config(rate: u32, channels: u16) -> AudioRecordingConfig {
    AudioRecordingConfig {
        sample_rate: rate,
        channels,
        echo_cancellation: true,
        noise_suppression: true,
        auto_gain_control: true,
    }
}

fn range(channels: u16, min: u32, max: u32) -> SupportedConfigRange {
    SupportedConfigRange { channels, min_sample_rate: min, max_sample_rate: max }
}

#[test]
fn negotiation_prefers_exact_match() {
    let supported = vec![range(2, 8000, 96000), range(1, 8000, 96000)];
    let picked = pick_supported_config(&supported, &config(48000, 1)).unwrap();
    assert_eq!(picked, 1);
    let (channels, rate) = negotiate_stream_config(&supported, &config(48000, 1)).unwrap();
    assert_eq!((channels, rate), (1, 48000));
}

#[test]
fn negotiation_falls_back_to_mono_then_any() {
    // no exact match for 1 channel at 48 kHz: the mono range wins
    let supported = vec![range(2, 8000, 96000), range(1, 8000, 16000)];
    let picked = pick_supported_config(&supported, &config(48000, 1)).unwrap();
    assert_eq!(picked, 1);
    // no mono at all: the first range wins
    let supported = vec![range(2, 8000, 96000), range(4, 8000, 96000)];
    let picked = pick_supported_config(&supported, &config(48000, 1)).unwrap();
    assert_eq!(picked, 0);
    // nothing at all
    assert!(pick_supported_config(&Vec::new(), &config(48000, 1)).is_none());
}

#[test]
fn negotiated_rate_caps_out_of_range_requests() {
    assert_eq!(negotiated_rate(&range(1, 8000, 96000), 48000), 48000);
    assert_eq!(negotiated_rate(&range(1, 8000, 16000), 48000), 16000);
    assert_eq!(negotiated_rate(&range(1, 8000, 96000), 4000), 48000);
}

#[test]
fn default_config_is_mono_48k() {
    let c = AudioRecordingConfig::default();
    assert_eq!(c.sample_rate, 48000);
    assert_eq!(c.channels, 1);
    assert!(c.echo_cancellation && c.noise_suppression && c.auto_gain_control);
}

#[test]
fn error_messages_match_their_variants() {
    assert_eq!(
        AudioRecordingError::NoInputDevice.message(),
        "No audio input device available"
    );
    assert_eq!(
        AudioRecordingError::StreamInitFailed("boom".to_string()).message(),
        "Failed to initialize audio stream: boom"
    );
    assert_eq!(
        AudioRecordingError::NoActiveSession.message(),
        "No active recording session"
    );
    assert_eq!(
        AudioRecordingError::SessionMismatch.message(),
        "Session ID does not match active recording"
    );
    assert_eq!(
        AudioRecordingError::ProcessingError("p".to_string()).message(),
        "Audio processing error: p"
    );
    assert_eq!(
        AudioRecordingError::EncodingError("e".to_string()).message(),
        "WAV encoding error: e"
    );
}
