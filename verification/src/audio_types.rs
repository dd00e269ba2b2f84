//! Plain data of the capture subsystem: requested configuration, session
//! descriptor, finished-capture result, and the capture error taxonomy.

use vstd::prelude::*;

verus! {

/// Configuration requested for a capture session.
#[derive(Clone, Debug)]
pub struct AudioRecordingConfig {
    /// Requested sample rate in Hz.
    pub sample_rate: u32,
    /// Requested channel count.
    pub channels: u16,
    pub echo_cancellation: bool,
    pub noise_suppression: bool,
    pub auto_gain_control: bool,
}

impl Default for AudioRecordingConfig {
    /// 48 kHz mono with every processing option switched on.
    fn default() -> (c: Self)
        ensures
            c.sample_rate == 48000,
            c.channels == 1,
            c.echo_cancellation,
            c.noise_suppression,
            c.auto_gain_control,
    {
        AudioRecordingConfig {
            sample_rate: 48000,
            channels: 1,
            echo_cancellation: true,
            noise_suppression: true,
            auto_gain_control: true,
        }
    }
}

/// One open capture session, immutable once created.
#[derive(Debug)]
pub struct AudioRecordingSession {
    /// Opaque identifier, unique per session.
    pub session_id: String,
    /// When capture started, Unix epoch milliseconds.
    pub started_at: u64,
    /// The negotiated sample rate.
    pub sample_rate: u32,
    /// The negotiated channel count of the device stream.
    pub channels: u16,
}

impl Clone for AudioRecordingSession {
    fn clone(&self) -> (r: Self)
        ensures
            r == *self,
    {
        AudioRecordingSession {
            session_id: self.session_id.clone(),
            started_at: self.started_at,
            sample_rate: self.sample_rate,
            channels: self.channels,
        }
    }
}

/// What a stopped capture hands back.
#[derive(Clone, Debug)]
pub struct AudioRecordingResult {
    pub session_id: String,
    /// Length of the capture in milliseconds.
    pub duration_ms: u64,
    /// The encoded PCM container.
    pub audio_data: Vec<u8>,
    /// Sample rate of the encoded audio.
    pub sample_rate: u32,
}

/// Why a capture command failed.
#[derive(Clone, Debug)]
pub enum AudioRecordingError {
    /// No audio input device is available.
    NoInputDevice,
    /// The stream could not be initialized, or a session is already active.
    StreamInitFailed(String),
    /// No capture session is active.
    NoActiveSession,
    /// The supplied identifier does not match the active session.
    SessionMismatch,
    /// Processing failed.
    ProcessingError(String),
    /// The capture could not be encoded.
    EncodingError(String),
}

impl AudioRecordingError {
    /// The human-readable text of this error.
    pub fn message(&self) -> (r: String)
        ensures
            (match *self {
                AudioRecordingError::NoInputDevice => r@ == "No audio input device available"@,
                AudioRecordingError::StreamInitFailed(m) => r@
                    == "Failed to initialize audio stream: "@ + m@,
                AudioRecordingError::NoActiveSession => r@ == "No active recording session"@,
                AudioRecordingError::SessionMismatch => r@
                    == "Session ID does not match active recording"@,
                AudioRecordingError::ProcessingError(m) => r@ == "Audio processing error: "@
                    + m@,
                AudioRecordingError::EncodingError(m) => r@ == "WAV encoding error: "@ + m@,
            }),
    {
        match self {
            AudioRecordingError::NoInputDevice => String::from_str(
                "No audio input device available",
            ),
            AudioRecordingError::StreamInitFailed(m) => String::from_str(
                "Failed to initialize audio stream: ",
            ).concat(m.as_str()),
            AudioRecordingError::NoActiveSession => String::from_str(
                "No active recording session",
            ),
            AudioRecordingError::SessionMismatch => String::from_str(
                "Session ID does not match active recording",
            ),
            AudioRecordingError::ProcessingError(m) => String::from_str(
                "Audio processing error: ",
            ).concat(m.as_str()),
            AudioRecordingError::EncodingError(m) => String::from_str(
                "WAV encoding error: ",
            ).concat(m.as_str()),
        }
    }
}

} // verus!
