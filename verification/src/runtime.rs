//! What the service shows of itself while it runs.

use crate::audio::AudioDevice;
use crate::config::ProviderKind;
use vstd::prelude::*;

verus! {

pub const AUDIO_RECONNECT_DELAY_SECS: u64 = 5;

pub const DISK_CHECK_INTERVAL_SECS: u64 = 15;

pub const WORKER_SHUTDOWN_GRACE_SECS: u64 = 2;

pub const CONTROL_IDLE_TIMEOUT_SECS: u64 = 30;

pub const CONTROL_MAX_LINE_BYTES: usize = 65_536;

pub const STOP_WAIT_SECS: u64 = 15;

#[derive(Clone, Copy, Debug, PartialEq, Eq, Structural)]
pub enum AudioServerHealth {
    Available,
    Unavailable,
}

#[derive(Clone, Copy, Debug, PartialEq, Eq, Structural)]
pub enum SourceUiState {
    Idle,
    Capturing,
    Unavailable,
    Reconnecting,
}

#[derive(Clone, Debug)]
pub struct RuntimeStatus {
    pub session_id: Option<String>,
    pub session_started_at: Option<String>,
    pub microphone: Option<AudioDevice>,
    pub output: Option<AudioDevice>,
    pub monitor: Option<AudioDevice>,
    pub microphone_state: SourceUiState,
    pub system_state: SourceUiState,
    pub audio_server: AudioServerHealth,
    pub capture_active: bool,
    pub capture_paused: bool,
    pub capture_stop_reason: Option<String>,
    pub provider: ProviderKind,
}

impl RuntimeStatus {
    /// The status of a service that has not recorded yet.
    pub fn new(provider: ProviderKind) -> (r: Self)
        ensures
            r == (RuntimeStatus {
                session_id: None,
                session_started_at: None,
                microphone: None,
                output: None,
                monitor: None,
                microphone_state: SourceUiState::Idle,
                system_state: SourceUiState::Idle,
                audio_server: AudioServerHealth::Unavailable,
                capture_active: false,
                capture_paused: false,
                capture_stop_reason: None,
                provider,
            }),
    {
        RuntimeStatus {
            session_id: None,
            session_started_at: None,
            microphone: None,
            output: None,
            monitor: None,
            microphone_state: SourceUiState::Idle,
            system_state: SourceUiState::Idle,
            audio_server: AudioServerHealth::Unavailable,
            capture_active: false,
            capture_paused: false,
            capture_stop_reason: None,
            provider,
        }
    }
}

/// A message for those who watch the service.
#[derive(Clone, Debug)]
pub struct UiEvent {
    pub event: String,
    pub session_id: Option<String>,
    pub message: Option<String>,
}

impl UiEvent {
    pub fn new(event: &str) -> (r: Self)
        ensures
            r.event@ == event@,
            r.session_id is None,
            r.message is None,
    {
        UiEvent { event: event.to_owned(), session_id: None, message: None }
    }

    pub fn session(self, id: &str) -> (r: Self)
        ensures
            r.event == self.event,
            r.session_id matches Some(s) && s@ == id@,
            r.message == self.message,
    {
        UiEvent { event: self.event, session_id: Some(id.to_owned()), message: self.message }
    }

    pub fn message(self, message: &str) -> (r: Self)
        ensures
            r.event == self.event,
            r.session_id == self.session_id,
            r.message matches Some(m) && m@ == message@,
    {
        UiEvent {
            event: self.event,
            session_id: self.session_id,
            message: Some(message.to_owned()),
        }
    }
}

} // verus!
