//! Audio sources, devices and the events that an audio server reports.

use crate::text;
use crate::timeutil::UtcTime;
use vstd::prelude::*;

pub mod convert;
pub mod devices;
pub mod fake;
pub mod pulse;
pub mod speech;

verus! {

#[derive(Clone, Copy, Debug, PartialEq, Eq, Hash, Structural)]
pub enum AudioSource {
    Mic,
    System,
}

impl AudioSource {
    pub open spec fn name(self) -> Seq<char> {
        match self {
            AudioSource::Mic => "mic"@,
            AudioSource::System => "system"@,
        }
    }

    pub open spec fn label(self) -> Seq<char> {
        match self {
            AudioSource::Mic => "MIC"@,
            AudioSource::System => "SYSTEM"@,
        }
    }

    pub fn as_str(self) -> (r: &'static str)
        ensures
            r@ == self.name(),
    {
        match self {
            AudioSource::Mic => "mic",
            AudioSource::System => "system",
        }
    }

    pub fn display_label(self) -> (r: &'static str)
        ensures
            r@ == self.label(),
    {
        match self {
            AudioSource::Mic => "MIC",
            AudioSource::System => "SYSTEM",
        }
    }

    /// The directory below `audio/` that holds the chunks of this source.
    pub fn audio_subdir(self) -> (r: &'static str)
        ensures
            r@ == self.name(),
    {
        match self {
            AudioSource::Mic => "mic",
            AudioSource::System => "system",
        }
    }
}

#[derive(Clone, Copy, Debug, PartialEq, Eq, Structural)]
pub enum DeviceRole {
    Microphone,
    OutputSink,
    MonitorSource,
}

#[derive(Debug, PartialEq, Eq)]
pub struct AudioDevice {
    pub id: String,
    pub description: String,
    pub role: DeviceRole,
}

impl Clone for AudioDevice {
    fn clone(&self) -> (r: Self)
        ensures
            r == *self,
    {
        AudioDevice {
            id: self.id.clone(),
            description: self.description.clone(),
            role: self.role,
        }
    }
}

impl AudioDevice {
    /// The identifier, and the description where it says more.
    pub open spec fn summary_text(self) -> Seq<char> {
        if self.description@.len() == 0 || self.description@ == self.id@ {
            self.id@
        } else {
            self.id@ + " ("@ + self.description@ + ")"@
        }
    }

    pub fn summary(&self) -> (r: String)
        ensures
            r@ == self.summary_text(),
    {
        if self.description.as_str().is_empty() || self.description == self.id {
            self.id.clone()
        } else {
            text::concat4(self.id.as_str(), " (", self.description.as_str(), ")")
        }
    }
}

/// A run of 16 kHz mono samples and when it was captured.
#[derive(Clone, Debug)]
pub struct PcmFrame {
    pub source: AudioSource,
    pub samples: Vec<i16>,
    pub captured_at: UtcTime,
}

#[derive(Clone, Debug)]
pub enum AudioEvent {
    MicrophoneChanged { device: AudioDevice },
    MicrophoneUnavailable { device_id: String, reason: String },
    MicrophoneAvailable { device: AudioDevice },
    OutputChanged { device: AudioDevice, monitor: AudioDevice },
    OutputUnavailable { device_id: String, reason: String },
    OutputAvailable { device: AudioDevice, monitor: AudioDevice },
    AudioServerUnavailable { reason: String },
    AudioServerAvailable,
}

/// Whether an event ends a capture stream of `source` that is bound to a device.
pub open spec fn stops_capture(
    source: AudioSource,
    bound: Seq<char>,
    follow_default: bool,
    event: AudioEvent,
) -> bool {
    match event {
        AudioEvent::AudioServerUnavailable { .. } => true,
        AudioEvent::MicrophoneUnavailable { device_id, .. } => source == AudioSource::Mic && (
        device_id@ == bound || device_id@.len() == 0),
        AudioEvent::OutputUnavailable { device_id, .. } => source == AudioSource::System && (
        device_id@ == bound || device_id@.len() == 0),
        AudioEvent::MicrophoneChanged { .. } => source == AudioSource::Mic && follow_default,
        AudioEvent::OutputChanged { .. } => source == AudioSource::System && follow_default,
        _ => false,
    }
}

/// Whether an audio event should stop the current capture stream so that it can be
/// connected anew.
pub fn capture_should_stop(
    source: AudioSource,
    bound_device_id: &str,
    follow_default: bool,
    event: &AudioEvent,
) -> (r: bool)
    ensures
        r == stops_capture(source, bound_device_id@, follow_default, *event),
{
    match event {
        AudioEvent::AudioServerUnavailable { .. } => true,
        AudioEvent::MicrophoneUnavailable { device_id, .. } => source == AudioSource::Mic && (
        text::same(device_id.as_str(), bound_device_id) || device_id.as_str().is_empty()),
        AudioEvent::OutputUnavailable { device_id, .. } => source == AudioSource::System && (
        text::same(device_id.as_str(), bound_device_id) || device_id.as_str().is_empty()),
        AudioEvent::MicrophoneChanged { .. } => source == AudioSource::Mic && follow_default,
        AudioEvent::OutputChanged { .. } => source == AudioSource::System && follow_default,
        _ => false,
    }
}

/// The names of the sources.
pub proof fn law_sources_go_by_their_names()
    ensures
        AudioSource::Mic.name() == "mic"@,
        AudioSource::System.name() == "system"@,
        AudioSource::Mic.label() == "MIC"@,
        AudioSource::System.label() == "SYSTEM"@,
{
}

/// A device is named by its identifier, with its description behind it where that says more.
pub proof fn law_how_a_device_is_named(d: AudioDevice)
    ensures
        d.description@.len() == 0 || d.description@ == d.id@ ==> d.summary_text() == d.id@,
        d.description@.len() > 0 && d.description@ != d.id@ ==> d.summary_text() == d.id@ + " ("@
            + d.description@ + ")"@,
        d.summary_text().take(d.id@.len() as int) == d.id@,
{
    assert(d.summary_text().take(d.id@.len() as int) =~= d.id@);
}

} // verus!
