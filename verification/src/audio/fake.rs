//! An audio server that is only pretended, for trying out recordings.

use crate::audio::{AudioDevice, AudioEvent, AudioSource, DeviceRole};
use crate::error::{fails, AppError, ErrorKind, Result};
use crate::text;
use vstd::prelude::*;

verus! {

/// A pretended audio server with one microphone and one output.
#[derive(Debug)]
pub struct FakeAudioBackend {
    pub mic: AudioDevice,
    pub sink: AudioDevice,
    pub monitor: AudioDevice,
    pub fail_mic: bool,
    pub fail_system: bool,
    pub server_available: bool,
    pub mic_frames: u64,
    pub system_frames: u64,
    pub last_mic_device: Option<String>,
    pub last_system_device: Option<String>,
    pub samples_per_frame: usize,
}

/// Whether this is a device.
pub open spec fn is_device(
    d: AudioDevice,
    id: Seq<char>,
    description: Seq<char>,
    role: DeviceRole,
) -> bool {
    d.id@ == id && d.description@ == description && d.role == role
}

/// The message of a server that is not there.
pub open spec fn no_server() -> Seq<char> {
    "fake audio server unavailable"@
}

fn server_missing() -> (e: AppError)
    ensures
        e@ == (ErrorKind::Audio, no_server()),
{
    AppError::audio("fake audio server unavailable")
}

impl FakeAudioBackend {
    pub fn new(frames_per_source: usize, samples_per_frame: usize) -> (r: Self)
        ensures
            r.is_fresh(samples_per_frame),
    {
        let _ = frames_per_source;
        Self::continuous(samples_per_frame)
    }

    /// A server that nothing happened to yet.
    pub open spec fn is_fresh(self, samples_per_frame: usize) -> bool {
        &&& is_device(self.mic, "fake-mic"@, "Fake microphone"@, DeviceRole::Microphone)
        &&& is_device(self.sink, "fake-sink"@, "Fake output"@, DeviceRole::OutputSink)
        &&& is_device(
            self.monitor,
            "fake-sink.monitor"@,
            "Fake output monitor"@,
            DeviceRole::MonitorSource,
        )
        &&& !self.fail_mic && !self.fail_system && self.server_available
        &&& self.mic_frames == 0 && self.system_frames == 0
        &&& self.last_mic_device is None && self.last_system_device is None
        &&& self.samples_per_frame == samples_per_frame
    }

    pub fn continuous(samples_per_frame: usize) -> (r: Self)
        ensures
            r.is_fresh(samples_per_frame),
    {
        FakeAudioBackend {
            mic: AudioDevice {
                id: "fake-mic".to_owned(),
                description: "Fake microphone".to_owned(),
                role: DeviceRole::Microphone,
            },
            sink: AudioDevice {
                id: "fake-sink".to_owned(),
                description: "Fake output".to_owned(),
                role: DeviceRole::OutputSink,
            },
            monitor: AudioDevice {
                id: "fake-sink.monitor".to_owned(),
                description: "Fake output monitor".to_owned(),
                role: DeviceRole::MonitorSource,
            },
            fail_mic: false,
            fail_system: false,
            server_available: true,
            mic_frames: 0,
            system_frames: 0,
            last_mic_device: None,
            last_system_device: None,
            samples_per_frame,
        }
    }

    /// Makes a source fail, or work again.
    pub fn fail_source(&mut self, source: AudioSource, fail: bool)
        ensures
            *final(self) == match source {
                AudioSource::Mic => (FakeAudioBackend { fail_mic: fail, ..*old(self) }),
                AudioSource::System => (FakeAudioBackend { fail_system: fail, ..*old(self) }),
            },
    {
        match source {
            AudioSource::Mic => {
                self.fail_mic = fail;
            },
            AudioSource::System => {
                self.fail_system = fail;
            },
        }
    }

    /// Takes the server away, or brings it back. Returns what is told of it.
    pub fn set_server_available(&mut self, available: bool) -> (r: AudioEvent)
        ensures
            *final(self) == (FakeAudioBackend { server_available: available, ..*old(self) }),
            if available {
                r is AudioServerAvailable
            } else {
                r matches AudioEvent::AudioServerUnavailable { reason } && reason@ == no_server()
            },
    {
        self.server_available = available;
        if available {
            AudioEvent::AudioServerAvailable
        } else {
            AudioEvent::AudioServerUnavailable { reason: "fake audio server unavailable".to_owned() }
        }
    }

    /// Puts another microphone in. Returns what is told of it.
    pub fn set_microphone(&mut self, device: AudioDevice) -> (r: AudioEvent)
        ensures
            *final(self) == (FakeAudioBackend { mic: device, ..*old(self) }),
            r == (AudioEvent::MicrophoneChanged { device }),
    {
        self.mic = device.clone();
        AudioEvent::MicrophoneChanged { device }
    }

    /// Puts another output in. Returns what is told of it.
    pub fn set_output(&mut self, sink: AudioDevice, monitor: AudioDevice) -> (r: AudioEvent)
        ensures
            *final(self) == (FakeAudioBackend { sink, monitor, ..*old(self) }),
            r == (AudioEvent::OutputChanged { device: sink, monitor }),
    {
        self.sink = sink.clone();
        self.monitor = monitor.clone();
        AudioEvent::OutputChanged { device: sink, monitor }
    }

    /// Takes the output away. Returns what is told of it.
    pub fn hide_output(&mut self) -> (r: AudioEvent)
        ensures
            *final(self) == (FakeAudioBackend { fail_system: true, ..*old(self) }),
            r matches AudioEvent::OutputUnavailable { device_id, reason } && device_id@ == old(
                self,
            ).monitor.id@ && reason@ == "fake output disappeared"@,
    {
        let device_id = self.monitor.id.clone();
        self.fail_system = true;
        AudioEvent::OutputUnavailable { device_id, reason: "fake output disappeared".to_owned() }
    }

    pub fn frames_emitted(&self, source: AudioSource) -> (r: u64)
        ensures
            r == match source {
                AudioSource::Mic => self.mic_frames,
                AudioSource::System => self.system_frames,
            },
    {
        match source {
            AudioSource::Mic => self.mic_frames,
            AudioSource::System => self.system_frames,
        }
    }

    pub fn last_capture_device(&self, source: AudioSource) -> (r: Option<String>)
        ensures
            r == match source {
                AudioSource::Mic => self.last_mic_device,
                AudioSource::System => self.last_system_device,
            },
    {
        match source {
            AudioSource::Mic => self.last_mic_device.clone(),
            AudioSource::System => self.last_system_device.clone(),
        }
    }

    fn while_available(&self, device: &AudioDevice) -> (r: Result<AudioDevice>)
        ensures
            if self.server_available {
                r matches Ok(d) && d == *device
            } else {
                fails(r, ErrorKind::Audio, no_server())
            },
    {
        if self.server_available {
            Ok(device.clone())
        } else {
            Err(server_missing())
        }
    }

    pub fn current_microphone(&self) -> (r: Result<AudioDevice>)
        ensures
            if self.server_available {
                r matches Ok(d) && d == self.mic
            } else {
                fails(r, ErrorKind::Audio, no_server())
            },
    {
        self.while_available(&self.mic)
    }

    pub fn current_output_sink(&self) -> (r: Result<AudioDevice>)
        ensures
            if self.server_available {
                r matches Ok(d) && d == self.sink
            } else {
                fails(r, ErrorKind::Audio, no_server())
            },
    {
        self.while_available(&self.sink)
    }

    pub fn current_output_monitor(&self) -> (r: Result<AudioDevice>)
        ensures
            if self.server_available {
                r matches Ok(d) && d == self.monitor
            } else {
                fails(r, ErrorKind::Audio, no_server())
            },
    {
        self.while_available(&self.monitor)
    }

    /// Whether a name stands for a device.
    pub open spec fn names(configured: Seq<char>, device: AudioDevice) -> bool {
        configured == "default"@ || configured == device.id@
    }

    pub fn resolve_microphone(&self, configured: &str) -> (r: Result<AudioDevice>)
        ensures
            if !self.server_available {
                fails(r, ErrorKind::Audio, no_server())
            } else if Self::names(configured@, self.mic) {
                r matches Ok(d) && d == self.mic
            } else {
                fails(
                    r,
                    ErrorKind::Audio,
                    "microphone source "@ + configured@ + " was not found"@,
                )
            },
    {
        if !self.server_available {
            return Err(server_missing());
        }
        if text::same(configured, "default") || text::same(configured, self.mic.id.as_str()) {
            Ok(self.mic.clone())
        } else {
            let message = text::concat3("microphone source ", configured, " was not found");
            Err(AppError::audio(message.as_str()))
        }
    }

    pub fn resolve_output(&self, configured: &str) -> (r: Result<(AudioDevice, AudioDevice)>)
        ensures
            if !self.server_available {
                fails(r, ErrorKind::Audio, no_server())
            } else if Self::names(configured@, self.sink) {
                r matches Ok((s, m)) && s == self.sink && m == self.monitor
            } else {
                fails(r, ErrorKind::Audio, "output sink "@ + configured@ + " was not found"@)
            },
    {
        if !self.server_available {
            return Err(server_missing());
        }
        if text::same(configured, "default") || text::same(configured, self.sink.id.as_str()) {
            Ok((self.sink.clone(), self.monitor.clone()))
        } else {
            let message = text::concat3("output sink ", configured, " was not found");
            Err(AppError::audio(message.as_str()))
        }
    }

    pub fn server_identity(&self) -> (r: Result<String>)
        ensures
            if self.server_available {
                r matches Ok(name) && name@ == "FakeAudio"@
            } else {
                fails(r, ErrorKind::Audio, no_server())
            },
    {
        if self.server_available {
            Ok("FakeAudio".to_owned())
        } else {
            Err(server_missing())
        }
    }

    /// Begins to read from a device.
    pub fn begin_capture(&mut self, source: AudioSource, device_id: &str) -> (r: Result<()>)
        ensures
            if old(self).server_available {
                &&& r is Ok
                &&& match source {
                    AudioSource::Mic => *final(self) == (FakeAudioBackend {
                        last_mic_device: final(self).last_mic_device,
                        ..*old(self)
                    }) && text::text_of(final(self).last_mic_device) == Some(device_id@),
                    AudioSource::System => *final(self) == (FakeAudioBackend {
                        last_system_device: final(self).last_system_device,
                        ..*old(self)
                    }) && text::text_of(final(self).last_system_device) == Some(device_id@),
                }
            } else {
                fails(r, ErrorKind::Audio, no_server()) && *final(self) == *old(self)
            },
    {
        if !self.server_available {
            return Err(server_missing());
        }
        match source {
            AudioSource::Mic => {
                self.last_mic_device = Some(device_id.to_owned());
            },
            AudioSource::System => {
                self.last_system_device = Some(device_id.to_owned());
            },
        }
        Ok(())
    }

    pub open spec fn fails_source(self, source: AudioSource) -> bool {
        match source {
            AudioSource::Mic => self.fail_mic,
            AudioSource::System => self.fail_system,
        }
    }

    /// Whether another frame is read: not once capture is to end, nor once the server or
    /// the source is gone.
    pub fn before_frame(&self, source: AudioSource, device_id: &str, stopping: bool) -> (r: Result<
        bool,
    >)
        ensures
            if stopping {
                r matches Ok(more) && !more
            } else if !self.server_available {
                fails(r, ErrorKind::Audio, no_server())
            } else if self.fails_source(source) {
                fails(
                    r,
                    ErrorKind::Audio,
                    source.name() + " capture unavailable because source "@ + device_id@
                        + " failed"@,
                )
            } else {
                r matches Ok(more) && more
            },
    {
        if stopping {
            return Ok(false);
        }
        if !self.server_available {
            return Err(server_missing());
        }
        let failed = match source {
            AudioSource::Mic => self.fail_mic,
            AudioSource::System => self.fail_system,
        };
        if failed {
            let message = text::concat4(
                source.as_str(),
                " capture unavailable because source ",
                device_id,
                " failed",
            );
            return Err(AppError::audio(message.as_str()));
        }
        Ok(true)
    }

    /// Counts a frame that was handed on.
    pub fn frame_emitted(&mut self, source: AudioSource)
        ensures
            *final(self) == match source {
                AudioSource::Mic => (FakeAudioBackend {
                    mic_frames: next_count(old(self).mic_frames),
                    ..*old(self)
                }),
                AudioSource::System => (FakeAudioBackend {
                    system_frames: next_count(old(self).system_frames),
                    ..*old(self)
                }),
            },
    {
        match source {
            AudioSource::Mic => {
                self.mic_frames = one_more(self.mic_frames);
            },
            AudioSource::System => {
                self.system_frames = one_more(self.system_frames);
            },
        }
    }
}

/// The count after this one; the last is followed by 0.
pub open spec fn next_count(n: u64) -> u64 {
    if n == u64::MAX {
        0
    } else {
        (n + 1) as u64
    }
}

fn one_more(n: u64) -> (r: u64)
    ensures
        r == next_count(n),
{
    if n == u64::MAX {
        0
    } else {
        n + 1
    }
}

/// Each source fails by its own switch, and a device is found by its identifier or as the
/// default.
pub proof fn law_how_the_fake_answers(fake: FakeAudioBackend, wanted: Seq<char>, d: AudioDevice)
    ensures
        fake.fails_source(AudioSource::Mic) == fake.fail_mic,
        fake.fails_source(AudioSource::System) == fake.fail_system,
        FakeAudioBackend::names(wanted, d) <==> wanted == "default"@ || wanted == d.id@,
        forall|n: u64| n < u64::MAX ==> #[trigger] next_count(n) == n + 1,
{
}

} // verus!
