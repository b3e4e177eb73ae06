//! What is decided about a PulseAudio server: its devices, its streams and its connection.

use crate::audio::convert::PcmFormat;
use crate::audio::{AudioDevice, AudioEvent, AudioSource, DeviceRole};
use crate::capture::source_task::{follows_default, is_default};
use crate::error::{fails, shown, AppError, ErrorKind, Result};
use crate::text;
use vstd::prelude::*;

verus! {

/// The name under which the service connects.
pub const APP_NAME: &'static str = "voxtype-meeting-service";

pub const CONNECT_TIMEOUT_SECS: u64 = 5;

pub const COMMAND_TIMEOUT_SECS: u64 = 10;

/// The sample formats of PulseAudio.
#[derive(Clone, Copy, Debug, PartialEq, Eq, Structural)]
pub enum SampleFormat {
    U8,
    ALaw,
    ULaw,
    S16Le,
    S16Be,
    F32Le,
    F32Be,
    S32Le,
    S32Be,
    S24Le,
    S24Be,
    S24In32Le,
    S24In32Be,
    Invalid,
}

/// The format that samples are converted from, where there is one.
pub open spec fn pcm_format(format: SampleFormat) -> Option<PcmFormat> {
    match format {
        SampleFormat::U8 => Some(PcmFormat::U8),
        SampleFormat::S16Le => Some(PcmFormat::S16Le),
        SampleFormat::S16Be => Some(PcmFormat::S16Be),
        SampleFormat::S24Le => Some(PcmFormat::S24Le),
        SampleFormat::S24In32Le => Some(PcmFormat::S24_32Le),
        SampleFormat::S32Le => Some(PcmFormat::S32Le),
        SampleFormat::F32Le => Some(PcmFormat::F32Le),
        _ => None,
    }
}

pub fn map_format(format: SampleFormat) -> (r: Option<PcmFormat>)
    ensures
        r == pcm_format(format),
{
    match format {
        SampleFormat::U8 => Some(PcmFormat::U8),
        SampleFormat::S16Le => Some(PcmFormat::S16Le),
        SampleFormat::S16Be => Some(PcmFormat::S16Be),
        SampleFormat::S24Le => Some(PcmFormat::S24Le),
        SampleFormat::S24In32Le => Some(PcmFormat::S24_32Le),
        SampleFormat::S32Le => Some(PcmFormat::S32Le),
        SampleFormat::F32Le => Some(PcmFormat::F32Le),
        _ => None,
    }
}

/// What the server says of a source or a sink.
#[derive(Debug)]
pub struct DeviceInfo {
    pub name: Option<String>,
    pub description: Option<String>,
    /// For a source: whether it is the monitor of a sink.
    pub is_monitor: bool,
}

/// A device with this role, where it has a name. One without a description is described
/// by its name.
pub open spec fn named_device(info: DeviceInfo, role: DeviceRole) -> Option<AudioDevice> {
    match info.name {
        None => None,
        Some(name) => Some(
            AudioDevice {
                id: name,
                description: match info.description {
                    Some(description) => description,
                    None => name,
                },
                role,
            },
        ),
    }
}

fn device_with_role(info: &DeviceInfo, role: DeviceRole) -> (r: Option<AudioDevice>)
    ensures
        r == named_device(*info, role),
{
    match &info.name {
        None => None,
        Some(name) => {
            let description = match &info.description {
                Some(description) => description.clone(),
                None => name.clone(),
            };
            Some(AudioDevice { id: name.clone(), description, role })
        },
    }
}

/// The role of a source.
pub open spec fn source_role(info: DeviceInfo) -> DeviceRole {
    if info.is_monitor {
        DeviceRole::MonitorSource
    } else {
        DeviceRole::Microphone
    }
}

pub fn source_device(info: &DeviceInfo) -> (r: Option<AudioDevice>)
    ensures
        r == named_device(*info, source_role(*info)),
{
    let role = if info.is_monitor {
        DeviceRole::MonitorSource
    } else {
        DeviceRole::Microphone
    };
    device_with_role(info, role)
}

pub fn sink_device(info: &DeviceInfo) -> (r: Option<AudioDevice>)
    ensures
        r == named_device(*info, DeviceRole::OutputSink),
{
    device_with_role(info, DeviceRole::OutputSink)
}

/// A source, where it is a monitor or where it is none, as is asked for.
pub fn listed_source(info: &DeviceInfo, monitors_only: bool) -> (r: Option<AudioDevice>)
    ensures
        r == if info.is_monitor == monitors_only {
            named_device(*info, source_role(*info))
        } else {
            None
        },
{
    if info.is_monitor == monitors_only {
        source_device(info)
    } else {
        None
    }
}

/// What comes while devices are listed.
#[derive(Debug)]
pub enum Collect {
    Item(AudioDevice),
    End,
    Error,
    /// Nothing came; whether the time is over.
    Nothing { expired: bool },
    /// Nothing will come.
    Closed,
}

/// What comes of it.
#[derive(Debug)]
pub enum Collected {
    More,
    Done,
    Failed(AppError),
}

/// Why a list of devices is given up.
pub open spec fn collect_failure(event: Collect) -> Option<Seq<char>> {
    match event {
        Collect::Error => Some("PulseAudio introspection failed while listing devices"@),
        Collect::Nothing { expired: true } => Some("timed out waiting for PulseAudio device list"@),
        Collect::Closed => Some("PulseAudio introspection channel closed unexpectedly"@),
        _ => None,
    }
}

/// Takes in what comes while devices are listed.
pub fn collect(items: &mut Vec<AudioDevice>, event: Collect) -> (r: Collected)
    ensures
        match event {
            Collect::Item(device) => final(items)@ == old(items)@.push(device) && r is More,
            Collect::End => final(items)@ == old(items)@ && r is Done,
            _ => final(items)@ == old(items)@ && match collect_failure(event) {
                Some(message) => r matches Collected::Failed(e) && e@ == (
                    ErrorKind::Audio,
                    message,
                ),
                None => r is More,
            },
        },
{
    match event {
        Collect::Item(device) => {
            items.push(device);
            Collected::More
        },
        Collect::End => Collected::Done,
        Collect::Error => Collected::Failed(
            AppError::audio("PulseAudio introspection failed while listing devices"),
        ),
        Collect::Nothing { expired } => {
            if expired {
                Collected::Failed(AppError::audio("timed out waiting for PulseAudio device list"))
            } else {
                Collected::More
            }
        },
        Collect::Closed => Collected::Failed(
            AppError::audio("PulseAudio introspection channel closed unexpectedly"),
        ),
    }
}

/// The first device that a search by name found.
pub open spec fn first_found(
    devices: Seq<AudioDevice>,
    kind: Seq<char>,
    wanted: Seq<char>,
) -> std::result::Result<AudioDevice, Seq<char>> {
    if devices.len() > 0 {
        Ok(devices[0])
    } else {
        Err(kind + " "@ + wanted + " was not found"@)
    }
}

fn first_of(devices: Vec<AudioDevice>, kind: &str, wanted: &str) -> (r: Result<AudioDevice>)
    ensures
        match first_found(devices@, kind@, wanted@) {
            Ok(device) => r matches Ok(d) && d == device,
            Err(message) => fails(r, ErrorKind::Audio, message),
        },
{
    if devices.len() > 0 {
        Ok(devices[0].clone())
    } else {
        let message = text::concat4(kind, " ", wanted, " was not found");
        Err(AppError::audio(message.as_str()))
    }
}

/// The source that was looked for by its name.
pub fn source_by_name(devices: Vec<AudioDevice>, wanted: &str) -> (r: Result<AudioDevice>)
    ensures
        match first_found(devices@, "microphone source"@, wanted@) {
            Ok(device) => r matches Ok(d) && d == device,
            Err(message) => fails(r, ErrorKind::Audio, message),
        },
{
    first_of(devices, "microphone source", wanted)
}

/// The sink that was looked for by its name.
pub fn sink_by_name(devices: Vec<AudioDevice>, wanted: &str) -> (r: Result<AudioDevice>)
    ensures
        match first_found(devices@, "output sink"@, wanted@) {
            Ok(device) => r matches Ok(d) && d == device,
            Err(message) => fails(r, ErrorKind::Audio, message),
        },
{
    first_of(devices, "output sink", wanted)
}

/// The name of the microphone to look for: the one that is configured, or the default
/// one of the server.
pub fn microphone_name(configured: &str, default_source: &Option<String>) -> (r: Result<String>)
    ensures
        if is_default(configured@) {
            match *default_source {
                Some(name) => r matches Ok(n) && n@ == name@,
                None => fails(
                    r,
                    ErrorKind::Audio,
                    "PulseAudio has no default microphone (default source is unset)"@,
                ),
            }
        } else {
            r matches Ok(n) && n@ == configured@
        },
{
    if follows_default(configured) {
        match default_source {
            Some(name) => Ok(name.clone()),
            None => Err(
                AppError::audio("PulseAudio has no default microphone (default source is unset)"),
            ),
        }
    } else {
        Ok(configured.to_owned())
    }
}

/// The name of the output to look for: the one that is configured, or the default one of
/// the server.
pub fn output_name(configured: &str, default_sink: &Option<String>) -> (r: Result<String>)
    ensures
        if is_default(configured@) {
            match *default_sink {
                Some(name) => r matches Ok(n) && n@ == name@,
                None => fails(r, ErrorKind::Audio, "PulseAudio has no default output sink"@),
            }
        } else {
            r matches Ok(n) && n@ == configured@
        },
{
    if follows_default(configured) {
        match default_sink {
            Some(name) => Ok(name.clone()),
            None => Err(AppError::audio("PulseAudio has no default output sink")),
        }
    } else {
        Ok(configured.to_owned())
    }
}

/// The name of the monitor of a sink, as the server says it.
pub fn monitor_name(monitor: &Option<String>, sink: &Option<String>) -> (r: Result<String>)
    ensures
        match *monitor {
            Some(name) => r matches Ok(n) && n@ == name@,
            None => fails(
                r,
                ErrorKind::Audio,
                "output sink "@ + (match *sink {
                    Some(name) => name@,
                    None => "unknown"@,
                }) + " has no monitor source"@,
            ),
        },
{
    match monitor {
        Some(name) => Ok(name.clone()),
        None => {
            let name = match sink {
                Some(name) => name.as_str(),
                None => "unknown",
            };
            let message = text::concat3("output sink ", name, " has no monitor source");
            Err(AppError::audio(message.as_str()))
        },
    }
}

/// A source that is used as the monitor of a sink.
pub fn as_monitor(device: AudioDevice) -> (r: AudioDevice)
    ensures
        r == (AudioDevice { role: DeviceRole::MonitorSource, ..device }),
{
    AudioDevice { id: device.id, description: device.description, role: DeviceRole::MonitorSource }
}

/// What the server is asked once.
#[derive(Debug)]
pub enum Question {
    Defaults,
    Identity,
    /// The monitor of a sink.
    Monitor(String),
}

/// Why a question is given up: the time is over, the server refuses it, or there is
/// nobody to answer it.
#[derive(Clone, Copy, Debug, PartialEq, Eq, Structural)]
pub enum NoAnswer {
    Expired,
    Refused,
    Closed,
}

pub open spec fn unanswered(question: Question, why: NoAnswer) -> Seq<char> {
    match (question, why) {
        (Question::Defaults, NoAnswer::Expired) => "timed out waiting for PulseAudio server info"@,
        (Question::Defaults, _) => "PulseAudio server info channel closed unexpectedly"@,
        (Question::Identity, NoAnswer::Expired) =>
            "timed out waiting for PulseAudio server identity"@,
        (Question::Identity, _) => "PulseAudio server identity channel closed unexpectedly"@,
        (Question::Monitor(sink), NoAnswer::Expired) =>
            "timed out looking up monitor source for sink "@ + sink@,
        (Question::Monitor(sink), NoAnswer::Refused) =>
            "failed to look up monitor source for sink "@ + sink@,
        (Question::Monitor(sink), NoAnswer::Closed) =>
            "monitor lookup channel closed for sink "@ + sink@,
    }
}

/// The error of a question that is given up.
pub fn no_answer(question: &Question, why: NoAnswer) -> (e: AppError)
    ensures
        e@ == (ErrorKind::Audio, unanswered(*question, why)),
{
    match question {
        Question::Defaults => {
            if why == NoAnswer::Expired {
                AppError::audio("timed out waiting for PulseAudio server info")
            } else {
                AppError::audio("PulseAudio server info channel closed unexpectedly")
            }
        },
        Question::Identity => {
            if why == NoAnswer::Expired {
                AppError::audio("timed out waiting for PulseAudio server identity")
            } else {
                AppError::audio("PulseAudio server identity channel closed unexpectedly")
            }
        },
        Question::Monitor(sink) => {
            let head = match why {
                NoAnswer::Expired => "timed out looking up monitor source for sink ",
                NoAnswer::Refused => "failed to look up monitor source for sink ",
                NoAnswer::Closed => "monitor lookup channel closed for sink ",
            };
            let message = text::concat2(head, sink.as_str());
            AppError::audio(message.as_str())
        },
    }
}

/// What the server calls itself.
pub open spec fn identity_of(name: Option<Seq<char>>, version: Option<Seq<char>>) -> Seq<char> {
    let name = match name {
        Some(name) => name,
        None => "unknown"@,
    };
    match version {
        Some(version) if version.len() > 0 => name + " "@ + version,
        _ => name,
    }
}

pub fn server_identity(name: &Option<String>, version: &Option<String>) -> (r: String)
    ensures
        r@ == identity_of(text::text_of(*name), text::text_of(*version)),
{
    let name = match name {
        Some(name) => name.as_str(),
        None => "unknown",
    };
    match version {
        Some(version) => {
            if version.as_str().is_empty() {
                name.to_owned()
            } else {
                text::concat3(name, " ", version.as_str())
            }
        },
        None => name.to_owned(),
    }
}

/// The devices that were the default ones when the server was last asked.
#[derive(Debug)]
pub struct Defaults {
    pub microphone: Option<AudioDevice>,
    pub sink: Option<AudioDevice>,
    pub monitor: Option<AudioDevice>,
}

/// What is told of the microphone: it changed, it went away, or it came back, which is
/// told only where there was an output before.
pub open spec fn microphone_news(was: Defaults, now: Defaults, event: AudioEvent) -> bool {
    match (was.microphone, now.microphone) {
        (Some(old_mic), Some(new_mic)) => old_mic.id@ != new_mic.id@ && event
            == (AudioEvent::MicrophoneChanged { device: new_mic }),
        (Some(old_mic), None) => event matches AudioEvent::MicrophoneUnavailable {
            device_id,
            reason,
        } && device_id@ == old_mic.id@ && reason@ == "microphone source "@ + old_mic.id@
            + " disappeared"@,
        (None, Some(new_mic)) => was.sink is Some && event == (AudioEvent::MicrophoneAvailable {
            device: new_mic,
        }),
        (None, None) => false,
    }
}

/// Whether the microphone is told of.
pub open spec fn microphone_is_news(was: Defaults, now: Defaults) -> bool {
    match (was.microphone, now.microphone) {
        (Some(old_mic), Some(new_mic)) => old_mic.id@ != new_mic.id@,
        (Some(_), None) => true,
        (None, Some(_)) => was.sink is Some,
        (None, None) => false,
    }
}

/// What is told of the output: it or its monitor changed, it went away, or it came back,
/// which is told only where there was a microphone before.
pub open spec fn output_news(was: Defaults, now: Defaults, event: AudioEvent) -> bool {
    match (was.sink, now.sink) {
        (Some(old_sink), Some(new_sink)) => output_is_news(was, now) && event
            == (AudioEvent::OutputChanged { device: new_sink, monitor: now.monitor->0 }),
        (Some(old_sink), None) => event matches AudioEvent::OutputUnavailable {
            device_id,
            reason,
        } && device_id@ == old_sink.id@ && reason@ == "output sink "@ + old_sink.id@
            + " disappeared"@,
        (None, Some(new_sink)) => output_is_news(was, now) && event
            == (AudioEvent::OutputAvailable { device: new_sink, monitor: now.monitor->0 }),
        (None, None) => false,
    }
}

/// Whether the output is told of.
pub open spec fn output_is_news(was: Defaults, now: Defaults) -> bool {
    match (was.sink, now.sink) {
        (Some(old_sink), Some(new_sink)) => now.monitor is Some && (old_sink.id@ != new_sink.id@
            || (was.monitor is Some && was.monitor->0.id@ != now.monitor->0.id@)),
        (Some(_), None) => true,
        (None, Some(_)) => now.monitor is Some && was.microphone is Some,
        (None, None) => false,
    }
}

/// What is told when the default devices are these: of the microphone first, then of the
/// output.
pub open spec fn is_news(was: Defaults, now: Defaults, told: Seq<AudioEvent>) -> bool {
    let mic: int = if microphone_is_news(was, now) {
        1
    } else {
        0
    };
    let out: int = if output_is_news(was, now) {
        1
    } else {
        0
    };
    &&& told.len() == mic + out
    &&& mic == 1 ==> microphone_news(was, now, told[0])
    &&& out == 1 ==> output_news(was, now, told[mic])
}

fn microphone_event(was: &Defaults, now: &Defaults) -> (r: Option<AudioEvent>)
    ensures
        match r {
            Some(event) => microphone_is_news(*was, *now) && microphone_news(*was, *now, event),
            None => !microphone_is_news(*was, *now),
        },
{
    match (&was.microphone, &now.microphone) {
        (Some(old_mic), Some(new_mic)) => {
            if text::same(old_mic.id.as_str(), new_mic.id.as_str()) {
                None
            } else {
                Some(AudioEvent::MicrophoneChanged { device: new_mic.clone() })
            }
        },
        (Some(old_mic), None) => Some(
            AudioEvent::MicrophoneUnavailable {
                device_id: old_mic.id.clone(),
                reason: text::concat3("microphone source ", old_mic.id.as_str(), " disappeared"),
            },
        ),
        (None, Some(new_mic)) => {
            if was.sink.is_some() {
                Some(AudioEvent::MicrophoneAvailable { device: new_mic.clone() })
            } else {
                None
            }
        },
        (None, None) => None,
    }
}

fn output_event(was: &Defaults, now: &Defaults) -> (r: Option<AudioEvent>)
    ensures
        match r {
            Some(event) => output_is_news(*was, *now) && output_news(*was, *now, event),
            None => !output_is_news(*was, *now),
        },
{
    match (&was.sink, &now.sink) {
        (Some(old_sink), Some(new_sink)) => match &now.monitor {
            Some(new_monitor) => {
                let moved = match &was.monitor {
                    Some(old_monitor) => !text::same(
                        old_monitor.id.as_str(),
                        new_monitor.id.as_str(),
                    ),
                    None => false,
                };
                if moved || !text::same(old_sink.id.as_str(), new_sink.id.as_str()) {
                    Some(
                        AudioEvent::OutputChanged {
                            device: new_sink.clone(),
                            monitor: new_monitor.clone(),
                        },
                    )
                } else {
                    None
                }
            },
            None => None,
        },
        (Some(old_sink), None) => Some(
            AudioEvent::OutputUnavailable {
                device_id: old_sink.id.clone(),
                reason: text::concat3("output sink ", old_sink.id.as_str(), " disappeared"),
            },
        ),
        (None, Some(new_sink)) => match &now.monitor {
            Some(new_monitor) => {
                if was.microphone.is_some() {
                    Some(
                        AudioEvent::OutputAvailable {
                            device: new_sink.clone(),
                            monitor: new_monitor.clone(),
                        },
                    )
                } else {
                    None
                }
            },
            None => None,
        },
        (None, None) => None,
    }
}

impl Defaults {
    /// Before the server was asked.
    pub fn unknown() -> (r: Self)
        ensures
            r == (Defaults { microphone: None, sink: None, monitor: None }),
    {
        Defaults { microphone: None, sink: None, monitor: None }
    }

    /// Takes in the default devices of now and returns what is told of them.
    pub fn refresh_devices(&mut self, now: Defaults) -> (r: Vec<AudioEvent>)
        ensures
            *final(self) == now,
            is_news(*old(self), now, r@),
    {
        let mut told: Vec<AudioEvent> = Vec::new();
        if let Some(event) = microphone_event(self, &now) {
            told.push(event);
        }
        if let Some(event) = output_event(self, &now) {
            told.push(event);
        }
        *self = now;
        told
    }
}

/// Default devices that stay as they are are not told of.
pub proof fn law_unchanged_defaults_are_no_news(defaults: Defaults, told: Seq<AudioEvent>)
    requires
        is_news(defaults, defaults, told),
    ensures
        told.len() == 0,
{
}

/// A microphone that goes away, and an output that goes away, are told of.
pub proof fn law_lost_devices_are_told(was: Defaults, now: Defaults, told: Seq<AudioEvent>)
    requires
        is_news(was, now, told),
    ensures
        was.microphone is Some && now.microphone is None ==> told.len() > 0 && told[0]
            is MicrophoneUnavailable,
        was.sink is Some && now.sink is None ==> told.len() > 0 && told.last() is OutputUnavailable,
{
}

/// The word for a source in messages about its stream.
pub open spec fn stream_word(source: AudioSource) -> Seq<char> {
    match source {
        AudioSource::Mic => "microphone"@,
        AudioSource::System => "system audio"@,
    }
}

fn stream_kind(source: AudioSource) -> (r: &'static str)
    ensures
        r@ == stream_word(source),
{
    match source {
        AudioSource::Mic => "microphone",
        AudioSource::System => "system audio",
    }
}

/// The name of the stream of a source.
pub fn stream_name(source: AudioSource) -> (r: String)
    ensures
        r@ == "voxtype-meeting-service-"@ + source.name(),
{
    text::concat2("voxtype-meeting-service-", source.as_str())
}

/// The device that a stream reads: the one that is named, or the default one.
pub fn capture_target(device: Option<String>, default_device: Result<AudioDevice>) -> (r: Result<
    String,
>)
    ensures
        match device {
            Some(name) => r matches Ok(n) && n == name,
            None => match default_device {
                Ok(d) => r matches Ok(n) && n == d.id,
                Err(e) => r matches Err(f) && f == e,
            },
        },
{
    match device {
        Some(name) => Ok(name),
        None => match default_device {
            Ok(d) => Ok(d.id),
            Err(e) => Err(e),
        },
    }
}

/// What a stream fails on while it is set up.
#[derive(Debug)]
pub enum StreamFault {
    /// It could not be made.
    NotMade,
    /// It could not be connected; why.
    NotConnected(String),
    /// It did not become ready.
    NotReady,
    Expired,
}

pub open spec fn stream_fault(source: AudioSource, name: Seq<char>, fault: StreamFault) -> Seq<
    char,
> {
    match fault {
        StreamFault::NotMade => "could not create PulseAudio record stream for "@ + source.name(),
        StreamFault::NotConnected(reason) => stream_word(source)
            + " capture unavailable because source "@ + name + " could not be connected: "@
            + reason@,
        StreamFault::NotReady => stream_word(source) + " capture unavailable because source "@
            + name + " failed to enter the ready state"@,
        StreamFault::Expired => "timed out connecting "@ + stream_word(source)
            + " capture to source "@ + name,
    }
}

/// The error of a stream that could not be set up.
pub fn stream_error(source: AudioSource, name: &str, fault: &StreamFault) -> (e: AppError)
    ensures
        e@ == (ErrorKind::Audio, stream_fault(source, name@, *fault)),
{
    let word = stream_kind(source);
    let message = match fault {
        StreamFault::NotMade => text::concat2(
            "could not create PulseAudio record stream for ",
            source.as_str(),
        ),
        StreamFault::NotConnected(reason) => text::concat5(
            word,
            " capture unavailable because source ",
            name,
            " could not be connected: ",
            reason.as_str(),
        ),
        StreamFault::NotReady => text::concat4(
            word,
            " capture unavailable because source ",
            name,
            " failed to enter the ready state",
        ),
        StreamFault::Expired => text::concat4(
            "timed out connecting ",
            word,
            " capture to source ",
            name,
        ),
    };
    AppError::audio(message.as_str())
}

/// How far a stream, or the connection to the server, is.
#[derive(Clone, Copy, Debug, PartialEq, Eq, Structural)]
pub enum Progress {
    Pending,
    Ready,
    Broken,
}

/// What is done about it.
#[derive(Debug)]
pub enum SetupStep {
    Wait,
    Go,
    GiveUp(AppError),
}

/// What is done about a stream that is being set up: it is waited for until the time is
/// over.
pub fn start_capture_step(
    source: AudioSource,
    name: &str,
    progress: Progress,
    expired: bool,
) -> (r: SetupStep)
    ensures
        match progress {
            Progress::Ready => r is Go,
            Progress::Broken => r matches SetupStep::GiveUp(e) && e@ == (
                ErrorKind::Audio,
                stream_fault(source, name@, StreamFault::NotReady),
            ),
            Progress::Pending => if expired {
                r matches SetupStep::GiveUp(e) && e@ == (
                    ErrorKind::Audio,
                    stream_fault(source, name@, StreamFault::Expired),
                )
            } else {
                r is Wait
            },
        },
{
    match progress {
        Progress::Ready => SetupStep::Go,
        Progress::Broken => SetupStep::GiveUp(stream_error(source, name, &StreamFault::NotReady)),
        Progress::Pending => {
            if expired {
                SetupStep::GiveUp(stream_error(source, name, &StreamFault::Expired))
            } else {
                SetupStep::Wait
            }
        },
    }
}

/// What is told of a stream that breaks while it is read.
pub fn stream_broken(source: AudioSource, device_id: &str) -> (r: AudioEvent)
    ensures
        match source {
            AudioSource::Mic => r matches AudioEvent::MicrophoneUnavailable { device_id: id, reason }
                && id@ == device_id@ && reason@ == "microphone source "@ + device_id@ + " failed"@,
            AudioSource::System => r matches AudioEvent::OutputUnavailable { device_id: id, reason }
                && id@ == device_id@ && reason@
                == "system audio capture unavailable because monitor source "@ + device_id@
                + " disappeared"@,
        },
{
    match source {
        AudioSource::Mic => AudioEvent::MicrophoneUnavailable {
            device_id: device_id.to_owned(),
            reason: text::concat3("microphone source ", device_id, " failed"),
        },
        AudioSource::System => AudioEvent::OutputUnavailable {
            device_id: device_id.to_owned(),
            reason: text::concat3(
                "system audio capture unavailable because monitor source ",
                device_id,
                " disappeared",
            ),
        },
    }
}

/// A stream that breaks ends the capture that is bound to its device.
pub proof fn law_a_broken_stream_ends_its_capture(
    source: AudioSource,
    device_id: Seq<char>,
    follow_default: bool,
    event: AudioEvent,
)
    requires
        match source {
            AudioSource::Mic => event matches AudioEvent::MicrophoneUnavailable {
                device_id: id,
                reason,
            } && id@ == device_id,
            AudioSource::System => event matches AudioEvent::OutputUnavailable {
                device_id: id,
                reason,
            } && id@ == device_id,
        },
    ensures
        crate::audio::stops_capture(source, device_id, follow_default, event),
{
}

/// The sources that are read, each with its device.
#[derive(Debug)]
pub struct Streams {
    pub microphone: Option<String>,
    pub system: Option<String>,
}

impl Streams {
    pub open spec fn device(self, source: AudioSource) -> Option<String> {
        match source {
            AudioSource::Mic => self.microphone,
            AudioSource::System => self.system,
        }
    }

    pub fn none() -> (r: Self)
        ensures
            r == (Streams { microphone: None, system: None }),
    {
        Streams { microphone: None, system: None }
    }

    /// Whether a source is read: its stream ends before another one of it begins.
    pub fn is_read(&self, source: AudioSource) -> (r: bool)
        ensures
            r == (self.device(source) is Some),
    {
        match source {
            AudioSource::Mic => self.microphone.is_some(),
            AudioSource::System => self.system.is_some(),
        }
    }

    pub fn begin(&mut self, source: AudioSource, device: String)
        ensures
            *final(self) == match source {
                AudioSource::Mic => (Streams { microphone: Some(device), ..*old(self) }),
                AudioSource::System => (Streams { system: Some(device), ..*old(self) }),
            },
    {
        match source {
            AudioSource::Mic => {
                self.microphone = Some(device);
            },
            AudioSource::System => {
                self.system = Some(device);
            },
        }
    }

    pub fn stop_capture(&mut self, source: AudioSource)
        ensures
            *final(self) == match source {
                AudioSource::Mic => (Streams { microphone: None, ..*old(self) }),
                AudioSource::System => (Streams { system: None, ..*old(self) }),
            },
    {
        match source {
            AudioSource::Mic => {
                self.microphone = None;
            },
            AudioSource::System => {
                self.system = None;
            },
        }
    }
}

/// How samples lie in a buffer.
#[derive(Clone, Copy, Debug, PartialEq, Eq, Structural)]
pub struct SampleSpec {
    pub format: SampleFormat,
    pub channels: u8,
    pub rate: u32,
}

/// What a stream has to read.
#[derive(Clone, Copy, Debug, PartialEq, Eq, Structural)]
pub enum Peeked {
    /// Bytes, and how samples lie in them, where that is known.
    Data(Option<SampleSpec>),
    Hole,
    Empty,
    Failed,
}

/// What is done about it.
#[derive(Clone, Copy, Debug, PartialEq, Eq, Structural)]
pub enum DrainStep {
    /// Drop what was read and read on.
    Skip,
    /// Convert what was read and read on.
    Convert { format: PcmFormat, channels: u16, rate: u32 },
    Stop,
}

/// What is done about what a stream has to read: it is read until it is empty, and what
/// cannot be converted is dropped.
pub fn drain_step(peeked: Peeked) -> (r: DrainStep)
    ensures
        r == match peeked {
            Peeked::Data(None) | Peeked::Hole => DrainStep::Skip,
            Peeked::Data(Some(spec)) => match pcm_format(spec.format) {
                Some(format) => (DrainStep::Convert {
                    format,
                    channels: spec.channels as u16,
                    rate: spec.rate,
                }),
                None => DrainStep::Skip,
            },
            Peeked::Empty | Peeked::Failed => DrainStep::Stop,
        },
{
    match peeked {
        Peeked::Data(Some(spec)) => match map_format(spec.format) {
            Some(format) => DrainStep::Convert {
                format,
                channels: spec.channels as u16,
                rate: spec.rate,
            },
            None => DrainStep::Skip,
        },
        Peeked::Data(None) | Peeked::Hole => DrainStep::Skip,
        Peeked::Empty | Peeked::Failed => DrainStep::Stop,
    }
}

/// What the connection to the server fails on while it is set up.
#[derive(Debug)]
pub enum ConnectFault {
    NoThread(String),
    NoProperties,
    NoMainloop,
    NoContext,
    NotConnected(String),
    NotStarted(String),
    Broken,
    Expired,
}

pub open spec fn connect_fault(fault: ConnectFault) -> Seq<char> {
    match fault {
        ConnectFault::NoThread(reason) => "could not start PulseAudio thread: "@ + reason@,
        ConnectFault::NoProperties => "could not create PulseAudio property list"@,
        ConnectFault::NoMainloop => "could not create PulseAudio threaded mainloop"@,
        ConnectFault::NoContext => "could not create PulseAudio context"@,
        ConnectFault::NotConnected(reason) => "PulseAudio connect failed: "@ + reason@
            + ". Is pipewire-pulse or PulseAudio running?"@,
        ConnectFault::NotStarted(reason) => "could not start PulseAudio mainloop: "@ + reason@,
        ConnectFault::Broken => "PulseAudio connection failed or terminated before becoming ready"@,
        ConnectFault::Expired =>
            "timed out after 5s waiting for PulseAudio/pipewire-pulse to become ready"@,
    }
}

/// The error of a connection that could not be set up.
pub fn connect_error(fault: &ConnectFault) -> (e: AppError)
    ensures
        e@ == (ErrorKind::Audio, connect_fault(*fault)),
{
    match fault {
        ConnectFault::NoThread(reason) => {
            let message = text::concat2("could not start PulseAudio thread: ", reason.as_str());
            AppError::audio(message.as_str())
        },
        ConnectFault::NoProperties => AppError::audio("could not create PulseAudio property list"),
        ConnectFault::NoMainloop => AppError::audio(
            "could not create PulseAudio threaded mainloop",
        ),
        ConnectFault::NoContext => AppError::audio("could not create PulseAudio context"),
        ConnectFault::NotConnected(reason) => {
            let message = text::concat3(
                "PulseAudio connect failed: ",
                reason.as_str(),
                ". Is pipewire-pulse or PulseAudio running?",
            );
            AppError::audio(message.as_str())
        },
        ConnectFault::NotStarted(reason) => {
            let message = text::concat2("could not start PulseAudio mainloop: ", reason.as_str());
            AppError::audio(message.as_str())
        },
        ConnectFault::Broken => AppError::audio(
            "PulseAudio connection failed or terminated before becoming ready",
        ),
        ConnectFault::Expired => AppError::audio(
            "timed out after 5s waiting for PulseAudio/pipewire-pulse to become ready",
        ),
    }
}

/// What is done about a connection that is being set up: it is waited for until the time
/// is over.
pub fn connect_step(progress: Progress, expired: bool) -> (r: SetupStep)
    ensures
        match progress {
            Progress::Ready => r is Go,
            Progress::Broken => r matches SetupStep::GiveUp(e) && e@ == (
                ErrorKind::Audio,
                connect_fault(ConnectFault::Broken),
            ),
            Progress::Pending => if expired {
                r matches SetupStep::GiveUp(e) && e@ == (
                    ErrorKind::Audio,
                    connect_fault(ConnectFault::Expired),
                )
            } else {
                r is Wait
            },
        },
{
    match progress {
        Progress::Ready => SetupStep::Go,
        Progress::Broken => SetupStep::GiveUp(connect_error(&ConnectFault::Broken)),
        Progress::Pending => {
            if expired {
                SetupStep::GiveUp(connect_error(&ConnectFault::Expired))
            } else {
                SetupStep::Wait
            }
        },
    }
}

/// Why a command to the thread that talks to the server has no answer.
#[derive(Clone, Copy, Debug, PartialEq, Eq, Structural)]
pub enum CommandFault {
    NoThread,
    Expired,
    Dropped,
}

/// The error of a command that has no answer.
pub fn command_error(fault: CommandFault) -> (e: AppError)
    ensures
        e@ == (
            ErrorKind::Audio,
            match fault {
                CommandFault::NoThread => "PulseAudio thread is not running"@,
                CommandFault::Expired => "timed out waiting for a PulseAudio introspection result"@,
                CommandFault::Dropped => "PulseAudio thread disconnected while waiting for a result"@,
            },
        ),
{
    AppError::audio(
        match fault {
            CommandFault::NoThread => "PulseAudio thread is not running",
            CommandFault::Expired => "timed out waiting for a PulseAudio introspection result",
            CommandFault::Dropped => "PulseAudio thread disconnected while waiting for a result",
        },
    )
}

/// What the thread that talks to the server is asked for.
#[derive(Clone, Copy, Debug, PartialEq, Eq, Structural)]
pub enum CommandKind {
    /// Something that the server has to answer.
    Question,
    StartCapture,
    StopCapture,
    Shutdown,
}

/// What a command is answered while there is no server: to stop is done already.
pub fn reply_server_down(kind: CommandKind) -> (r: Option<Result<()>>)
    ensures
        match kind {
            CommandKind::Question | CommandKind::StartCapture => r matches Some(answer) && fails(
                answer,
                ErrorKind::Audio,
                "PulseAudio/pipewire-pulse is unavailable; retrying connection"@,
            ),
            CommandKind::StopCapture => r matches Some(answer) && answer is Ok,
            CommandKind::Shutdown => r is None,
        },
{
    match kind {
        CommandKind::Question | CommandKind::StartCapture => Some(
            Err(AppError::audio("PulseAudio/pipewire-pulse is unavailable; retrying connection")),
        ),
        CommandKind::StopCapture => Some(Ok(())),
        CommandKind::Shutdown => None,
    }
}

/// What the thread that talks to the server is doing.
#[derive(Clone, Copy, Debug, PartialEq, Eq, Structural)]
pub enum ThreadStage {
    /// The connection is being set up.
    Connecting,
    Serving,
    /// There is no server; a moment passes before the next attempt.
    Waiting,
    Over,
}

/// The thread that talks to the server.
#[derive(Clone, Copy, Debug, PartialEq, Eq, Structural)]
pub struct PulseThread {
    pub stage: ThreadStage,
    /// Whether whoever waits for the first connection knows what came of it.
    pub announced: bool,
}

/// What happens to the thread.
#[derive(Debug)]
pub enum ThreadEvent {
    /// What came of setting up the connection.
    Connected(Result<()>),
    /// A command came; whether the connection is ready.
    Command { kind: CommandKind, ready: bool },
    /// No command came for a while; whether the connection broke, whether it is ready, and
    /// whether the devices changed.
    Quiet { broken: bool, ready: bool, changed: bool },
    /// No command will come.
    Abandoned,
    /// The moment is over.
    Waited,
}

/// What the thread does about an event.
#[derive(Debug)]
pub enum ThreadAction {
    /// Say that the first connection stands.
    AnnounceReady,
    /// Say that the first connection failed.
    AnnounceFailed(AppError),
    TellAvailable,
    TellUnavailable,
    Handle,
    /// Answer that there is no server.
    ReplyDown,
    Refresh,
    TearDown,
}

/// Whether the first connection that failed is announced with this error.
pub open spec fn announces_failure(actions: Seq<ThreadAction>, e: AppError) -> bool {
    &&& actions.len() == 1
    &&& actions[0] matches ThreadAction::AnnounceFailed(f) && f@ == (ErrorKind::Audio, shown(e@))
}

/// What the thread does about an event other than a first connection that fails. An event
/// that cannot come at a stage changes nothing.
pub open spec fn thread_reaction(thread: PulseThread, event: ThreadEvent) -> (
    PulseThread,
    Seq<ThreadAction>,
) {
    match (thread.stage, event) {
        (ThreadStage::Connecting, ThreadEvent::Connected(Ok(_))) => (
            PulseThread { stage: ThreadStage::Serving, announced: true },
            if thread.announced {
                seq![ThreadAction::TellAvailable]
            } else {
                seq![ThreadAction::AnnounceReady]
            },
        ),
        (ThreadStage::Connecting, ThreadEvent::Connected(Err(_))) => (
            PulseThread { stage: ThreadStage::Waiting, ..thread },
            seq![ThreadAction::TellUnavailable],
        ),
        (ThreadStage::Serving, ThreadEvent::Command { kind, ready }) => if kind
            == CommandKind::Shutdown {
            (PulseThread { stage: ThreadStage::Over, ..thread }, seq![ThreadAction::TearDown])
        } else if ready {
            (thread, seq![ThreadAction::Handle])
        } else {
            (
                PulseThread { stage: ThreadStage::Waiting, ..thread },
                seq![ThreadAction::TearDown, ThreadAction::TellUnavailable],
            )
        },
        (ThreadStage::Serving, ThreadEvent::Quiet { broken, ready, changed }) => if broken
            || !ready {
            (
                PulseThread { stage: ThreadStage::Waiting, ..thread },
                seq![ThreadAction::TearDown, ThreadAction::TellUnavailable],
            )
        } else if changed {
            (thread, seq![ThreadAction::Refresh])
        } else {
            (thread, Seq::empty())
        },
        (ThreadStage::Serving, ThreadEvent::Abandoned) => (
            PulseThread { stage: ThreadStage::Over, ..thread },
            seq![ThreadAction::TearDown],
        ),
        (ThreadStage::Waiting, ThreadEvent::Command { kind, ready }) => if kind
            == CommandKind::Shutdown {
            (PulseThread { stage: ThreadStage::Over, ..thread }, Seq::empty())
        } else {
            (thread, seq![ThreadAction::ReplyDown])
        },
        (ThreadStage::Waiting, ThreadEvent::Abandoned) => (
            PulseThread { stage: ThreadStage::Over, ..thread },
            Seq::empty(),
        ),
        (ThreadStage::Waiting, ThreadEvent::Waited) => (
            PulseThread { stage: ThreadStage::Connecting, ..thread },
            Seq::empty(),
        ),
        _ => (thread, Seq::empty()),
    }
}

impl PulseThread {
    pub fn new() -> (r: Self)
        ensures
            r == (PulseThread { stage: ThreadStage::Connecting, announced: false }),
    {
        PulseThread { stage: ThreadStage::Connecting, announced: false }
    }

    fn while_serving(&mut self, event: ThreadEvent) -> (r: Vec<ThreadAction>)
        requires
            old(self).stage == ThreadStage::Serving,
        ensures
            (*final(self), r@) == thread_reaction(*old(self), event),
    {
        let mut actions: Vec<ThreadAction> = Vec::new();
        match event {
            ThreadEvent::Command { kind, ready } => {
                if kind == CommandKind::Shutdown {
                    actions.push(ThreadAction::TearDown);
                    self.stage = ThreadStage::Over;
                } else if ready {
                    actions.push(ThreadAction::Handle);
                } else {
                    actions.push(ThreadAction::TearDown);
                    actions.push(ThreadAction::TellUnavailable);
                    self.stage = ThreadStage::Waiting;
                }
            },
            ThreadEvent::Quiet { broken, ready, changed } => {
                if broken || !ready {
                    actions.push(ThreadAction::TearDown);
                    actions.push(ThreadAction::TellUnavailable);
                    self.stage = ThreadStage::Waiting;
                } else if changed {
                    actions.push(ThreadAction::Refresh);
                }
            },
            ThreadEvent::Abandoned => {
                actions.push(ThreadAction::TearDown);
                self.stage = ThreadStage::Over;
            },
            _ => {},
        }
        assert(actions@ =~= thread_reaction(*old(self), event).1);
        actions
    }

    fn while_waiting(&mut self, event: ThreadEvent) -> (r: Vec<ThreadAction>)
        requires
            old(self).stage == ThreadStage::Waiting,
        ensures
            (*final(self), r@) == thread_reaction(*old(self), event),
    {
        let mut actions: Vec<ThreadAction> = Vec::new();
        match event {
            ThreadEvent::Command { kind, ready: _ } => {
                if kind == CommandKind::Shutdown {
                    self.stage = ThreadStage::Over;
                } else {
                    actions.push(ThreadAction::ReplyDown);
                }
            },
            ThreadEvent::Abandoned => {
                self.stage = ThreadStage::Over;
            },
            ThreadEvent::Waited => {
                self.stage = ThreadStage::Connecting;
            },
            _ => {},
        }
        assert(actions@ =~= thread_reaction(*old(self), event).1);
        actions
    }

    /// Takes in an event and returns what is done about it. Where the first connection
    /// fails the thread ends; later ones are tried again.
    pub fn step(&mut self, event: ThreadEvent) -> (r: Vec<ThreadAction>)
        ensures
            match (old(self).stage, event) {
                (ThreadStage::Connecting, ThreadEvent::Connected(Err(e))) if !old(
                    self,
                ).announced => *final(self) == (PulseThread {
                    stage: ThreadStage::Over,
                    announced: false,
                }) && announces_failure(r@, e),
                _ => (*final(self), r@) == thread_reaction(*old(self), event),
            },
    {
        match self.stage {
            ThreadStage::Serving => return self.while_serving(event),
            ThreadStage::Waiting => return self.while_waiting(event),
            ThreadStage::Over => return Vec::new(),
            ThreadStage::Connecting => {},
        }
        let mut actions: Vec<ThreadAction> = Vec::new();
        let ghost expected = thread_reaction(*self, event).1;
        match event {
            ThreadEvent::Connected(Ok(_)) => {
                if self.announced {
                    actions.push(ThreadAction::TellAvailable);
                } else {
                    actions.push(ThreadAction::AnnounceReady);
                    self.announced = true;
                }
                self.stage = ThreadStage::Serving;
                assert(actions@ =~= expected);
            },
            ThreadEvent::Connected(Err(e)) => {
                if self.announced {
                    actions.push(ThreadAction::TellUnavailable);
                    self.stage = ThreadStage::Waiting;
                    assert(actions@ =~= expected);
                } else {
                    let message = e.to_string();
                    actions.push(ThreadAction::AnnounceFailed(AppError::audio(message.as_str())));
                    self.stage = ThreadStage::Over;
                }
            },
            _ => {
                assert(actions@ =~= expected);
            },
        }
        actions
    }
}

/// What is told when the connection to the server is lost.
pub fn server_lost() -> (r: AudioEvent)
    ensures
        r matches AudioEvent::AudioServerUnavailable { reason } && reason@
            == "PulseAudio/pipewire-pulse connection was lost"@,
{
    AudioEvent::AudioServerUnavailable {
        reason: "PulseAudio/pipewire-pulse connection was lost".to_owned(),
    }
}

/// Once a connection stood, the thread ends only when it is told to or nobody is left to
/// command it: a server that goes away is waited for.
pub proof fn law_the_server_is_waited_for(thread: PulseThread, event: ThreadEvent)
    requires
        thread.announced,
        thread.stage != ThreadStage::Over,
        thread_reaction(thread, event).0.stage == ThreadStage::Over,
    ensures
        event is Abandoned || (event matches ThreadEvent::Command { kind, ready } && kind
            == CommandKind::Shutdown),
{
}

/// Whenever a connection that stood is given up, it is torn down and told of before the
/// next attempt.
pub proof fn law_a_lost_server_is_told(thread: PulseThread, event: ThreadEvent)
    requires
        thread.stage == ThreadStage::Serving,
        thread_reaction(thread, event).0.stage == ThreadStage::Waiting,
    ensures
        thread_reaction(thread, event).1 == seq![
            ThreadAction::TearDown,
            ThreadAction::TellUnavailable,
        ],
{
}

/// A device is known by its name, described by its description or else by its name, and none
/// without a name is one. A source that plays back an output is a monitor, any other a
/// microphone.
pub proof fn law_how_devices_are_known(info: DeviceInfo, role: DeviceRole)
    ensures
        info.name is None ==> named_device(info, role) is None,
        info.name matches Some(name) ==> (named_device(info, role) matches Some(d) && d.id == name
            && d.role == role && match info.description {
            Some(description) => d.description == description,
            None => d.description == name,
        }),
        info.is_monitor ==> source_role(info) == DeviceRole::MonitorSource,
        !info.is_monitor ==> source_role(info) == DeviceRole::Microphone,
{
}

/// Which formats can be converted, each as itself.
pub proof fn law_which_formats_can_be_converted()
    ensures
        pcm_format(SampleFormat::U8) == Some(PcmFormat::U8),
        pcm_format(SampleFormat::S16Le) == Some(PcmFormat::S16Le),
        pcm_format(SampleFormat::S16Be) == Some(PcmFormat::S16Be),
        pcm_format(SampleFormat::S24Le) == Some(PcmFormat::S24Le),
        pcm_format(SampleFormat::S24In32Le) == Some(PcmFormat::S24_32Le),
        pcm_format(SampleFormat::S32Le) == Some(PcmFormat::S32Le),
        pcm_format(SampleFormat::F32Le) == Some(PcmFormat::F32Le),
{
}

/// A default device that changes is told with the new device, one that goes is told as gone,
/// and what stays the same is not told.
pub proof fn law_changed_devices_are_told(was: Defaults, now: Defaults, told: Seq<AudioEvent>)
    requires
        is_news(was, now, told),
    ensures
        (was.microphone matches Some(a) && now.microphone matches Some(b) && a.id@ != b.id@)
            ==> told.len() > 0 && told[0] == (AudioEvent::MicrophoneChanged {
            device: now.microphone->0,
        }),
        (was.microphone matches Some(a) && now.microphone is None) ==> told.len() > 0 && (
        told[0] matches AudioEvent::MicrophoneUnavailable { device_id, reason } && device_id@
            == was.microphone->0.id@),
        (was.sink matches Some(a) && now.sink matches Some(b) && a.id@ != b.id@
            && now.monitor is Some) ==> told.len() > 0 && told.last() == (
        AudioEvent::OutputChanged { device: now.sink->0, monitor: now.monitor->0 }),
        (was.sink matches Some(a) && now.sink is None) ==> told.len() > 0 && (
        told.last() matches AudioEvent::OutputUnavailable { device_id, reason } && device_id@
            == was.sink->0.id@),
{
}

/// How the thread that talks to the server goes on: a connection is announced the first time
/// and told later on; requests are handled while it holds and answered as down while it does
/// not; after a wait it is tried again.
pub proof fn law_the_course_of_the_connection(thread: PulseThread, kind: CommandKind, ready: bool)
    requires
        kind != CommandKind::Shutdown,
    ensures
        thread.stage == ThreadStage::Connecting ==> thread_reaction(
            thread,
            ThreadEvent::Connected(Ok(())),
        ) == (
            PulseThread { stage: ThreadStage::Serving, announced: true },
            if thread.announced {
                seq![ThreadAction::TellAvailable]
            } else {
                seq![ThreadAction::AnnounceReady]
            },
        ),
        thread.stage == ThreadStage::Serving ==> thread_reaction(
            thread,
            ThreadEvent::Command { kind, ready: true },
        ) == (thread, seq![ThreadAction::Handle]),
        thread.stage == ThreadStage::Serving ==> thread_reaction(
            thread,
            ThreadEvent::Quiet { broken: false, ready: true, changed: true },
        ) == (thread, seq![ThreadAction::Refresh]),
        thread.stage == ThreadStage::Waiting ==> thread_reaction(
            thread,
            ThreadEvent::Command { kind, ready },
        ) == (thread, seq![ThreadAction::ReplyDown]),
        thread.stage == ThreadStage::Waiting ==> thread_reaction(thread, ThreadEvent::Waited).0
            == (PulseThread { stage: ThreadStage::Connecting, ..thread }),
{
}

/// The first device that was found is taken, and where none was, that is said.
pub proof fn law_the_first_device_is_taken(
    devices: Seq<AudioDevice>,
    kind: Seq<char>,
    wanted: Seq<char>,
)
    ensures
        devices.len() > 0 ==> first_found(devices, kind, wanted) == Ok::<AudioDevice, Seq<char>>(
            devices[0],
        ),
        devices.len() == 0 ==> first_found(devices, kind, wanted) == Err::<AudioDevice, Seq<char>>(
            kind + " "@ + wanted + " was not found"@,
        ),
{
}

/// A server goes by its name, with its version behind it.
pub proof fn law_how_a_server_is_named(name: Seq<char>, version: Seq<char>)
    requires
        version.len() > 0,
    ensures
        identity_of(Some(name), Some(version)) == name + " "@ + version,
        identity_of(Some(name), None) == name,
        identity_of(None, Some(version)) == "unknown"@ + " "@ + version,
        identity_of(None, None) == "unknown"@,
{
}

/// A device that comes while the other is known is told; at the start nothing is.
pub proof fn law_found_devices_are_told(was: Defaults, now: Defaults, told: Seq<AudioEvent>)
    requires
        is_news(was, now, told),
    ensures
        (was.microphone is None && was.sink is Some && now.microphone is Some) ==> told.len() > 0
            && told[0] == (AudioEvent::MicrophoneAvailable { device: now.microphone->0 }),
        (was.sink is None && was.microphone is Some && now.sink is Some && now.monitor is Some)
            ==> told.len() > 0 && told.last() == (AudioEvent::OutputAvailable {
            device: now.sink->0,
            monitor: now.monitor->0,
        }),
        (was.sink is Some && now.sink is Some && now.monitor is Some && was.monitor is Some
            && was.monitor->0.id@ != now.monitor->0.id@) ==> told.len() > 0 && told.last() == (
        AudioEvent::OutputChanged { device: now.sink->0, monitor: now.monitor->0 }),
        (was.microphone is None && was.sink is None) ==> told.len() == 0,
        (was.microphone matches Some(a) && now.microphone matches Some(b) && was.sink matches Some(
            c,
        ) && now.sink matches Some(d) && was.monitor == now.monitor && a.id@ == b.id@ && c.id@
            == d.id@) ==> told.len() == 0,
{
}

/// A connection that fails before any was made is told as a fault of the audio.
pub proof fn law_a_failed_connection_is_told(actions: Seq<ThreadAction>, e: AppError)
    requires
        announces_failure(actions, e),
    ensures
        actions.len() == 1,
        actions[0] matches ThreadAction::AnnounceFailed(f) ==> f@ == (
            ErrorKind::Audio,
            shown(e@),
        ),
        actions[0] is AnnounceFailed,
{
}

/// What is said of a stream that cannot be had.
pub proof fn law_what_is_said_of_a_stream(source: AudioSource, name: Seq<char>, reason: String)
    ensures
        stream_word(AudioSource::Mic) == "microphone"@,
        stream_word(AudioSource::System) == "system audio"@,
        stream_fault(source, name, StreamFault::NotConnected(reason)) == stream_word(source)
            + " capture unavailable because source "@ + name + " could not be connected: "@
            + reason@,
        stream_fault(source, name, StreamFault::NotReady) == stream_word(source)
            + " capture unavailable because source "@ + name
            + " failed to enter the ready state"@,
        stream_fault(source, name, StreamFault::Expired) == "timed out connecting "@ + stream_word(
            source,
        ) + " capture to source "@ + name,
{
}

} // verus!
