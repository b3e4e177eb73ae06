//! Capturing one source: from the device that is configured to turns that are stored.

use crate::audio::{AudioDevice, AudioSource, PcmFrame};
use crate::capture::chunker::{frame_of, Chunker, ChunkerState, CompletedChunk, Frame, Turn};
use crate::config::Config;
use crate::error::{shown, AppError, Result};
use crate::runtime::{AudioServerHealth, RuntimeStatus, SourceUiState, UiEvent};
use crate::text;
use vstd::prelude::*;

verus! {

/// The device that the settings name for a source.
pub open spec fn device_name(config: Config, source: AudioSource) -> Seq<char> {
    match source {
        AudioSource::Mic => config.audio.microphone@,
        AudioSource::System => config.audio.system_output@,
    }
}

pub fn configured_device(config: &Config, source: AudioSource) -> (r: String)
    ensures
        r@ == device_name(*config, source),
{
    match source {
        AudioSource::Mic => config.audio.microphone.clone(),
        AudioSource::System => config.audio.system_output.clone(),
    }
}

/// Whether the settings have a source captured.
pub fn source_enabled(config: &Config, source: AudioSource) -> (r: bool)
    ensures
        r == match source {
            AudioSource::Mic => config.audio.source == crate::config::CaptureSource::Mic
                || config.audio.source == crate::config::CaptureSource::Both,
            AudioSource::System => config.audio.source == crate::config::CaptureSource::System
                || config.audio.source == crate::config::CaptureSource::Both,
        },
{
    match source {
        AudioSource::Mic => config.audio.source.includes_mic(),
        AudioSource::System => config.audio.source.includes_system(),
    }
}

/// Whether a configured device stands for the default one.
pub open spec fn is_default(configured: Seq<char>) -> bool {
    configured.len() == 0 || configured == "default"@
}

pub fn follows_default(configured: &str) -> (r: bool)
    ensures
        r == is_default(configured@),
{
    configured.is_empty() || text::same(configured, "default")
}

/// A status in which a source has this state.
pub open spec fn with_source_state(
    status: RuntimeStatus,
    source: AudioSource,
    state: SourceUiState,
) -> RuntimeStatus {
    match source {
        AudioSource::Mic => RuntimeStatus { microphone_state: state, ..status },
        AudioSource::System => RuntimeStatus { system_state: state, ..status },
    }
}

fn set_source_state(status: &mut RuntimeStatus, source: AudioSource, state: SourceUiState)
    ensures
        *final(status) == with_source_state(*old(status), source, state),
{
    match source {
        AudioSource::Mic => {
            status.microphone_state = state;
        },
        AudioSource::System => {
            status.system_state = state;
        },
    }
}

/// A status in which the devices of a source are gone.
pub open spec fn without_device(status: RuntimeStatus, source: AudioSource) -> RuntimeStatus {
    match source {
        AudioSource::Mic => RuntimeStatus {
            microphone: None,
            microphone_state: SourceUiState::Unavailable,
            ..status
        },
        AudioSource::System => RuntimeStatus {
            output: None,
            monitor: None,
            system_state: SourceUiState::Unavailable,
            ..status
        },
    }
}

/// Shows that the devices of a source are gone.
pub fn mark_unavailable(status: &mut RuntimeStatus, source: AudioSource)
    ensures
        *final(status) == without_device(*old(status), source),
{
    match source {
        AudioSource::Mic => {
            status.microphone = None;
            status.microphone_state = SourceUiState::Unavailable;
        },
        AudioSource::System => {
            status.output = None;
            status.monitor = None;
            status.system_state = SourceUiState::Unavailable;
        },
    }
}

/// The devices that a source is captured from.
#[derive(Debug)]
pub enum Resolved {
    Microphone(AudioDevice),
    Output { sink: AudioDevice, monitor: AudioDevice },
}

impl Resolved {
    /// The device that audio is read from: that of system audio is the monitor.
    pub open spec fn device(self) -> AudioDevice {
        match self {
            Resolved::Microphone(mic) => mic,
            Resolved::Output { sink, monitor } => monitor,
        }
    }
}

/// A status in which these devices are captured from.
pub open spec fn with_device(status: RuntimeStatus, devices: Resolved) -> RuntimeStatus {
    match devices {
        Resolved::Microphone(mic) => RuntimeStatus {
            microphone: Some(mic),
            microphone_state: SourceUiState::Capturing,
            audio_server: AudioServerHealth::Available,
            ..status
        },
        Resolved::Output { sink, monitor } => RuntimeStatus {
            output: Some(sink),
            monitor: Some(monitor),
            system_state: SourceUiState::Capturing,
            audio_server: AudioServerHealth::Available,
            ..status
        },
    }
}

/// Shows the devices that are captured from. Returns the identifier of the one that audio
/// is read from.
fn mark_resolved(status: &mut RuntimeStatus, devices: Resolved) -> (r: String)
    ensures
        *final(status) == with_device(*old(status), devices),
        r == devices.device().id,
{
    match devices {
        Resolved::Microphone(mic) => {
            let id = mic.id.clone();
            status.microphone = Some(mic);
            status.microphone_state = SourceUiState::Capturing;
            status.audio_server = AudioServerHealth::Available;
            id
        },
        Resolved::Output { sink, monitor } => {
            let id = monitor.id.clone();
            status.output = Some(sink);
            status.monitor = Some(monitor);
            status.system_state = SourceUiState::Capturing;
            status.audio_server = AudioServerHealth::Available;
            id
        },
    }
}

/// What a source is doing.
#[derive(Debug)]
pub enum SourceStage {
    /// Before each attempt.
    Ready,
    /// The device is being looked up.
    Resolving { configured: String },
    /// Audio is read from a device.
    Capturing { device_id: String },
    /// The device could not be found; those who watch were told.
    Lost,
    /// A moment passes before the next attempt.
    Waiting,
    Over,
}

/// What happens to a source.
#[derive(Debug)]
pub enum SourceEvent {
    /// The source may begin; whether it is to be captured at all.
    Began { enabled: bool },
    /// An attempt may begin, with the device that is configured; whether capture is to end.
    Attempt { stopping: bool, configured: String },
    /// What came of looking the device up.
    Resolved(Result<Resolved>),
    /// Those who watch were told that the device is lost.
    Told,
    /// No more audio comes; what it ended with, and whether capture is to end.
    Ended { result: Result<()>, stopping: bool },
    /// The moment is over, or something happened to the devices.
    Waited,
}

/// What is done about an event of a source.
#[derive(Debug)]
pub enum SourceAction {
    /// Look up the device that is configured.
    Resolve(String),
    /// Read audio from a device; whether it is the default one, which may change.
    Capture { device_id: String, follow_default: bool },
    /// Tell those who watch that the devices of the source changed.
    TellDevice,
    /// Tell those who watch that the audio server changed.
    TellServer,
    Wait,
}

/// Whether an error is about the audio server.
pub open spec fn blames_server(e: AppError) -> bool {
    text::has_infix(text::lowered(shown(e@)), "server"@)
}

/// What is done about an event of a source: what it shows, what it is doing then and what
/// is to be done. An event that cannot come at a stage changes nothing.
pub open spec fn source_reaction(
    source: AudioSource,
    status: RuntimeStatus,
    stage: SourceStage,
    event: SourceEvent,
) -> (RuntimeStatus, SourceStage, Seq<SourceAction>) {
    match (stage, event) {
        (SourceStage::Ready, SourceEvent::Began { enabled }) => if enabled {
            (status, SourceStage::Ready, Seq::empty())
        } else {
            (
                with_source_state(status, source, SourceUiState::Idle),
                SourceStage::Over,
                Seq::empty(),
            )
        },
        (SourceStage::Ready, SourceEvent::Attempt { stopping, configured }) => if stopping {
            (status, SourceStage::Over, Seq::empty())
        } else {
            (
                status,
                SourceStage::Resolving { configured },
                seq![SourceAction::Resolve(configured)],
            )
        },
        (SourceStage::Resolving { configured }, SourceEvent::Resolved(Ok(devices))) => (
            with_device(status, devices),
            SourceStage::Capturing { device_id: devices.device().id },
            seq![
                SourceAction::TellDevice,
                SourceAction::Capture {
                    device_id: devices.device().id,
                    follow_default: is_default(configured@),
                },
            ],
        ),
        (SourceStage::Resolving { configured }, SourceEvent::Resolved(Err(e))) => (
            without_device(status, source),
            SourceStage::Lost,
            seq![SourceAction::TellDevice],
        ),
        (SourceStage::Lost, SourceEvent::Told) => (
            with_source_state(status, source, SourceUiState::Reconnecting),
            SourceStage::Waiting,
            seq![SourceAction::Wait],
        ),
        (SourceStage::Capturing { device_id }, SourceEvent::Ended { result, stopping }) =>
        if stopping {
            (status, SourceStage::Over, Seq::empty())
        } else {
            match result {
                Ok(_) => (status, SourceStage::Ready, Seq::empty()),
                Err(e) => if blames_server(e) {
                    (
                        RuntimeStatus { audio_server: AudioServerHealth::Unavailable, ..status },
                        SourceStage::Waiting,
                        seq![SourceAction::TellServer, SourceAction::TellDevice, SourceAction::Wait],
                    )
                } else {
                    (
                        status,
                        SourceStage::Waiting,
                        seq![SourceAction::TellDevice, SourceAction::Wait],
                    )
                },
            }
        },
        (SourceStage::Waiting, SourceEvent::Waited) => (status, SourceStage::Ready, Seq::empty()),
        _ => (status, stage, Seq::empty()),
    }
}

fn blames(e: &AppError) -> (r: bool)
    ensures
        r == blames_server(*e),
{
    let message = e.to_string();
    let message = text::lowercase(message.as_str());
    text::contains(message.as_str(), "server")
}

/// A source that is captured.
#[derive(Debug)]
pub struct SourceTask {
    pub source: AudioSource,
    pub stage: SourceStage,
}

impl SourceTask {
    pub fn new(source: AudioSource) -> (r: Self)
        ensures
            r == (SourceTask { source, stage: SourceStage::Ready }),
    {
        SourceTask { source, stage: SourceStage::Ready }
    }

    fn take_stage(&mut self) -> (r: SourceStage)
        ensures
            r == old(self).stage,
            *final(self) == (SourceTask { source: old(self).source, stage: SourceStage::Over }),
    {
        let mut r = SourceStage::Over;
        std::mem::swap(&mut r, &mut self.stage);
        r
    }

    fn capture_ended(
        &mut self,
        status: &mut RuntimeStatus,
        device_id: String,
        result: Result<()>,
        stopping: bool,
    ) -> (r: Vec<SourceAction>)
        ensures
            final(self).source == old(self).source,
            (*final(status), final(self).stage, r@) == source_reaction(
                old(self).source,
                *old(status),
                (SourceStage::Capturing { device_id }),
                (SourceEvent::Ended { result, stopping }),
            ),
    {
        let mut actions: Vec<SourceAction> = Vec::new();
        let ghost expected = source_reaction(
            self.source,
            *status,
            SourceStage::Capturing { device_id },
            SourceEvent::Ended { result, stopping },
        );
        if stopping {
            self.stage = SourceStage::Over;
        } else {
            match result {
                Ok(_) => {
                    self.stage = SourceStage::Ready;
                },
                Err(e) => {
                    if blames(&e) {
                        status.audio_server = AudioServerHealth::Unavailable;
                        actions.push(SourceAction::TellServer);
                    }
                    actions.push(SourceAction::TellDevice);
                    actions.push(SourceAction::Wait);
                    self.stage = SourceStage::Waiting;
                },
            }
        }
        assert(actions@ =~= expected.2);
        actions
    }

    fn device_looked_up(
        &mut self,
        status: &mut RuntimeStatus,
        configured: String,
        found: Result<Resolved>,
    ) -> (r: Vec<SourceAction>)
        ensures
            final(self).source == old(self).source,
            (*final(status), final(self).stage, r@) == source_reaction(
                old(self).source,
                *old(status),
                (SourceStage::Resolving { configured }),
                SourceEvent::Resolved(found),
            ),
    {
        let mut actions: Vec<SourceAction> = Vec::new();
        let ghost expected = source_reaction(
            self.source,
            *status,
            SourceStage::Resolving { configured },
            SourceEvent::Resolved(found),
        );
        match found {
            Ok(devices) => {
                let device_id = mark_resolved(status, devices);
                actions.push(SourceAction::TellDevice);
                actions.push(
                    SourceAction::Capture {
                        device_id: device_id.clone(),
                        follow_default: follows_default(configured.as_str()),
                    },
                );
                self.stage = SourceStage::Capturing { device_id };
            },
            Err(_) => {
                mark_unavailable(status, self.source);
                actions.push(SourceAction::TellDevice);
                self.stage = SourceStage::Lost;
            },
        }
        assert(actions@ =~= expected.2);
        actions
    }

    /// Takes in an event, shows what came of it and returns what is done about it.
    pub fn step(&mut self, status: &mut RuntimeStatus, event: SourceEvent) -> (r: Vec<
        SourceAction,
    >)
        ensures
            final(self).source == old(self).source,
            (*final(status), final(self).stage, r@) == source_reaction(
                old(self).source,
                *old(status),
                old(self).stage,
                event,
            ),
    {
        let ghost expected = source_reaction(self.source, *status, self.stage, event);
        let source = self.source;
        let mut actions: Vec<SourceAction> = Vec::new();
        match (self.take_stage(), event) {
            (SourceStage::Ready, SourceEvent::Began { enabled }) => {
                if enabled {
                    self.stage = SourceStage::Ready;
                } else {
                    set_source_state(status, source, SourceUiState::Idle);
                }
            },
            (SourceStage::Ready, SourceEvent::Attempt { stopping, configured }) => {
                if !stopping {
                    actions.push(SourceAction::Resolve(configured.clone()));
                    self.stage = SourceStage::Resolving { configured };
                }
            },
            (SourceStage::Resolving { configured }, SourceEvent::Resolved(found)) => {
                actions = self.device_looked_up(status, configured, found);
            },
            (SourceStage::Lost, SourceEvent::Told) => {
                set_source_state(status, source, SourceUiState::Reconnecting);
                actions.push(SourceAction::Wait);
                self.stage = SourceStage::Waiting;
            },
            (SourceStage::Capturing { device_id }, SourceEvent::Ended { result, stopping }) => {
                actions = self.capture_ended(status, device_id, result, stopping);
            },
            (SourceStage::Waiting, SourceEvent::Waited) => {
                self.stage = SourceStage::Ready;
            },
            (stage, _) => {
                self.stage = stage;
            },
        }
        assert(actions@ =~= expected.2);
        actions
    }
}

/// The message about the devices of a source.
pub fn device_event(source: AudioSource) -> (r: UiEvent)
    ensures
        r.event@ == "device_state_changed"@,
        r.session_id is None,
        r.message matches Some(m) && m@ == source.name(),
{
    UiEvent::new("device_state_changed").message(source.as_str())
}

/// The message about the audio server.
pub fn server_event() -> (r: UiEvent)
    ensures
        r.event@ == "audio_server_state_changed"@,
        r.session_id is None,
        r.message is None,
{
    UiEvent::new("audio_server_state_changed")
}

/// Whether another device was configured while audio is read.
pub fn device_switched(config: &Config, source: AudioSource, initial: &str) -> (r: bool)
    ensures
        r == (device_name(*config, source) != initial@),
{
    let now = configured_device(config, source);
    !text::same(now.as_str(), initial)
}

/// What one source goes through leaves what is shown of the other one as it is: a failure
/// of one does not stop the other.
pub proof fn law_sources_are_independent(
    source: AudioSource,
    status: RuntimeStatus,
    stage: SourceStage,
    event: SourceEvent,
)
    requires
        event matches SourceEvent::Resolved(Ok(devices)) ==> (devices is Microphone <==> source
            == AudioSource::Mic),
    ensures
        ({
            let next = source_reaction(source, status, stage, event).0;
            &&& source == AudioSource::Mic ==> next.system_state == status.system_state
                && next.output == status.output && next.monitor == status.monitor
            &&& source == AudioSource::System ==> next.microphone_state == status.microphone_state
                && next.microphone == status.microphone
            &&& next.session_id == status.session_id
            &&& next.capture_active == status.capture_active
            &&& next.capture_stop_reason == status.capture_stop_reason
        }),
{
}

/// A source that lost its device, or whose stream failed, is tried again: only the end of
/// capture, or a source that is not to be captured, ends it.
pub proof fn law_a_source_reconnects(
    source: AudioSource,
    status: RuntimeStatus,
    stage: SourceStage,
    event: SourceEvent,
)
    requires
        !(stage is Over),
        source_reaction(source, status, stage, event).1 is Over,
    ensures
        event == (SourceEvent::Began { enabled: false }) || (event matches SourceEvent::Attempt {
            stopping,
            configured,
        } && stopping) || (event matches SourceEvent::Ended { result, stopping } && stopping),
{
}

/// The state of the turns of a source after a frame, and the turn that is stored: while
/// capture is paused frames are not kept, and what was held when the pause began is
/// dropped.
pub open spec fn spooled(turns: ChunkerState, f: Frame, paused: bool) -> (
    ChunkerState,
    Option<Turn>,
) {
    if paused {
        (turns.dropped(), None)
    } else {
        turns.pushed(f)
    }
}

/// The state of the turns after capture has ended, and the turn that is stored.
pub open spec fn spooled_end(turns: ChunkerState, paused: bool) -> (ChunkerState, Option<Turn>) {
    if paused {
        (turns.dropped(), None)
    } else {
        (turns.after_turn(0), turns.turn(0))
    }
}

/// The turns that are stored of frames, each with whether capture was paused when it
/// came, and of the end of capture.
pub open spec fn stored_turns(
    turns: ChunkerState,
    frames: Seq<(Frame, bool)>,
    ends_paused: bool,
) -> Seq<Turn>
    decreases frames.len(),
{
    if frames.len() == 0 {
        turn_list(spooled_end(turns, ends_paused).1)
    } else {
        let (next, turn) = spooled(turns, frames[0].0, frames[0].1);
        turn_list(turn) + stored_turns(next, frames.drop_first(), ends_paused)
    }
}

pub open spec fn turn_list(turn: Option<Turn>) -> Seq<Turn> {
    match turn {
        Some(turn) => seq![turn],
        None => Seq::empty(),
    }
}

/// Whether this is the turn, or none.
pub open spec fn is_turn(r: Option<CompletedChunk>, turn: Option<Turn>) -> bool {
    match turn {
        Some(turn) => r matches Some(chunk) && chunk@ == turn,
        None => r is None,
    }
}

/// The turns of a source while it is captured, with its pauses.
pub struct Spool {
    chunker: Chunker,
}

impl View for Spool {
    type V = ChunkerState;

    closed spec fn view(&self) -> ChunkerState {
        self.chunker@
    }
}

impl Spool {
    pub closed spec fn wf(&self) -> bool {
        self.chunker.wf()
    }

    /// A spool whose first turn has this number, or 1 for 0.
    pub fn new(source: AudioSource, next_sequence: u64) -> (r: Self)
        ensures
            r.wf(),
            r@ == ChunkerState::empty(
                source,
                if next_sequence == 0 {
                    1
                } else {
                    next_sequence as int
                },
            ),
    {
        Spool { chunker: Chunker::starting_at(source, next_sequence) }
    }

    /// Whether a turn can be stored now.
    pub fn can_finish(&self) -> (r: bool)
        ensures
            r == (self@.next < u64::MAX),
    {
        self.chunker.can_number()
    }

    /// Whether there is room for a frame, or it is not kept.
    pub fn fits(&self, frame: &PcmFrame, paused: bool) -> (r: bool)
        requires
            self.wf(),
            frame.captured_at.wf(),
        ensures
            r == (paused || self@.has_room(frame_of(*frame))),
    {
        paused || self.chunker.fits(frame)
    }

    /// Takes in a frame and returns the turn that is stored, if any.
    pub fn frame(&mut self, frame: &PcmFrame, paused: bool) -> (r: Option<CompletedChunk>)
        requires
            old(self).wf(),
            paused || old(self)@.has_room(frame_of(*frame)),
        ensures
            final(self).wf(),
            final(self)@ == spooled(old(self)@, frame_of(*frame), paused).0,
            is_turn(r, spooled(old(self)@, frame_of(*frame), paused).1),
    {
        if paused {
            self.chunker.discard();
            return None;
        }
        let mut done = self.chunker.push(frame);
        done.pop()
    }

    /// Ends the running turn and returns it, where it is stored: a turn that was held
    /// when a pause began is not.
    pub fn finish(&mut self, paused: bool) -> (r: Option<CompletedChunk>)
        requires
            old(self).wf(),
            paused || old(self)@.next < u64::MAX,
        ensures
            final(self).wf(),
            final(self)@ == spooled_end(old(self)@, paused).0,
            is_turn(r, spooled_end(old(self)@, paused).1),
    {
        if paused {
            self.chunker.discard();
            return None;
        }
        self.chunker.flush()
    }
}

/// Whether two runs of frames differ at most in what came while capture was paused.
pub open spec fn same_unless_paused(a: Seq<(Frame, bool)>, b: Seq<(Frame, bool)>) -> bool {
    &&& a.len() == b.len()
    &&& forall|i: int|
        #![trigger a[i], b[i]]
        0 <= i < a.len() ==> a[i].1 == b[i].1 && (a[i].1 || a[i].0 == b[i].0)
}

/// Audio that comes while capture is paused has no part in anything: whatever it is, the
/// same turns are stored, so it cannot appear later.
pub proof fn law_paused_audio_has_no_part(
    turns: ChunkerState,
    a: Seq<(Frame, bool)>,
    b: Seq<(Frame, bool)>,
    ends_paused: bool,
)
    requires
        same_unless_paused(a, b),
    ensures
        stored_turns(turns, a, ends_paused) == stored_turns(turns, b, ends_paused),
    decreases a.len(),
{
    if a.len() > 0 {
        assert(a[0].1 == b[0].1 && (a[0].1 || a[0].0 == b[0].0));
        let (x, y) = (a.drop_first(), b.drop_first());
        assert forall|i: int| #![trigger x[i], y[i]] 0 <= i < x.len() implies x[i].1 == y[i].1 && (
        x[i].1 || x[i].0 == y[i].0) by {
            assert(x[i] == a[i + 1] && y[i] == b[i + 1]);
        }
        law_paused_audio_has_no_part(spooled(turns, a[0].0, a[0].1).0, x, y, ends_paused);
    }
}

/// Speech that was held when a pause began has no part in anything either: whatever two
/// spools held, from a pause on they store the same turns, and at the pause none.
pub proof fn law_a_pause_drops_what_was_held(
    was: ChunkerState,
    other: ChunkerState,
    frames: Seq<(Frame, bool)>,
    ends_paused: bool,
)
    requires
        was.source == other.source,
        was.next == other.next,
        frames.len() > 0 && frames[0].1 || frames.len() == 0 && ends_paused,
    ensures
        stored_turns(was, frames, ends_paused) == stored_turns(other, frames, ends_paused),
        frames.len() > 0 ==> spooled(was, frames[0].0, true) == (
            ChunkerState::empty(was.source, was.next),
            None::<Turn>,
        ),
        frames.len() == 0 ==> stored_turns(was, frames, ends_paused).len() == 0,
{
}

/// The microphone setting is for the microphone, the output setting for system audio; no
/// setting and `default` both stand for the default device.
pub proof fn law_each_source_has_its_device(config: Config, configured: Seq<char>)
    ensures
        device_name(config, AudioSource::Mic) == config.audio.microphone@,
        device_name(config, AudioSource::System) == config.audio.system_output@,
        is_default(configured) <==> configured.len() == 0 || configured == "default"@,
{
}

/// A source that has found its devices shows them and captures: the microphone from itself,
/// system audio from the monitor of the output.
pub proof fn law_a_found_device_is_captured_from(
    source: AudioSource,
    status: RuntimeStatus,
    configured: String,
    mic: AudioDevice,
    sink: AudioDevice,
    monitor: AudioDevice,
)
    ensures
        ({
            let stage = SourceStage::Resolving { configured };
            let (next, after, actions) = source_reaction(
                source,
                status,
                stage,
                SourceEvent::Resolved(Ok(Resolved::Microphone(mic))),
            );
            let follow_default = configured@.len() == 0 || configured@ == "default"@;
            &&& next == (RuntimeStatus {
                microphone: Some(mic),
                microphone_state: SourceUiState::Capturing,
                audio_server: AudioServerHealth::Available,
                ..status
            })
            &&& after == (SourceStage::Capturing { device_id: mic.id })
            &&& actions.contains(SourceAction::Capture { device_id: mic.id, follow_default })
        }),
        ({
            let stage = SourceStage::Resolving { configured };
            let (next, after, actions) = source_reaction(
                source,
                status,
                stage,
                SourceEvent::Resolved(Ok(Resolved::Output { sink, monitor })),
            );
            let follow_default = configured@.len() == 0 || configured@ == "default"@;
            &&& next == (RuntimeStatus {
                output: Some(sink),
                monitor: Some(monitor),
                system_state: SourceUiState::Capturing,
                audio_server: AudioServerHealth::Available,
                ..status
            })
            &&& after == (SourceStage::Capturing { device_id: monitor.id })
            &&& actions.contains(SourceAction::Capture { device_id: monitor.id, follow_default })
        }),
{
    let stage = SourceStage::Resolving { configured };
    let a = source_reaction(
        source,
        status,
        stage,
        SourceEvent::Resolved(Ok(Resolved::Microphone(mic))),
    ).2;
    let b = source_reaction(
        source,
        status,
        stage,
        SourceEvent::Resolved(Ok(Resolved::Output { sink, monitor })),
    ).2;
    assert(a.contains(a[1]));
    assert(b.contains(b[1]));
}

/// A source whose device is not there is shown as unavailable, then as reconnecting, and is
/// tried again after a wait; while it is tried nothing of it is captured.
pub proof fn law_a_missing_device_is_shown_and_waited_for(
    source: AudioSource,
    status: RuntimeStatus,
    configured: String,
    error: AppError,
)
    ensures
        ({
            let (lost, stage, told) = source_reaction(
                source,
                status,
                SourceStage::Resolving { configured },
                SourceEvent::Resolved(Err(error)),
            );
            let (shown, waiting, actions) = source_reaction(source, lost, stage, SourceEvent::Told);
            let (again, ready, none) = source_reaction(source, shown, waiting, SourceEvent::Waited);
            &&& told == seq![SourceAction::TellDevice]
            &&& actions == seq![SourceAction::Wait]
            &&& ready == SourceStage::Ready
            &&& none.len() == 0
            &&& again == shown
            &&& source == AudioSource::Mic ==> lost == (RuntimeStatus {
                microphone: None,
                microphone_state: SourceUiState::Unavailable,
                ..status
            }) && shown == (RuntimeStatus {
                microphone_state: SourceUiState::Reconnecting,
                ..lost
            })
            &&& source == AudioSource::System ==> lost == (RuntimeStatus {
                output: None,
                monitor: None,
                system_state: SourceUiState::Unavailable,
                ..status
            }) && shown == (RuntimeStatus { system_state: SourceUiState::Reconnecting, ..lost })
        }),
{
}

/// A source that is not to be captured is shown as idle and over at once; one that is tried
/// looks for the device that the settings name; a stream that broke is tried again after a
/// wait, and one that blames the audio server has that shown.
pub proof fn law_the_course_of_a_source(
    source: AudioSource,
    status: RuntimeStatus,
    configured: String,
    device_id: String,
    error: AppError,
)
    ensures
        source_reaction(
            source,
            status,
            SourceStage::Ready,
            SourceEvent::Began { enabled: false },
        ) == (
            (match source {
                AudioSource::Mic => RuntimeStatus {
                    microphone_state: SourceUiState::Idle,
                    ..status
                },
                AudioSource::System => RuntimeStatus {
                    system_state: SourceUiState::Idle,
                    ..status
                },
            }),
            SourceStage::Over,
            Seq::<SourceAction>::empty(),
        ),
        source_reaction(
            source,
            status,
            SourceStage::Ready,
            SourceEvent::Attempt { stopping: false, configured },
        ) == (
            status,
            SourceStage::Resolving { configured },
            seq![SourceAction::Resolve(configured)],
        ),
        ({
            let (next, stage, actions) = source_reaction(
                source,
                status,
                SourceStage::Capturing { device_id },
                SourceEvent::Ended { result: Err(error), stopping: false },
            );
            &&& stage == SourceStage::Waiting
            &&& actions.last() == SourceAction::Wait
            &&& text::has_infix(text::lowered(shown(error@)), "server"@) ==> next == (
            RuntimeStatus { audio_server: AudioServerHealth::Unavailable, ..status })
                && actions.contains(SourceAction::TellServer)
            &&& !text::has_infix(text::lowered(shown(error@)), "server"@) ==> next == status
        }),
        source_reaction(
            source,
            status,
            SourceStage::Capturing { device_id },
            SourceEvent::Ended { result: Err(error), stopping: true },
        ).1 == SourceStage::Over,
{
    let actions = source_reaction(
        source,
        status,
        SourceStage::Capturing { device_id },
        SourceEvent::Ended { result: Err(error), stopping: false },
    ).2;
    assert(actions.contains(actions[0]));
}

/// While capture is not paused every frame is taken in, and at the end of capture the turn
/// that runs is given out; while it is paused nothing is.
pub proof fn law_audio_is_kept_unless_paused(turns: ChunkerState, f: Frame)
    ensures
        spooled(turns, f, false) == turns.pushed(f),
        spooled_end(turns, false) == (turns.after_turn(0), turns.turn(0)),
        spooled(turns, f, true) == (ChunkerState::empty(turns.source, turns.next), None::<Turn>),
        spooled_end(turns, true) == (
            ChunkerState::empty(turns.source, turns.next),
            None::<Turn>,
        ),
{
}

} // verus!
