//! Recording: turning frames into turns and running a session.

use crate::audio::{AudioDevice, AudioSource};
use crate::config::{Config, ProviderKind};
use crate::disk::{capture_allowed, disk_stop_error, disk_stop_message, enough_space};
use crate::error::{AppError, ErrorKind, Result};
use crate::paths::{join, joined_path};
use crate::runtime::{AudioServerHealth, RuntimeStatus, SourceUiState};
use crate::storage::sessions::{get_session, set_session_state, with_state};
use crate::storage::types::{SessionRecord, SessionState};
use crate::storage::{find_session, Store, Tables};
use crate::text;
use vstd::prelude::*;

pub mod chunker;
pub mod source_task;

verus! {

/// How many frames wait to be stored before new ones are dropped.
pub const FRAME_CHANNEL_BOUND: usize = 256;

/// The directory of a session that holds the audio of a source.
pub open spec fn source_dir_of(session_dir: Seq<char>, source: AudioSource) -> Seq<char> {
    joined_path(joined_path(session_dir, "audio"@), source.name())
}

pub fn source_dir(session_dir: &str, source: AudioSource) -> (r: String)
    ensures
        r@ == source_dir_of(session_dir@, source),
{
    let audio = join(session_dir, "audio");
    join(audio.as_str(), source.audio_subdir())
}

/// The step that a session is at.
#[derive(Clone, Copy, Debug, PartialEq, Eq, Structural)]
pub enum SessionStep {
    MakeDirs,
    /// Mark the audio as kept.
    MarkRetained,
    InsertSession,
    ChooseModel,
    InsertRun,
    WriteSnapshot,
    /// Show the session as running and tell whoever asked for it.
    Show,
    /// Capture audio until the session or the service is told to end.
    Capture,
    /// Wait until all captured audio is stored.
    AwaitSources,
    Finalize,
    /// Show that no session runs.
    Clear,
    ResetJobs,
    AwaitWorker,
    ResetJobsAgain,
    Done,
    Failed,
}

/// The step after one, by whether it succeeded.
pub open spec fn step_after(
    step: SessionStep,
    ok: bool,
    retain_audio: bool,
    own_worker: bool,
) -> SessionStep {
    if !ok {
        // What is waited for may end in any way.
        match step {
            SessionStep::Capture => SessionStep::AwaitSources,
            SessionStep::AwaitSources => SessionStep::Finalize,
            SessionStep::AwaitWorker => SessionStep::ResetJobsAgain,
            SessionStep::Done => SessionStep::Done,
            _ => SessionStep::Failed,
        }
    } else {
        match step {
            SessionStep::MakeDirs => if retain_audio {
                SessionStep::MarkRetained
            } else {
                SessionStep::InsertSession
            },
            SessionStep::MarkRetained => SessionStep::InsertSession,
            SessionStep::InsertSession => SessionStep::ChooseModel,
            SessionStep::ChooseModel => SessionStep::InsertRun,
            SessionStep::InsertRun => SessionStep::WriteSnapshot,
            SessionStep::WriteSnapshot => SessionStep::Show,
            SessionStep::Show => SessionStep::Capture,
            SessionStep::Capture => SessionStep::AwaitSources,
            SessionStep::AwaitSources => SessionStep::Finalize,
            SessionStep::Finalize => SessionStep::Clear,
            SessionStep::Clear => if own_worker {
                SessionStep::ResetJobs
            } else {
                SessionStep::Done
            },
            SessionStep::ResetJobs => SessionStep::AwaitWorker,
            SessionStep::AwaitWorker => SessionStep::ResetJobsAgain,
            SessionStep::ResetJobsAgain => SessionStep::Done,
            SessionStep::Done => SessionStep::Done,
            SessionStep::Failed => SessionStep::Failed,
        }
    }
}

impl SessionStep {
    pub fn next(self, ok: bool, retain_audio: bool, own_worker: bool) -> (r: SessionStep)
        ensures
            r == step_after(self, ok, retain_audio, own_worker),
    {
        match self {
            SessionStep::Capture => return SessionStep::AwaitSources,
            SessionStep::AwaitSources => return SessionStep::Finalize,
            SessionStep::AwaitWorker => return SessionStep::ResetJobsAgain,
            SessionStep::Done => return SessionStep::Done,
            _ => {},
        }
        if !ok {
            return SessionStep::Failed;
        }
        match self {
            SessionStep::MakeDirs => {
                if retain_audio {
                    SessionStep::MarkRetained
                } else {
                    SessionStep::InsertSession
                }
            },
            SessionStep::MarkRetained => SessionStep::InsertSession,
            SessionStep::InsertSession => SessionStep::ChooseModel,
            SessionStep::ChooseModel => SessionStep::InsertRun,
            SessionStep::InsertRun => SessionStep::WriteSnapshot,
            SessionStep::WriteSnapshot => SessionStep::Show,
            SessionStep::Show => SessionStep::Capture,
            SessionStep::Finalize => SessionStep::Clear,
            SessionStep::Clear => {
                if own_worker {
                    SessionStep::ResetJobs
                } else {
                    SessionStep::Done
                }
            },
            SessionStep::ResetJobs => SessionStep::AwaitWorker,
            SessionStep::ResetJobsAgain => SessionStep::Done,
            other => other,
        }
    }
}

/// Whether the step at `i` is followed by the one that comes after it.
pub open spec fn goes_on(
    steps: Seq<SessionStep>,
    ok: Seq<bool>,
    retain_audio: bool,
    own_worker: bool,
    i: int,
) -> bool {
    steps[i + 1] == step_after(steps[i], ok[i], retain_audio, own_worker)
}

/// The steps that a session takes one after the other.
pub open spec fn is_run(
    steps: Seq<SessionStep>,
    ok: Seq<bool>,
    retain_audio: bool,
    own_worker: bool,
) -> bool {
    &&& steps.len() == ok.len() + 1
    &&& steps[0] == SessionStep::MakeDirs
    &&& forall|i: int|
        0 <= i < ok.len() ==> #[trigger] goes_on(steps, ok, retain_audio, own_worker, i)
}

/// A session is shown as running only once its rows and its snapshot are stored.
pub proof fn law_shown_sessions_are_stored(
    steps: Seq<SessionStep>,
    ok: Seq<bool>,
    retain_audio: bool,
    own_worker: bool,
    i: int,
)
    requires
        is_run(steps, ok, retain_audio, own_worker),
        0 <= i < steps.len(),
        steps[i] == SessionStep::Show,
    ensures
        i >= 5,
        steps[i - 1] == SessionStep::WriteSnapshot && ok[i - 1],
        steps[i - 2] == SessionStep::InsertRun && ok[i - 2],
        steps[i - 3] == SessionStep::ChooseModel && ok[i - 3],
        steps[i - 4] == SessionStep::InsertSession && ok[i - 4],
{
    assert(goes_on(steps, ok, retain_audio, own_worker, i - 1));
    if i >= 2 {
        assert(goes_on(steps, ok, retain_audio, own_worker, i - 2));
    }
    if i >= 3 {
        assert(goes_on(steps, ok, retain_audio, own_worker, i - 3));
    }
    if i >= 4 {
        assert(goes_on(steps, ok, retain_audio, own_worker, i - 4));
    }
}

/// A session is no longer shown as running only once all audio is stored and its end is
/// written down.
pub proof fn law_cleared_sessions_are_finished(
    steps: Seq<SessionStep>,
    ok: Seq<bool>,
    retain_audio: bool,
    own_worker: bool,
    i: int,
)
    requires
        is_run(steps, ok, retain_audio, own_worker),
        0 <= i < steps.len(),
        steps[i] == SessionStep::Clear,
    ensures
        i >= 3,
        steps[i - 1] == SessionStep::Finalize && ok[i - 1],
        steps[i - 2] == SessionStep::AwaitSources,
        steps[i - 3] == SessionStep::Capture,
{
    assert(goes_on(steps, ok, retain_audio, own_worker, i - 1));
    if i >= 2 {
        assert(goes_on(steps, ok, retain_audio, own_worker, i - 2));
    }
    if i >= 3 {
        assert(goes_on(steps, ok, retain_audio, own_worker, i - 3));
    }
}

/// The warnings about what transcription lacks.
pub open spec fn unready_warnings(
    config: Config,
    voxtype_available: bool,
    executable_exists: bool,
    model_is_file: bool,
) -> Seq<Seq<char>> {
    match config.transcription.provider {
        ProviderKind::Voxtype => if voxtype_available {
            Seq::empty()
        } else {
            seq!["voxtype is unavailable; captured turns will remain queued"@]
        },
        ProviderKind::Openai => Seq::empty(),
        ProviderKind::WhisperCpp => {
            (if executable_exists {
                Seq::<Seq<char>>::empty()
            } else {
                seq![
                    "whisper-cli was not found; capture will continue and whisper.cpp jobs will stay pending"@,
                ]
            }) + (if model_is_file {
                Seq::<Seq<char>>::empty()
            } else {
                seq![
                    "whisper.cpp model was not found; capture will continue and whisper.cpp jobs will stay pending"@,
                ]
            })
        },
    }
}

/// What transcription lacks; audio is captured all the same.
pub fn warn_if_transcription_unready(
    config: &Config,
    voxtype_available: bool,
    executable_exists: bool,
    model_is_file: bool,
) -> (r: Vec<String>)
    ensures
        text::views(r@) == unready_warnings(
            *config,
            voxtype_available,
            executable_exists,
            model_is_file,
        ),
{
    let mut r: Vec<String> = Vec::new();
    match config.transcription.provider {
        ProviderKind::Voxtype => {
            if !voxtype_available {
                r.push("voxtype is unavailable; captured turns will remain queued".to_owned());
            }
        },
        ProviderKind::Openai => {},
        ProviderKind::WhisperCpp => {
            if !executable_exists {
                r.push(
                    "whisper-cli was not found; capture will continue and whisper.cpp jobs will stay pending".to_owned(),
                );
            }
            if !model_is_file {
                r.push(
                    "whisper.cpp model was not found; capture will continue and whisper.cpp jobs will stay pending".to_owned(),
                );
            }
        },
    }
    assert(text::views(r@) =~= unready_warnings(
        *config,
        voxtype_available,
        executable_exists,
        model_is_file,
    ));
    r
}

/// The model that a session is transcribed with: for Voxtype the configuration that was
/// put beside the session, for others the one of the settings.
pub fn session_model(config: &Config, snapshot: String) -> (r: String)
    ensures
        r@ == if config.transcription.provider == ProviderKind::Voxtype {
            snapshot@
        } else {
            config.model_text(config.transcription.provider)
        },
{
    if config.transcription.provider == ProviderKind::Voxtype {
        snapshot
    } else {
        config.model_for_provider(config.transcription.provider)
    }
}

/// The devices that a session begins with.
#[derive(Debug)]
pub struct SessionDevices {
    pub microphone: Option<AudioDevice>,
    pub output: Option<AudioDevice>,
    pub monitor: Option<AudioDevice>,
}

/// What the service shows once a session runs.
pub open spec fn recording_status(
    was: RuntimeStatus,
    session: SessionRecord,
    devices: SessionDevices,
    provider: ProviderKind,
) -> RuntimeStatus {
    RuntimeStatus {
        session_id: Some(session.id),
        session_started_at: Some(session.started_at),
        microphone: devices.microphone,
        output: devices.output,
        monitor: devices.monitor,
        microphone_state: SourceUiState::Capturing,
        system_state: SourceUiState::Capturing,
        audio_server: AudioServerHealth::Available,
        capture_active: true,
        capture_paused: false,
        capture_stop_reason: None,
        provider,
    }
}

/// Shows that a session runs.
pub fn mark_started(
    status: &mut RuntimeStatus,
    session: &SessionRecord,
    devices: SessionDevices,
    provider: ProviderKind,
)
    ensures
        *final(status) == recording_status(*old(status), *session, devices, provider),
{
    status.session_id = Some(session.id.clone());
    status.session_started_at = Some(session.started_at.clone());
    status.microphone = devices.microphone;
    status.output = devices.output;
    status.monitor = devices.monitor;
    status.capture_active = true;
    status.capture_paused = false;
    status.provider = provider;
    status.audio_server = AudioServerHealth::Available;
    status.microphone_state = SourceUiState::Capturing;
    status.system_state = SourceUiState::Capturing;
    status.capture_stop_reason = None;
}

/// What the service shows once no session runs.
pub open spec fn idle_status(was: RuntimeStatus) -> RuntimeStatus {
    RuntimeStatus {
        capture_active: false,
        capture_paused: false,
        session_id: None,
        session_started_at: None,
        microphone_state: SourceUiState::Idle,
        system_state: SourceUiState::Idle,
        ..was
    }
}

/// Shows that no session runs.
pub fn mark_ended(status: &mut RuntimeStatus)
    ensures
        *final(status) == idle_status(*old(status)),
{
    status.capture_active = false;
    status.capture_paused = false;
    status.session_id = None;
    status.session_started_at = None;
    status.microphone_state = SourceUiState::Idle;
    status.system_state = SourceUiState::Idle;
}

/// The state that a session ends in.
pub open spec fn end_state(stop_reason: bool) -> SessionState {
    if stop_reason {
        SessionState::Interrupted
    } else {
        SessionState::Completed
    }
}

/// A session once it is over: one that still runs ends now, one that does not stays as
/// it is.
pub open spec fn finalized(session: SessionRecord, stop_reason: bool, now: String) -> SessionRecord {
    if session.state == SessionState::Running {
        with_state(session, end_state(stop_reason), Some(now))
    } else {
        session
    }
}

/// The sessions once one of them is over.
pub open spec fn finalized_sessions(
    sessions: Seq<SessionRecord>,
    id: Seq<char>,
    stop_reason: bool,
    now: String,
) -> Seq<SessionRecord> {
    match find_session(sessions, id) {
        Some(session) if session.state == SessionState::Running => sessions.map_values(
            |s: SessionRecord|
                if s.id@ == id {
                    with_state(s, end_state(stop_reason), Some(now))
                } else {
                    s
                },
        ),
        _ => sessions,
    }
}

/// Ends a session: it is complete, or interrupted where capture was stopped for a reason.
/// Returns the session as it is written beside its audio, where there is one.
pub fn finalize_session(
    store: &mut Store,
    session_id: &str,
    stop_reason: bool,
    now: &String,
) -> (r: Option<SessionRecord>)
    ensures
        final(store)@ == (Tables {
            sessions: finalized_sessions(old(store)@.sessions, session_id@, stop_reason, *now),
            ..old(store)@
        }),
        r == match find_session(old(store)@.sessions, session_id@) {
            Some(session) => Some(finalized(session, stop_reason, *now)),
            None => None,
        },
        old(store)@.wf() ==> final(store)@.wf(),
{
    let mut record = match get_session(store, session_id) {
        Some(record) => record,
        None => return None,
    };
    if record.state != SessionState::Running {
        return Some(record);
    }
    let state = if stop_reason {
        SessionState::Interrupted
    } else {
        SessionState::Completed
    };
    set_session_state(store, session_id, state, Some(now.clone()));
    assert(store@.sessions =~= finalized_sessions(
        old(store)@.sessions,
        session_id@,
        stop_reason,
        *now,
    ));
    record.state = state;
    record.ended_at = Some(now.clone());
    Some(record)
}

/// A session that is over does not run, and ending it again changes nothing.
pub proof fn law_a_session_ends_once(
    session: SessionRecord,
    stop_reason: bool,
    again: bool,
    now: String,
    later: String,
)
    ensures
        finalized(session, stop_reason, now).state != SessionState::Running,
        finalized(finalized(session, stop_reason, now), again, later) == finalized(
            session,
            stop_reason,
            now,
        ),
{
}

/// What a look at the free space leads to.
#[derive(Debug)]
pub enum DiskVerdict {
    Continue,
    /// The free space could not be seen.
    Unknown,
    /// There is too little; capture ends with this error.
    Stop(AppError),
}

/// What a look at the free space leads to: capture ends where there is too little.
pub fn disk_verdict(free: &Result<u64>, data_dir: &str, minimum_mb: u64) -> (r: DiskVerdict)
    ensures
        match *free {
            Err(_) => r is Unknown,
            Ok(bytes) => if enough_space(bytes, minimum_mb) {
                r is Continue
            } else {
                r matches DiskVerdict::Stop(e) && e@ == (
                    ErrorKind::Other,
                    disk_stop_message(bytes, data_dir@, minimum_mb),
                )
            },
        },
{
    match free {
        Err(_) => DiskVerdict::Unknown,
        Ok(bytes) => {
            if capture_allowed(*bytes, minimum_mb) {
                DiskVerdict::Continue
            } else {
                DiskVerdict::Stop(disk_stop_error(*bytes, data_dir, minimum_mb))
            }
        },
    }
}

/// Shows that capture ended for a reason.
pub fn mark_disk_stop(status: &mut RuntimeStatus, reason: String)
    ensures
        *final(status) == (RuntimeStatus {
            capture_stop_reason: Some(reason),
            capture_active: false,
            ..*old(status)
        }),
{
    status.capture_stop_reason = Some(reason);
    status.capture_active = false;
}

/// Interrupts a session. Returns it as it is written beside its audio, where there is one.
pub fn interrupt_session(store: &mut Store, session_id: &str, now: &String) -> (r: Option<
    SessionRecord,
>)
    ensures
        final(store)@ == (Tables {
            sessions: old(store)@.sessions.map_values(
                |s: SessionRecord|
                    if s.id@ == session_id@ {
                        with_state(s, SessionState::Interrupted, Some(*now))
                    } else {
                        s
                    },
            ),
            ..old(store)@
        }),
        r == match find_session(old(store)@.sessions, session_id@) {
            Some(session) => Some(with_state(session, SessionState::Interrupted, Some(*now))),
            None => None,
        },
        old(store)@.wf() ==> final(store)@.wf(),
{
    let found = get_session(store, session_id);
    set_session_state(store, session_id, SessionState::Interrupted, Some(now.clone()));
    match found {
        Some(mut record) => {
            record.state = SessionState::Interrupted;
            record.ended_at = Some(now.clone());
            Some(record)
        },
        None => None,
    }
}

/// The error of a service that is told to end before there is an audio server.
pub fn no_audio_server() -> (e: AppError)
    ensures
        e@ == (
            ErrorKind::Audio,
            "stopped before PulseAudio/pipewire-pulse became available"@,
        ),
{
    AppError::audio("stopped before PulseAudio/pipewire-pulse became available")
}

/// The audio of a source lies below the directory of its session.
pub proof fn law_audio_lies_below_its_session(session_dir: Seq<char>)
    requires
        session_dir.len() > 0,
        session_dir.last() != '/',
    ensures
        source_dir_of(session_dir, AudioSource::Mic) == session_dir + "/audio/mic"@,
        source_dir_of(session_dir, AudioSource::System) == session_dir + "/audio/system"@,
{
    reveal_strlit("/");
    reveal_strlit("audio");
    reveal_strlit("mic");
    reveal_strlit("system");
    reveal_strlit("/audio/mic");
    reveal_strlit("/audio/system");
    let audio = joined_path(session_dir, "audio"@);
    assert(audio == session_dir + "/"@ + "audio"@);
    assert(audio.last() == 'o');
    assert(source_dir_of(session_dir, AudioSource::Mic) =~= session_dir + "/audio/mic"@);
    assert(source_dir_of(session_dir, AudioSource::System) =~= session_dir + "/audio/system"@);
}

/// The course of a session in which everything succeeds: its directories are made, it and
/// its run are stored before it is shown, audio is captured, all of it is stored before the
/// session ends, and only then is it no longer shown; a worker of its own works its jobs off.
pub proof fn law_the_course_of_a_session(
    steps: Seq<SessionStep>,
    ok: Seq<bool>,
    retain_audio: bool,
    own_worker: bool,
    i: int,
)
    requires
        is_run(steps, ok, retain_audio, own_worker),
        0 <= i < steps.len(),
        forall|k: int| 0 <= k < i ==> #[trigger] ok[k],
    ensures
        ({
            let begin = seq![SessionStep::MakeDirs] + (if retain_audio {
                seq![SessionStep::MarkRetained]
            } else {
                Seq::empty()
            });
            let middle = seq![
                SessionStep::InsertSession,
                SessionStep::ChooseModel,
                SessionStep::InsertRun,
                SessionStep::WriteSnapshot,
                SessionStep::Show,
                SessionStep::Capture,
                SessionStep::AwaitSources,
                SessionStep::Finalize,
                SessionStep::Clear,
            ];
            let end = if own_worker {
                seq![
                    SessionStep::ResetJobs,
                    SessionStep::AwaitWorker,
                    SessionStep::ResetJobsAgain,
                ]
            } else {
                Seq::empty()
            };
            let course = begin + middle + end;
            steps[i] == if i < course.len() {
                course[i]
            } else {
                SessionStep::Done
            }
        }),
    decreases i,
{
    if i > 0 {
        law_the_course_of_a_session(steps, ok, retain_audio, own_worker, i - 1);
        assert(goes_on(steps, ok, retain_audio, own_worker, i - 1));
        assert(ok[i - 1]);
    }
}

/// A session that cannot be set up fails; one that was captured is stored and ended however
/// its capture went.
pub proof fn law_a_failed_step(step: SessionStep, retain_audio: bool, own_worker: bool)
    ensures
        step == SessionStep::MakeDirs || step == SessionStep::MarkRetained || step
            == SessionStep::InsertSession || step == SessionStep::ChooseModel || step
            == SessionStep::InsertRun || step == SessionStep::WriteSnapshot ==> step_after(
            step,
            false,
            retain_audio,
            own_worker,
        ) == SessionStep::Failed,
        step == SessionStep::Capture ==> step_after(step, false, retain_audio, own_worker)
            == SessionStep::AwaitSources,
        step == SessionStep::AwaitSources ==> step_after(step, false, retain_audio, own_worker)
            == SessionStep::Finalize,
{
}

/// A session that runs is shown with its devices and as capturing; nothing of an earlier
/// session is left.
pub proof fn law_a_running_session_is_shown(
    was: RuntimeStatus,
    session: SessionRecord,
    devices: SessionDevices,
    provider: ProviderKind,
)
    ensures
        ({
            let now = recording_status(was, session, devices, provider);
            &&& now.session_id == Some(session.id)
            &&& now.session_started_at == Some(session.started_at)
            &&& now.microphone == devices.microphone
            &&& now.output == devices.output
            &&& now.monitor == devices.monitor
            &&& now.microphone_state == SourceUiState::Capturing
            &&& now.system_state == SourceUiState::Capturing
            &&& now.capture_active
            &&& !now.capture_paused
            &&& now.capture_stop_reason is None
            &&& now.provider == provider
        }),
{
}

/// Once no session runs none is shown, and no source as capturing; why the last one was
/// stopped stays.
pub proof fn law_an_idle_service_shows_no_session(was: RuntimeStatus)
    ensures
        ({
            let now = idle_status(was);
            &&& now.session_id is None
            &&& now.session_started_at is None
            &&& !now.capture_active
            &&& !now.capture_paused
            &&& now.microphone_state == SourceUiState::Idle
            &&& now.system_state == SourceUiState::Idle
            &&& now.capture_stop_reason == was.capture_stop_reason
            &&& now.microphone == was.microphone
            &&& now.output == was.output
            &&& now.monitor == was.monitor
            &&& now.audio_server == was.audio_server
            &&& now.provider == was.provider
        }),
{
}

/// A session ends as complete, or as interrupted where it was stopped for a reason; it ends
/// now, and everything else of it stays. One that is over already stays as it is.
pub proof fn law_how_a_session_ends(session: SessionRecord, stop_reason: bool, now: String)
    ensures
        session.state == SessionState::Running && !stop_reason ==> finalized(
            session,
            stop_reason,
            now,
        ) == (SessionRecord { state: SessionState::Completed, ended_at: Some(now), ..session }),
        session.state == SessionState::Running && stop_reason ==> finalized(
            session,
            stop_reason,
            now,
        ) == (SessionRecord { state: SessionState::Interrupted, ended_at: Some(now), ..session }),
        session.state != SessionState::Running ==> finalized(session, stop_reason, now) == session,
{
}

/// The end of a session changes the session with its identifier and no other.
pub proof fn law_the_end_of_a_session_spares_others(
    sessions: Seq<SessionRecord>,
    id: Seq<char>,
    stop_reason: bool,
    now: String,
    i: int,
)
    requires
        0 <= i < sessions.len(),
        forall|a: int, b: int|
            0 <= a < b < sessions.len() ==> (#[trigger] sessions[a]).id@ != (
            #[trigger] sessions[b]).id@,
    ensures
        finalized_sessions(sessions, id, stop_reason, now).len() == sessions.len(),
        sessions[i].id@ != id ==> finalized_sessions(sessions, id, stop_reason, now)[i]
            == sessions[i],
        sessions[i].id@ == id ==> finalized_sessions(sessions, id, stop_reason, now)[i]
            == finalized(sessions[i], stop_reason, now),
{
    if sessions[i].id@ == id {
        lemma_only_session(sessions, id, i);
    }
}

proof fn lemma_only_session(sessions: Seq<SessionRecord>, id: Seq<char>, i: int)
    requires
        0 <= i < sessions.len(),
        sessions[i].id@ == id,
        forall|a: int, b: int|
            0 <= a < b < sessions.len() ==> (#[trigger] sessions[a]).id@ != (
            #[trigger] sessions[b]).id@,
    ensures
        find_session(sessions, id) == Some(sessions[i]),
    decreases sessions.len(),
{
    if i > 0 {
        assert(sessions[0].id@ != sessions[i].id@);
        let rest = sessions.drop_first();
        assert forall|a: int, b: int| 0 <= a < b < rest.len() implies (#[trigger] rest[a]).id@ != (
        #[trigger] rest[b]).id@ by {
            assert(rest[a] == sessions[a + 1] && rest[b] == sessions[b + 1]);
        }
        lemma_only_session(rest, id, i - 1);
    }
}

/// The user is warned exactly of what the provider of the settings lacks.
pub proof fn law_warnings_name_what_is_missing(
    config: Config,
    voxtype: bool,
    executable: bool,
    model: bool,
)
    ensures
        ({
            let warnings = unready_warnings(config, voxtype, executable, model);
            &&& config.transcription.provider == ProviderKind::Voxtype ==> (warnings.len() == 0
                <==> voxtype)
            &&& config.transcription.provider == ProviderKind::WhisperCpp ==> warnings.len() == (
            if executable {
                0int
            } else {
                1
            }) + (if model {
                0int
            } else {
                1
            })
        }),
{
}

} // verus!
