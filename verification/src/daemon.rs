//! The service between its start and its end: who may record when, and who is told what.

use crate::control::handlers::{meeting_secs, session_duration_secs, some_job_open};
use crate::error::{fails, AppError, ErrorKind, Result};
use crate::runtime::{RuntimeStatus, SourceUiState, UiEvent};
use crate::storage::jobs::{jobs_of_session, list_jobs_for_session};
use crate::storage::sessions::get_session;
use crate::storage::types::JobState;
use crate::storage::{find_session, Store};
use crate::timeutil::UtcTime;
use vstd::prelude::*;

verus! {

/// What the service is doing.
#[derive(Debug)]
pub enum DaemonState {
    Idle,
    /// A recording was asked for; whoever asked has no answer yet.
    Starting,
    Recording { session_id: String },
    /// A recording is over.
    Leaving,
    Down,
}

/// What happens to the service.
#[derive(Debug)]
pub enum DaemonEvent {
    /// The service is told to end.
    Shutdown,
    /// A recording is asked for; whether audio is being captured.
    Start { capture_active: bool },
    /// The end of a recording is asked for.
    Stop,
    /// The recording that was asked for has begun, or `None` where it never will.
    Started(Option<String>),
    /// The recording ended by itself; with what, and whether there is a reason.
    Ended { result: Result<String>, stop_reason: bool },
    /// All of a recording is over; whether the service was told to end meanwhile.
    Settled { shutting_down: bool },
}

/// Why a request is refused.
#[derive(Clone, Copy, Debug, PartialEq, Eq, Structural)]
pub enum Refusal {
    NotRecording,
    AlreadyRecording,
    FailedToStart,
    ShuttingDown,
}

impl Refusal {
    pub open spec fn text(self) -> Seq<char> {
        match self {
            Refusal::NotRecording => "no recording is active"@,
            Refusal::AlreadyRecording => "a recording is already active"@,
            Refusal::FailedToStart => "recording failed to start"@,
            Refusal::ShuttingDown => "daemon is shutting down"@,
        }
    }

    pub fn error(self) -> (e: AppError)
        ensures
            e@ == (ErrorKind::Control, self.text()),
    {
        AppError::control(
            match self {
                Refusal::NotRecording => "no recording is active",
                Refusal::AlreadyRecording => "a recording is already active",
                Refusal::FailedToStart => "recording failed to start",
                Refusal::ShuttingDown => "daemon is shutting down",
            },
        )
    }
}

/// What is said of a recording to those who watch the service.
#[derive(Clone, Copy, Debug, PartialEq, Eq, Structural)]
pub enum News {
    RecordingStarted,
    SessionCreated,
    RecordingStopped,
    RecordingInterrupted,
}

impl News {
    pub open spec fn name(self) -> Seq<char> {
        match self {
            News::RecordingStarted => "recording_started"@,
            News::SessionCreated => "session_created"@,
            News::RecordingStopped => "recording_stopped"@,
            News::RecordingInterrupted => "recording_interrupted"@,
        }
    }

    /// The message about a session.
    pub fn event(self, session_id: &str) -> (r: UiEvent)
        ensures
            r.event@ == self.name(),
            r.session_id matches Some(id) && id@ == session_id@,
            r.message is None,
    {
        let name = match self {
            News::RecordingStarted => "recording_started",
            News::SessionCreated => "session_created",
            News::RecordingStopped => "recording_stopped",
            News::RecordingInterrupted => "recording_interrupted",
        };
        UiEvent::new(name).session(session_id)
    }
}

/// What the service does about an event.
#[derive(Debug)]
pub enum DaemonAction {
    /// Begin a recording.
    Begin,
    /// Tell whoever asked for the recording that it runs.
    Accept(String),
    /// Tell whoever asked for a recording that there is none.
    RefuseStart(Refusal),
    /// Tell whoever asked for the recording what it failed on.
    Fail(AppError),
    /// Tell whoever asked for the end of a recording that there is none.
    RefuseStop,
    /// End the capture of audio.
    StopCapture,
    /// Wait until the recording is over.
    AwaitSession,
    /// Tell whoever asked for the end of this recording what came of it.
    AnswerStop(String),
    Tell(News, String),
}

/// The news that a recording is over.
pub open spec fn ended_news(interrupted: bool) -> News {
    if interrupted {
        News::RecordingInterrupted
    } else {
        News::RecordingStopped
    }
}

/// What the service does about an event, and what it is doing then. An event that cannot
/// come in a state changes nothing.
pub open spec fn reaction(state: DaemonState, event: DaemonEvent) -> (
    DaemonState,
    Seq<DaemonAction>,
) {
    match (state, event) {
        (DaemonState::Idle, DaemonEvent::Shutdown) => (DaemonState::Down, Seq::empty()),
        (DaemonState::Idle, DaemonEvent::Stop) => (
            DaemonState::Idle,
            seq![DaemonAction::RefuseStop],
        ),
        (DaemonState::Idle, DaemonEvent::Start { capture_active }) => if capture_active {
            (DaemonState::Idle, seq![DaemonAction::RefuseStart(Refusal::AlreadyRecording)])
        } else {
            (DaemonState::Starting, seq![DaemonAction::Begin])
        },
        (DaemonState::Starting, DaemonEvent::Started(Some(id))) => (
            DaemonState::Recording { session_id: id },
            seq![
                DaemonAction::Tell(News::RecordingStarted, id),
                DaemonAction::Tell(News::SessionCreated, id),
                DaemonAction::Accept(id),
            ],
        ),
        (DaemonState::Starting, DaemonEvent::Started(None)) => (
            DaemonState::Idle,
            seq![DaemonAction::RefuseStart(Refusal::FailedToStart), DaemonAction::AwaitSession],
        ),
        (DaemonState::Starting, DaemonEvent::Ended { result: Ok(id), stop_reason }) => (
            DaemonState::Idle,
            seq![DaemonAction::Accept(id), DaemonAction::Tell(News::RecordingStopped, id)],
        ),
        (DaemonState::Starting, DaemonEvent::Ended { result: Err(e), stop_reason }) => (
            DaemonState::Idle,
            seq![DaemonAction::Fail(e)],
        ),
        (DaemonState::Starting, DaemonEvent::Shutdown) => (
            DaemonState::Down,
            seq![
                DaemonAction::StopCapture,
                DaemonAction::RefuseStart(Refusal::ShuttingDown),
                DaemonAction::AwaitSession,
            ],
        ),
        (DaemonState::Recording { session_id }, DaemonEvent::Shutdown) => (
            DaemonState::Leaving,
            seq![
                DaemonAction::StopCapture,
                DaemonAction::AwaitSession,
                DaemonAction::Tell(News::RecordingInterrupted, session_id),
            ],
        ),
        (DaemonState::Recording { session_id }, DaemonEvent::Ended { result, stop_reason }) => (
            DaemonState::Leaving,
            seq![DaemonAction::Tell(ended_news(stop_reason), session_id)],
        ),
        (DaemonState::Recording { session_id }, DaemonEvent::Stop) => (
            DaemonState::Leaving,
            seq![
                DaemonAction::StopCapture,
                DaemonAction::AwaitSession,
                DaemonAction::AnswerStop(session_id),
                DaemonAction::Tell(News::RecordingStopped, session_id),
            ],
        ),
        (DaemonState::Recording { session_id }, DaemonEvent::Start { capture_active }) => (
            state,
            seq![DaemonAction::RefuseStart(Refusal::AlreadyRecording)],
        ),
        (DaemonState::Leaving, DaemonEvent::Settled { shutting_down }) => (
            if shutting_down {
                DaemonState::Down
            } else {
                DaemonState::Idle
            },
            Seq::empty(),
        ),
        _ => (state, Seq::empty()),
    }
}

impl DaemonState {
    fn take(&mut self) -> (r: DaemonState)
        ensures
            r == *old(self),
            *final(self) == DaemonState::Idle,
    {
        let mut r = DaemonState::Idle;
        std::mem::swap(&mut r, self);
        r
    }

    fn while_idle(&mut self, event: DaemonEvent) -> (r: Vec<DaemonAction>)
        requires
            *old(self) == DaemonState::Idle,
        ensures
            (*final(self), r@) == reaction(*old(self), event),
    {
        let mut actions: Vec<DaemonAction> = Vec::new();
        match event {
            DaemonEvent::Shutdown => {
                *self = DaemonState::Down;
            },
            DaemonEvent::Stop => {
                actions.push(DaemonAction::RefuseStop);
            },
            DaemonEvent::Start { capture_active } => {
                if capture_active {
                    actions.push(DaemonAction::RefuseStart(Refusal::AlreadyRecording));
                } else {
                    *self = DaemonState::Starting;
                    actions.push(DaemonAction::Begin);
                }
            },
            _ => {},
        }
        assert(actions@ =~= reaction(*old(self), event).1);
        actions
    }

    fn while_starting(&mut self, event: DaemonEvent) -> (r: Vec<DaemonAction>)
        requires
            *old(self) == DaemonState::Starting,
        ensures
            (*final(self), r@) == reaction(*old(self), event),
    {
        let mut actions: Vec<DaemonAction> = Vec::new();
        match event {
            DaemonEvent::Started(Some(id)) => {
                actions.push(DaemonAction::Tell(News::RecordingStarted, id.clone()));
                actions.push(DaemonAction::Tell(News::SessionCreated, id.clone()));
                actions.push(DaemonAction::Accept(id.clone()));
                *self = DaemonState::Recording { session_id: id };
            },
            DaemonEvent::Started(None) => {
                actions.push(DaemonAction::RefuseStart(Refusal::FailedToStart));
                actions.push(DaemonAction::AwaitSession);
                *self = DaemonState::Idle;
            },
            DaemonEvent::Ended { result: Ok(id), stop_reason: _ } => {
                actions.push(DaemonAction::Accept(id.clone()));
                actions.push(DaemonAction::Tell(News::RecordingStopped, id));
                *self = DaemonState::Idle;
            },
            DaemonEvent::Ended { result: Err(e), stop_reason: _ } => {
                actions.push(DaemonAction::Fail(e));
                *self = DaemonState::Idle;
            },
            DaemonEvent::Shutdown => {
                actions.push(DaemonAction::StopCapture);
                actions.push(DaemonAction::RefuseStart(Refusal::ShuttingDown));
                actions.push(DaemonAction::AwaitSession);
                *self = DaemonState::Down;
            },
            _ => {},
        }
        assert(actions@ =~= reaction(*old(self), event).1);
        actions
    }

    fn while_recording(&mut self, session_id: String, event: DaemonEvent) -> (r: Vec<DaemonAction>)
        requires
            *old(self) == (DaemonState::Recording { session_id }),
        ensures
            (*final(self), r@) == reaction(*old(self), event),
    {
        let mut actions: Vec<DaemonAction> = Vec::new();
        match event {
            DaemonEvent::Shutdown => {
                actions.push(DaemonAction::StopCapture);
                actions.push(DaemonAction::AwaitSession);
                actions.push(DaemonAction::Tell(News::RecordingInterrupted, session_id));
                *self = DaemonState::Leaving;
            },
            DaemonEvent::Ended { result: _, stop_reason } => {
                let news = if stop_reason {
                    News::RecordingInterrupted
                } else {
                    News::RecordingStopped
                };
                actions.push(DaemonAction::Tell(news, session_id));
                *self = DaemonState::Leaving;
            },
            DaemonEvent::Stop => {
                actions.push(DaemonAction::StopCapture);
                actions.push(DaemonAction::AwaitSession);
                actions.push(DaemonAction::AnswerStop(session_id.clone()));
                actions.push(DaemonAction::Tell(News::RecordingStopped, session_id));
                *self = DaemonState::Leaving;
            },
            DaemonEvent::Start { capture_active: _ } => {
                actions.push(DaemonAction::RefuseStart(Refusal::AlreadyRecording));
            },
            _ => {},
        }
        assert(actions@ =~= reaction(*old(self), event).1);
        actions
    }

    /// Takes in an event and returns what is done about it.
    pub fn step(&mut self, event: DaemonEvent) -> (r: Vec<DaemonAction>)
        ensures
            (*final(self), r@) == reaction(*old(self), event),
    {
        let now = match &*self {
            DaemonState::Idle => return self.while_idle(event),
            DaemonState::Starting => return self.while_starting(event),
            DaemonState::Recording { session_id } => Some(session_id.clone()),
            _ => None,
        };
        if let Some(session_id) = now {
            return self.while_recording(session_id, event);
        }
        let actions: Vec<DaemonAction> = Vec::new();
        if let DaemonState::Leaving = self.take() {
            match event {
                DaemonEvent::Settled { shutting_down } => {
                    if shutting_down {
                        *self = DaemonState::Down;
                    } else {
                        *self = DaemonState::Idle;
                    }
                },
                _ => {
                    *self = DaemonState::Leaving;
                },
            }
        } else {
            *self = DaemonState::Down;
        }
        assert(actions@ =~= reaction(*old(self), event).1);
        actions
    }
}

/// Whether an action answers whoever asked for a recording.
pub open spec fn answers_start(action: DaemonAction) -> bool {
    action is Accept || action is RefuseStart || action is Fail
}

/// How many of the actions answer whoever asked for a recording.
pub open spec fn start_answers(actions: Seq<DaemonAction>) -> nat
    decreases actions.len(),
{
    if actions.len() == 0 {
        0
    } else {
        start_answers(actions.drop_last()) + if answers_start(actions.last()) {
            1nat
        } else {
            0nat
        }
    }
}

/// How many requests for a recording are open: taken in and not answered.
pub open spec fn open_requests(state: DaemonState) -> nat {
    if state is Starting {
        1
    } else {
        0
    }
}

proof fn lemma_start_answers_unfold(actions: Seq<DaemonAction>)
    requires
        actions.len() <= 4,
    ensures
        start_answers(actions) == (if actions.len() > 0 && answers_start(actions[0]) {
            1nat
        } else {
            0nat
        }) + (if actions.len() > 1 && answers_start(actions[1]) {
            1nat
        } else {
            0nat
        }) + (if actions.len() > 2 && answers_start(actions[2]) {
            1nat
        } else {
            0nat
        }) + (if actions.len() > 3 && answers_start(actions[3]) {
            1nat
        } else {
            0nat
        }),
    decreases actions.len(),
{
    if actions.len() > 0 {
        lemma_start_answers_unfold(actions.drop_last());
    }
}

/// Every request for a recording is answered exactly once: while none is open, a request
/// is answered at once or becomes open, and the event that closes it answers it.
pub proof fn law_every_start_is_answered_once(state: DaemonState, event: DaemonEvent)
    requires
        // Requests are taken in only while the service waits for them.
        event is Start ==> state is Idle || state is Recording,
    ensures
        ({
            let (next, actions) = reaction(state, event);
            start_answers(actions) + open_requests(next) == open_requests(state) + (if event
                is Start {
                1nat
            } else {
                0nat
            })
        }),
{
    let (next, actions) = reaction(state, event);
    lemma_start_answers_unfold(actions);
}

/// A recording begins only where none runs and none is being started.
pub proof fn law_one_recording_at_a_time(state: DaemonState, event: DaemonEvent, i: int)
    requires
        0 <= i < reaction(state, event).1.len(),
        reaction(state, event).1[i] is Begin,
    ensures
        state is Idle,
        event == (DaemonEvent::Start { capture_active: false }),
{
}

/// Whoever asks for the end of a recording is answered only after the recording is over.
pub proof fn law_a_stop_is_answered_at_the_end(state: DaemonState, event: DaemonEvent, i: int)
    requires
        0 <= i < reaction(state, event).1.len(),
        reaction(state, event).1[i] is AnswerStop,
    ensures
        i == 2,
        reaction(state, event).1[0] is StopCapture,
        reaction(state, event).1[1] is AwaitSession,
        event is Stop,
        state == (DaemonState::Recording { session_id: reaction(state, event).1[i]->AnswerStop_0 }),
{
}

/// A service that is down stays down.
pub proof fn law_down_is_final(event: DaemonEvent)
    ensures
        reaction(DaemonState::Down, event) == (DaemonState::Down, Seq::<DaemonAction>::empty()),
{
}

/// How a recording ended.
#[derive(Debug)]
pub struct StopOutcome {
    pub session_id: String,
    pub duration_secs: u64,
    pub transcription_pending: bool,
}

/// What came of a recording: how long it lasted, and whether some of it still waits to be
/// transcribed.
pub fn stop_outcome(store: &Store, session_id: &str, now: UtcTime) -> (r: Result<StopOutcome>)
    requires
        now.wf(),
    ensures
        match find_session(store.sessions@, session_id@) {
            None => fails(r, ErrorKind::Control, "session was not found after stop"@),
            Some(session) => r matches Ok(o) && o.session_id@ == session_id@ && o.duration_secs
                == meeting_secs(session, now) && o.transcription_pending == some_job_open(
                jobs_of_session(store@, session_id@),
            ),
        },
{
    let session = match get_session(store, session_id) {
        Some(session) => session,
        None => return Err(AppError::control("session was not found after stop")),
    };
    let jobs = list_jobs_for_session(store, session_id);
    let mut i: usize = 0;
    let mut pending = false;
    while i < jobs.len()
        invariant
            i <= jobs@.len(),
            pending == exists|k: int|
                0 <= k < i && (#[trigger] jobs@[k]).state != JobState::Completed,
        decreases jobs.len() - i,
    {
        if jobs[i].state != JobState::Completed {
            pending = true;
        }
        i += 1;
    }
    Ok(
        StopOutcome {
            session_id: session_id.to_owned(),
            duration_secs: session_duration_secs(&session, now),
            transcription_pending: pending,
        },
    )
}

/// What the service shows of itself once it is down.
pub fn mark_down(status: &mut RuntimeStatus)
    ensures
        *final(status) == (RuntimeStatus {
            capture_active: false,
            session_id: None,
            microphone_state: SourceUiState::Idle,
            system_state: SourceUiState::Idle,
            ..*old(status)
        }),
{
    status.capture_active = false;
    status.session_id = None;
    status.microphone_state = SourceUiState::Idle;
    status.system_state = SourceUiState::Idle;
}

/// What the service does about a request to record: it begins where nothing is recorded,
/// and refuses where something is.
pub proof fn law_how_a_recording_begins(id: String)
    ensures
        reaction(DaemonState::Idle, DaemonEvent::Start { capture_active: false }) == (
            DaemonState::Starting,
            seq![DaemonAction::Begin],
        ),
        reaction(DaemonState::Idle, DaemonEvent::Start { capture_active: true }) == (
            DaemonState::Idle,
            seq![DaemonAction::RefuseStart(Refusal::AlreadyRecording)],
        ),
        reaction(
            DaemonState::Recording { session_id: id },
            DaemonEvent::Start { capture_active: true },
        ) == (
            DaemonState::Recording { session_id: id },
            seq![DaemonAction::RefuseStart(Refusal::AlreadyRecording)],
        ),
        reaction(DaemonState::Starting, DaemonEvent::Started(Some(id))).0 == (
        DaemonState::Recording { session_id: id }),
        reaction(DaemonState::Starting, DaemonEvent::Started(Some(id))).1.contains(
            DaemonAction::Accept(id),
        ),
        reaction(DaemonState::Starting, DaemonEvent::Started(Some(id))).1.contains(
            DaemonAction::Tell(News::RecordingStarted, id),
        ),
        reaction(DaemonState::Starting, DaemonEvent::Started(None)).0 == DaemonState::Idle,
{
    let actions = reaction(DaemonState::Starting, DaemonEvent::Started(Some(id))).1;
    assert(actions.contains(actions[0]) && actions.contains(actions[2]));
}

/// How a recording ends: a stop ends the capture, waits until all is stored, answers, and
/// only then tells; the end of the service interrupts it; one that ends by itself is told
/// as stopped, or as interrupted where there was a reason. A stop without a recording is
/// refused.
pub proof fn law_how_a_recording_ends(id: String, result: Result<String>, shutting_down: bool)
    ensures
        reaction(DaemonState::Recording { session_id: id }, DaemonEvent::Stop) == (
            DaemonState::Leaving,
            seq![
                DaemonAction::StopCapture,
                DaemonAction::AwaitSession,
                DaemonAction::AnswerStop(id),
                DaemonAction::Tell(News::RecordingStopped, id),
            ],
        ),
        reaction(DaemonState::Recording { session_id: id }, DaemonEvent::Shutdown) == (
            DaemonState::Leaving,
            seq![
                DaemonAction::StopCapture,
                DaemonAction::AwaitSession,
                DaemonAction::Tell(News::RecordingInterrupted, id),
            ],
        ),
        reaction(
            DaemonState::Recording { session_id: id },
            DaemonEvent::Ended { result, stop_reason: false },
        ).1 == seq![DaemonAction::Tell(News::RecordingStopped, id)],
        reaction(
            DaemonState::Recording { session_id: id },
            DaemonEvent::Ended { result, stop_reason: true },
        ).1 == seq![DaemonAction::Tell(News::RecordingInterrupted, id)],
        reaction(DaemonState::Idle, DaemonEvent::Stop) == (
            DaemonState::Idle,
            seq![DaemonAction::RefuseStop],
        ),
        reaction(DaemonState::Idle, DaemonEvent::Shutdown).0 == DaemonState::Down,
        reaction(DaemonState::Leaving, DaemonEvent::Settled { shutting_down }).0 == (
        if shutting_down {
            DaemonState::Down
        } else {
            DaemonState::Idle
        }),
{
}

/// What is told under which name, and why requests are refused.
pub proof fn law_what_the_service_says()
    ensures
        News::RecordingStarted.name() == "recording_started"@,
        News::SessionCreated.name() == "session_created"@,
        News::RecordingStopped.name() == "recording_stopped"@,
        News::RecordingInterrupted.name() == "recording_interrupted"@,
        Refusal::NotRecording.text() == "no recording is active"@,
        Refusal::AlreadyRecording.text() == "a recording is already active"@,
        Refusal::FailedToStart.text() == "recording failed to start"@,
        Refusal::ShuttingDown.text() == "daemon is shutting down"@,
{
}

} // verus!
