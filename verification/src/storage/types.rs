//! The records of sessions, runs, chunks and jobs.

use crate::audio::{AudioDevice, AudioSource};
use crate::config::ProviderKind;
use crate::error::{fails, AppError, ErrorKind, Result};
use crate::text;
use vstd::prelude::*;

verus! {

#[derive(Clone, Copy, Debug, PartialEq, Eq, Structural)]
pub enum SessionState {
    Running,
    Completed,
    Interrupted,
}

pub open spec fn session_state_named(value: Seq<char>) -> Option<SessionState> {
    if value == "running"@ {
        Some(SessionState::Running)
    } else if value == "completed"@ {
        Some(SessionState::Completed)
    } else if value == "interrupted"@ {
        Some(SessionState::Interrupted)
    } else {
        None
    }
}

impl SessionState {
    pub open spec fn name(self) -> Seq<char> {
        match self {
            SessionState::Running => "running"@,
            SessionState::Completed => "completed"@,
            SessionState::Interrupted => "interrupted"@,
        }
    }

    pub fn as_str(self) -> (r: &'static str)
        ensures
            r@ == self.name(),
    {
        match self {
            SessionState::Running => "running",
            SessionState::Completed => "completed",
            SessionState::Interrupted => "interrupted",
        }
    }

    pub fn parse(value: &str) -> (r: Result<Self>)
        ensures
            match session_state_named(value@) {
                Some(state) => r matches Ok(s) && s == state,
                None => fails(
                    r,
                    ErrorKind::Other,
                    "invalid session state '"@ + value@ + "'"@,
                ),
            },
    {
        if text::same(value, "running") {
            Ok(SessionState::Running)
        } else if text::same(value, "completed") {
            Ok(SessionState::Completed)
        } else if text::same(value, "interrupted") {
            Ok(SessionState::Interrupted)
        } else {
            let message = text::concat3("invalid session state '", value, "'");
            Err(AppError::other(message.as_str()))
        }
    }
}

#[derive(Clone, Copy, Debug, PartialEq, Eq, Structural)]
pub enum JobState {
    Pending,
    Processing,
    Completed,
}

pub open spec fn job_state_named(value: Seq<char>) -> Option<JobState> {
    if value == "pending"@ {
        Some(JobState::Pending)
    } else if value == "processing"@ {
        Some(JobState::Processing)
    } else if value == "completed"@ {
        Some(JobState::Completed)
    } else {
        None
    }
}

impl JobState {
    pub open spec fn name(self) -> Seq<char> {
        match self {
            JobState::Pending => "pending"@,
            JobState::Processing => "processing"@,
            JobState::Completed => "completed"@,
        }
    }

    pub fn as_str(self) -> (r: &'static str)
        ensures
            r@ == self.name(),
    {
        match self {
            JobState::Pending => "pending",
            JobState::Processing => "processing",
            JobState::Completed => "completed",
        }
    }

    pub fn parse(value: &str) -> (r: Result<Self>)
        ensures
            match job_state_named(value@) {
                Some(state) => r matches Ok(s) && s == state,
                None => fails(r, ErrorKind::Other, "invalid job state '"@ + value@ + "'"@),
            },
    {
        if text::same(value, "pending") {
            Ok(JobState::Pending)
        } else if text::same(value, "processing") {
            Ok(JobState::Processing)
        } else if text::same(value, "completed") {
            Ok(JobState::Completed)
        } else {
            let message = text::concat3("invalid job state '", value, "'");
            Err(AppError::other(message.as_str()))
        }
    }
}

/// The name of a session state is read back as the state.
pub proof fn law_session_state_round_trip(state: SessionState)
    ensures
        session_state_named(state.name()) == Some(state),
{
    reveal_strlit("running");
    reveal_strlit("completed");
    reveal_strlit("interrupted");
    assert("running"@[0] == 'r' && "completed"@[0] == 'c' && "interrupted"@[0] == 'i');
}

/// The name of a job state is read back as the state.
pub proof fn law_job_state_round_trip(state: JobState)
    ensures
        job_state_named(state.name()) == Some(state),
{
    reveal_strlit("pending");
    reveal_strlit("processing");
    reveal_strlit("completed");
    assert("pending"@[1] == 'e' && "completed"@[1] == 'o' && "processing"@[1] == 'r');
}

/// A device as it is remembered with a session.
#[derive(Debug)]
pub struct DeviceSnapshot {
    pub id: String,
    pub description: String,
}

impl Clone for DeviceSnapshot {
    fn clone(&self) -> (r: Self)
        ensures
            r == *self,
    {
        DeviceSnapshot { id: self.id.clone(), description: self.description.clone() }
    }
}

impl DeviceSnapshot {
    pub fn from(device: &AudioDevice) -> (r: Self)
        ensures
            r.id == device.id,
            r.description == device.description,
    {
        DeviceSnapshot { id: device.id.clone(), description: device.description.clone() }
    }
}

/// A session as it is written to `session.json`.
#[derive(Debug)]
pub struct SessionSnapshot {
    pub id: String,
    pub state: SessionState,
    pub started_at: String,
    pub ended_at: Option<String>,
    pub microphone: Option<DeviceSnapshot>,
    pub output: Option<DeviceSnapshot>,
    pub monitor: Option<DeviceSnapshot>,
    pub title: Option<String>,
}

#[derive(Debug)]
pub struct SessionRecord {
    pub id: String,
    pub state: SessionState,
    pub started_at: String,
    pub ended_at: Option<String>,
    pub microphone_id: Option<String>,
    pub microphone_description: Option<String>,
    pub output_id: Option<String>,
    pub output_description: Option<String>,
    pub monitor_id: Option<String>,
    pub monitor_description: Option<String>,
    pub created_at: String,
    pub title: Option<String>,
}

impl Clone for SessionRecord {
    fn clone(&self) -> (r: Self)
        ensures
            r == *self,
    {
        SessionRecord {
            id: self.id.clone(),
            state: self.state,
            started_at: self.started_at.clone(),
            ended_at: self.ended_at.clone(),
            microphone_id: self.microphone_id.clone(),
            microphone_description: self.microphone_description.clone(),
            output_id: self.output_id.clone(),
            output_description: self.output_description.clone(),
            monitor_id: self.monitor_id.clone(),
            monitor_description: self.monitor_description.clone(),
            created_at: self.created_at.clone(),
            title: self.title.clone(),
        }
    }
}

#[derive(Debug)]
pub struct TranscriptionRunRecord {
    pub id: String,
    pub session_id: String,
    pub provider: ProviderKind,
    pub model: Option<String>,
    pub created_at: String,
}

impl Clone for TranscriptionRunRecord {
    fn clone(&self) -> (r: Self)
        ensures
            r == *self,
    {
        TranscriptionRunRecord {
            id: self.id.clone(),
            session_id: self.session_id.clone(),
            provider: self.provider,
            model: self.model.clone(),
            created_at: self.created_at.clone(),
        }
    }
}

#[derive(Debug)]
pub struct AudioChunkRecord {
    pub id: String,
    pub session_id: String,
    pub source: AudioSource,
    pub sequence: u64,
    pub started_at: String,
    pub ended_at: String,
    pub file_path: String,
    pub duration_ms: i64,
    pub created_at: String,
}

impl Clone for AudioChunkRecord {
    fn clone(&self) -> (r: Self)
        ensures
            r == *self,
    {
        AudioChunkRecord {
            id: self.id.clone(),
            session_id: self.session_id.clone(),
            source: self.source,
            sequence: self.sequence,
            started_at: self.started_at.clone(),
            ended_at: self.ended_at.clone(),
            file_path: self.file_path.clone(),
            duration_ms: self.duration_ms,
            created_at: self.created_at.clone(),
        }
    }
}

#[derive(Debug)]
pub struct TranscriptionJobRecord {
    pub id: String,
    pub audio_chunk_id: String,
    pub run_id: String,
    pub provider: ProviderKind,
    pub model: Option<String>,
    pub state: JobState,
    pub attempt_count: i64,
    pub last_error: Option<String>,
    pub next_retry_at: Option<String>,
    pub created_at: String,
    pub started_at: Option<String>,
    pub completed_at: Option<String>,
}

impl Clone for TranscriptionJobRecord {
    fn clone(&self) -> (r: Self)
        ensures
            r == *self,
    {
        TranscriptionJobRecord {
            id: self.id.clone(),
            audio_chunk_id: self.audio_chunk_id.clone(),
            run_id: self.run_id.clone(),
            provider: self.provider,
            model: self.model.clone(),
            state: self.state,
            attempt_count: self.attempt_count,
            last_error: self.last_error.clone(),
            next_retry_at: self.next_retry_at.clone(),
            created_at: self.created_at.clone(),
            started_at: self.started_at.clone(),
            completed_at: self.completed_at.clone(),
        }
    }
}

/// The names under which states are stored.
pub proof fn law_states_go_by_their_names(value: Seq<char>)
    ensures
        session_state_named(value) == Some(SessionState::Running) <==> value == "running"@,
        session_state_named(value) == Some(SessionState::Completed) <==> value == "completed"@,
        session_state_named(value) == Some(SessionState::Interrupted) <==> value
            == "interrupted"@,
        job_state_named(value) == Some(JobState::Pending) <==> value == "pending"@,
        job_state_named(value) == Some(JobState::Processing) <==> value == "processing"@,
        job_state_named(value) == Some(JobState::Completed) <==> value == "completed"@,
        SessionState::Running.name() == "running"@,
        SessionState::Completed.name() == "completed"@,
        SessionState::Interrupted.name() == "interrupted"@,
        JobState::Pending.name() == "pending"@,
        JobState::Processing.name() == "processing"@,
        JobState::Completed.name() == "completed"@,
{
    reveal_strlit("running");
    reveal_strlit("completed");
    reveal_strlit("interrupted");
    reveal_strlit("pending");
    reveal_strlit("processing");
    assert("running"@.len() == 7 && "completed"@.len() == 9 && "interrupted"@.len() == 11);
    assert("pending"@.len() == 7 && "processing"@.len() == 10);
}

} // verus!
