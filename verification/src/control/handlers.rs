//! What the service does for a request.

use crate::audio::AudioDevice;
use crate::config::{
    apply_patch, assert_languages_compatible, check_whisper_files, field_of, validation_field,
    whisper_files_error, Changes, Config, ConfigPatch, ProviderKind, Settings,
};
use crate::control::protocol::{
    encode_ok, encode_response, is_error, ok_model, response_model, Response,
};
use crate::daemon::StopOutcome;
use crate::disk::{format_bytes, size_text};
use crate::distro::DistroInfo;
use crate::doctor::{check_model, check_models, check_tree, diagnostics_payload, Check, CheckStatus};
use crate::error::{fails, shown, AppError, ErrorKind, Result};
use crate::paths::{is_within, join, joined_path, lies_within, PathResolver};
use crate::runtime::{RuntimeStatus, SourceUiState};
use crate::session_status::{
    all_transcribed, derive_ui_status, display_title, duration_text, format_duration_secs,
    given_title, is_fallback, ui_status, StatusContext, UiSessionStatus,
};
use crate::sorting::{ranked, Ranked};
use crate::storage::chunks::{chunks_of, list_chunks_for_session};
use crate::storage::events::{is_transcribed, transcribed_chunk_ids};
use crate::storage::jobs::{belongs_to, count_jobs, hurried, is_pending, retry_session_pending};
use crate::storage::sessions::{list_sessions, set_session_title};
use crate::storage::types::{
    AudioChunkRecord, JobState, SessionRecord, SessionState, TranscriptionJobRecord,
};
use crate::storage::{find_session, Store, Tables};
use crate::text;
use crate::timeutil::{parse_rfc3339, parsed_time, seconds_between, UtcTime};
use crate::tree::{
    fields_model, flag_value, holds_field, items_model, json_text, list_value, number_value,
    object_value, optional_text, optional_value, ordered_text, put, text_value, Tree, TreeModel,
};
use vstd::prelude::*;

verus! {

/// What a request can ask for.
#[derive(Clone, Copy, Debug, PartialEq, Eq, Structural)]
pub enum Op {
    Status,
    Stop,
    Subscribe,
    StartRecording,
    StopRecording,
    PauseRecording,
    ResumeRecording,
    GetState,
    ListSessions,
    GetSession,
    RenameSession,
    RetrySession,
    RetranscribeSession,
    DeleteSessionAudio,
    DeleteSession,
    GetConfig,
    UpdateConfig,
    GetDiagnostics,
    ListDevices,
    CleanupPreview,
    CleanupApply,
}

/// What a request of this name asks for.
pub open spec fn op_named(op: Seq<char>) -> Option<Op> {
    if op == "status"@ {
        Some(Op::Status)
    } else if op == "stop"@ {
        Some(Op::Stop)
    } else if op == "subscribe"@ {
        Some(Op::Subscribe)
    } else if op == "start_recording"@ {
        Some(Op::StartRecording)
    } else if op == "stop_recording"@ {
        Some(Op::StopRecording)
    } else if op == "pause_recording"@ {
        Some(Op::PauseRecording)
    } else if op == "resume_recording"@ {
        Some(Op::ResumeRecording)
    } else if op == "get_state"@ {
        Some(Op::GetState)
    } else if op == "list_sessions"@ {
        Some(Op::ListSessions)
    } else if op == "get_session"@ {
        Some(Op::GetSession)
    } else if op == "rename_session"@ {
        Some(Op::RenameSession)
    } else if op == "retry_session"@ {
        Some(Op::RetrySession)
    } else if op == "retranscribe_session"@ {
        Some(Op::RetranscribeSession)
    } else if op == "delete_session_audio"@ {
        Some(Op::DeleteSessionAudio)
    } else if op == "delete_session"@ {
        Some(Op::DeleteSession)
    } else if op == "get_config"@ {
        Some(Op::GetConfig)
    } else if op == "update_config"@ {
        Some(Op::UpdateConfig)
    } else if op == "get_diagnostics"@ {
        Some(Op::GetDiagnostics)
    } else if op == "list_devices"@ {
        Some(Op::ListDevices)
    } else if op == "cleanup_preview"@ {
        Some(Op::CleanupPreview)
    } else if op == "cleanup_apply"@ {
        Some(Op::CleanupApply)
    } else {
        None
    }
}

/// What a request asks for, or the answer to one that asks for nothing known.
pub fn route(op: &str) -> (r: std::result::Result<Op, Response>)
    ensures
        match op_named(op@) {
            Some(known) => r matches Ok(o) && o == known,
            None => r matches Err(answer) && is_error(
                answer,
                "unknown op '"@ + op@ + "'"@,
                None,
                None,
            ),
        },
{
    if text::same(op, "status") {
        Ok(Op::Status)
    } else if text::same(op, "stop") {
        Ok(Op::Stop)
    } else if text::same(op, "subscribe") {
        Ok(Op::Subscribe)
    } else if text::same(op, "start_recording") {
        Ok(Op::StartRecording)
    } else if text::same(op, "stop_recording") {
        Ok(Op::StopRecording)
    } else if text::same(op, "pause_recording") {
        Ok(Op::PauseRecording)
    } else if text::same(op, "resume_recording") {
        Ok(Op::ResumeRecording)
    } else if text::same(op, "get_state") {
        Ok(Op::GetState)
    } else if text::same(op, "list_sessions") {
        Ok(Op::ListSessions)
    } else if text::same(op, "get_session") {
        Ok(Op::GetSession)
    } else if text::same(op, "rename_session") {
        Ok(Op::RenameSession)
    } else if text::same(op, "retry_session") {
        Ok(Op::RetrySession)
    } else if text::same(op, "retranscribe_session") {
        Ok(Op::RetranscribeSession)
    } else if text::same(op, "delete_session_audio") {
        Ok(Op::DeleteSessionAudio)
    } else if text::same(op, "delete_session") {
        Ok(Op::DeleteSession)
    } else if text::same(op, "get_config") {
        Ok(Op::GetConfig)
    } else if text::same(op, "update_config") {
        Ok(Op::UpdateConfig)
    } else if text::same(op, "get_diagnostics") {
        Ok(Op::GetDiagnostics)
    } else if text::same(op, "list_devices") {
        Ok(Op::ListDevices)
    } else if text::same(op, "cleanup_preview") {
        Ok(Op::CleanupPreview)
    } else if text::same(op, "cleanup_apply") {
        Ok(Op::CleanupApply)
    } else {
        let message = text::concat3("unknown op '", op, "'");
        Err(Response::error(message.as_str()))
    }
}

/// The answer to a request that failed.
pub fn failure_line(error: &AppError) -> (r: String)
    ensures
        exists|answer: Response|
            is_error(answer, crate::error::shown(error@), None, None) && r@
                == #[trigger] ordered_text(response_model(answer)),
{
    let answer = Response::error(error.to_string().as_str());
    encode_response(&answer)
}

/// Whether a line is this error.
pub open spec fn is_error_line(
    line: Seq<char>,
    message: Seq<char>,
    code: Option<Seq<char>>,
) -> bool {
    exists|answer: Response|
        is_error(answer, message, code, None) && line == #[trigger] ordered_text(
            response_model(answer),
        )
}

fn error_line(message: &str) -> (r: String)
    ensures
        is_error_line(r@, message@, None),
{
    let answer = Response::error(message);
    encode_response(&answer)
}

fn error_code_line(code: &str, message: &str) -> (r: String)
    ensures
        is_error_line(r@, message@, Some(code@)),
{
    let answer = Response::error_code(code, message);
    encode_response(&answer)
}

/// Pauses or resumes a recording.
pub fn set_paused(status: &mut RuntimeStatus, paused: bool) -> (r: String)
    ensures
        if !old(status).capture_active {
            is_error_line(r@, "no meeting is active"@, None) && *final(status) == *old(status)
        } else {
            &&& r@ == json_text(ok_model(seq![("paused"@, TreeModel::Bool(paused))]))
            &&& *final(status) == (RuntimeStatus { capture_paused: paused, ..*old(status) })
        },
{
    if !status.capture_active {
        return error_line("no meeting is active");
    }
    status.capture_paused = paused;
    let mut f: Vec<(String, Tree)> = Vec::new();
    put(&mut f, "paused", flag_value(paused));
    assert(fields_model(f@) =~= seq![("paused"@, TreeModel::Bool(paused))]);
    encode_ok(f)
}

/// What came of asking for a recording.
#[derive(Debug)]
pub enum StartReply {
    Unavailable,
    ShuttingDown,
    Cancelled,
    Failed(AppError),
    Started(String),
}

/// The answer to a request for a recording.
pub fn start_line(reply: &StartReply) -> (r: String)
    ensures
        match *reply {
            StartReply::Unavailable => is_error_line(
                r@,
                "recording control is not available"@,
                Some("unavailable"@),
            ),
            StartReply::ShuttingDown => is_error_line(r@, "daemon is shutting down"@, None),
            StartReply::Cancelled => is_error_line(r@, "recording start was cancelled"@, None),
            StartReply::Failed(e) => is_error_line(r@, crate::error::shown(e@), None),
            StartReply::Started(id) => r@ == json_text(
                ok_model(seq![("session_id"@, TreeModel::Text(id@))]),
            ),
        },
{
    match reply {
        StartReply::Unavailable => error_code_line(
            "unavailable",
            "recording control is not available",
        ),
        StartReply::ShuttingDown => error_line("daemon is shutting down"),
        StartReply::Cancelled => error_line("recording start was cancelled"),
        StartReply::Failed(e) => error_line(e.to_string().as_str()),
        StartReply::Started(id) => {
            let mut f: Vec<(String, Tree)> = Vec::new();
            put(&mut f, "session_id", text_value(id.as_str()));
            assert(fields_model(f@) =~= seq![("session_id"@, TreeModel::Text(id@))]);
            encode_ok(f)
        },
    }
}

/// What came of asking for the end of a recording.
#[derive(Debug)]
pub enum StopReply {
    Unavailable,
    ShuttingDown,
    Cancelled,
    Failed(AppError),
    Stopped(StopOutcome),
}

/// The answer to a request for the end of a recording.
pub fn stop_line(reply: &StopReply) -> (r: String)
    ensures
        match *reply {
            StopReply::Unavailable => is_error_line(
                r@,
                "recording control is not available"@,
                Some("unavailable"@),
            ),
            StopReply::ShuttingDown => is_error_line(r@, "daemon is shutting down"@, None),
            StopReply::Cancelled => is_error_line(r@, "recording stop was cancelled"@, None),
            StopReply::Failed(e) => is_error_line(r@, crate::error::shown(e@), None),
            StopReply::Stopped(o) => r@ == json_text(
                ok_model(
                    seq![
                        ("session_id"@, TreeModel::Text(o.session_id@)),
                        (
                            "duration_secs"@,
                            TreeModel::Number(text::decimal(o.duration_secs as nat)),
                        ),
                        ("transcription_pending"@, TreeModel::Bool(o.transcription_pending)),
                    ],
                ),
            ),
        },
{
    match reply {
        StopReply::Unavailable => error_code_line(
            "unavailable",
            "recording control is not available",
        ),
        StopReply::ShuttingDown => error_line("daemon is shutting down"),
        StopReply::Cancelled => error_line("recording stop was cancelled"),
        StopReply::Failed(e) => error_line(e.to_string().as_str()),
        StopReply::Stopped(o) => {
            let mut f: Vec<(String, Tree)> = Vec::new();
            put(&mut f, "session_id", text_value(o.session_id.as_str()));
            put(&mut f, "duration_secs", number_value(o.duration_secs));
            put(&mut f, "transcription_pending", flag_value(o.transcription_pending));
            assert(fields_model(f@) =~= seq![
                ("session_id"@, TreeModel::Text(o.session_id@)),
                ("duration_secs"@, TreeModel::Number(text::decimal(o.duration_secs as nat))),
                ("transcription_pending"@, TreeModel::Bool(o.transcription_pending)),
            ]);
            encode_ok(f)
        },
    }
}

/// The state that the panel of the desktop shows.
pub open spec fn panel_text(recording: bool, processing: bool, attention: bool) -> Seq<char> {
    if recording {
        "recording"@
    } else if attention {
        "attention"@
    } else if processing {
        "transcribing"@
    } else {
        "idle"@
    }
}

pub fn panel_state(recording: bool, processing: u64, attention: bool) -> (r: &'static str)
    ensures
        r@ == panel_text(recording, processing > 0, attention),
{
    if recording {
        "recording"
    } else if attention {
        "attention"
    } else if processing > 0 {
        "transcribing"
    } else {
        "idle"
    }
}

/// Why the user should look after the service.
pub open spec fn panel_trouble(
    config: Config,
    pending: u64,
    executable_exists: bool,
    model_is_file: bool,
) -> Option<Seq<char>> {
    if config.transcription.provider != ProviderKind::WhisperCpp || pending == 0 {
        None
    } else if !executable_exists {
        Some("whisper-cli was not found at "@ + config.transcription.whisper_cpp.executable@)
    } else if !model_is_file {
        Some("whisper.cpp model was not found at "@ + config.transcription.whisper_cpp.model@)
    } else {
        None
    }
}

/// Why the user should look after the service. `executable_exists` and `model_is_file`
/// say whether what whisper.cpp needs is there.
pub fn panel_attention(
    config: &Config,
    pending: u64,
    executable_exists: bool,
    model_is_file: bool,
) -> (r: Option<String>)
    ensures
        text::text_of(r) == panel_trouble(*config, pending, executable_exists, model_is_file),
{
    if config.transcription.provider != ProviderKind::WhisperCpp || pending == 0 {
        None
    } else if !executable_exists {
        Some(
            text::concat2(
                "whisper-cli was not found at ",
                config.transcription.whisper_cpp.executable.as_str(),
            ),
        )
    } else if !model_is_file {
        Some(
            text::concat2(
                "whisper.cpp model was not found at ",
                config.transcription.whisper_cpp.model.as_str(),
            ),
        )
    } else {
        None
    }
}

/// What a device is called: its description, or else its identifier.
pub open spec fn device_label(device: Option<AudioDevice>) -> Seq<char> {
    match device {
        Some(d) => if d.description@.len() > 0 {
            d.description@
        } else {
            d.id@
        },
        None => "Unavailable"@,
    }
}

pub open spec fn state_name(state: SourceUiState) -> Seq<char> {
    match state {
        SourceUiState::Idle => "idle"@,
        SourceUiState::Capturing => "capturing"@,
        SourceUiState::Unavailable => "unavailable"@,
        SourceUiState::Reconnecting => "reconnecting"@,
    }
}

pub open spec fn source_model(device: Option<AudioDevice>, state: SourceUiState) -> TreeModel {
    TreeModel::Object(
        seq![
            ("label"@, TreeModel::Text(device_label(device))),
            ("state"@, TreeModel::Text(state_name(state))),
        ],
    )
}

pub open spec fn opt_device(device: Option<&AudioDevice>) -> Option<AudioDevice> {
    match device {
        Some(d) => Some(*d),
        None => None,
    }
}

/// A source of audio as the desktop shows it.
pub fn source_json(device: Option<&AudioDevice>, state: SourceUiState) -> (r: Tree)
    ensures
        r@ == source_model(opt_device(device), state),
{
    let label = match device {
        Some(d) => {
            if d.description.as_str().is_empty() {
                d.id.clone()
            } else {
                d.description.clone()
            }
        },
        None => "Unavailable".to_owned(),
    };
    let state_text = match state {
        SourceUiState::Idle => "idle",
        SourceUiState::Capturing => "capturing",
        SourceUiState::Unavailable => "unavailable",
        SourceUiState::Reconnecting => "reconnecting",
    };
    let mut f: Vec<(String, Tree)> = Vec::new();
    put(&mut f, "label", text_value(label.as_str()));
    put(&mut f, "state", text_value(state_text));
    assert(fields_model(f@) =~= source_model(opt_device(device), state)->Object_0);
    object_value(f)
}

/// A source of audio as the desktop shows it: the one that is recorded, or else the one
/// that would be. `resolved` is the device that the settings name, where it is there.
pub fn source_status_json(
    resolved: Option<&AudioDevice>,
    recorded: Option<&AudioDevice>,
    recorded_state: SourceUiState,
    capture_active: bool,
) -> (r: Tree)
    ensures
        r@ == if capture_active {
            source_model(opt_device(recorded), recorded_state)
        } else {
            source_model(
                opt_device(resolved),
                if resolved is Some {
                    SourceUiState::Idle
                } else {
                    SourceUiState::Unavailable
                },
            )
        },
{
    if capture_active {
        return source_json(recorded, recorded_state);
    }
    match resolved {
        Some(device) => source_json(Some(device), SourceUiState::Idle),
        None => source_json(None, SourceUiState::Unavailable),
    }
}

/// How long a meeting lasted, or lasts until now.
pub open spec fn meeting_secs(session: SessionRecord, now: UtcTime) -> int {
    match parsed_time(session.started_at@) {
        None => 0,
        Some(start) => {
            let end = match session.ended_at {
                Some(at) => match parsed_time(at@) {
                    Some(t) => t,
                    None => now,
                },
                None => now,
            };
            if seconds_between(start, end) < 0 {
                0
            } else {
                seconds_between(start, end)
            }
        },
    }
}

/// How many seconds a meeting lasted, or lasts until now.
pub fn session_duration_secs(session: &SessionRecord, now: UtcTime) -> (r: u64)
    requires
        now.wf(),
    ensures
        r == meeting_secs(*session, now),
        r <= i64::MAX,
{
    let start = match parse_rfc3339(session.started_at.as_str()) {
        Ok(t) => t,
        Err(_) => return 0,
    };
    let end = match &session.ended_at {
        Some(at) => match parse_rfc3339(at.as_str()) {
            Ok(t) => t,
            Err(_) => now,
        },
        None => now,
    };
    start.seconds_until(end)
}

/// The identifier that a request names.
pub open spec fn named_session(session_id: Option<Seq<char>>) -> Option<Seq<char>> {
    match session_id {
        Some(id) => if text::is_blank(id) {
            None
        } else {
            Some(text::trimmed(id))
        },
        None => None,
    }
}

/// The identifier that a request has to name.
pub fn require_session_id(session_id: &Option<String>) -> (r: Result<String>)
    ensures
        match named_session(text::text_of(*session_id)) {
            Some(id) => r matches Ok(s) && s@ == id,
            None => fails(r, ErrorKind::Control, "session_id is required"@),
        },
{
    if let Some(id) = session_id {
        let id = text::trim(id.as_str());
        if !id.as_str().is_empty() {
            return Ok(id);
        }
    }
    Err(AppError::control("session_id is required"))
}

/// A session with what is known of it: the rows that belong to it, whether the audio of
/// each chunk is there, and whether its transcript is.
#[derive(Debug)]
pub struct SessionView {
    pub session: SessionRecord,
    pub chunks: Vec<AudioChunkRecord>,
    pub jobs: Vec<TranscriptionJobRecord>,
    pub transcribed: Vec<String>,
    pub audio_present: Vec<bool>,
    pub transcript_exists: bool,
}

/// How many jobs are complete.
pub open spec fn complete_jobs(jobs: Seq<TranscriptionJobRecord>) -> nat
    decreases jobs.len(),
{
    if jobs.len() == 0 {
        0
    } else {
        complete_jobs(jobs.drop_last()) + if jobs.last().state == JobState::Completed {
            1nat
        } else {
            0nat
        }
    }
}

fn count_complete(jobs: &Vec<TranscriptionJobRecord>) -> (r: u64)
    ensures
        r == complete_jobs(jobs@),
{
    let mut n: u64 = 0;
    let mut i: usize = 0;
    while i < jobs.len()
        invariant
            i <= jobs@.len(),
            n == complete_jobs(jobs@.take(i as int)),
            n <= i,
        decreases jobs.len() - i,
    {
        assert(jobs@.take(i + 1).drop_last() =~= jobs@.take(i as int));
        if jobs[i].state == JobState::Completed {
            n += 1;
        }
        i += 1;
    }
    assert(jobs@.take(i as int) =~= jobs@);
    n
}

/// Whether some job is not complete.
pub open spec fn some_job_open(jobs: Seq<TranscriptionJobRecord>) -> bool {
    exists|i: int| 0 <= i < jobs.len() && (#[trigger] jobs[i]).state != JobState::Completed
}

fn has_open_job(jobs: &Vec<TranscriptionJobRecord>) -> (r: bool)
    ensures
        r == some_job_open(jobs@),
{
    let mut i: usize = 0;
    while i < jobs.len()
        invariant
            i <= jobs@.len(),
            forall|k: int| 0 <= k < i ==> (#[trigger] jobs@[k]).state == JobState::Completed,
        decreases jobs.len() - i,
    {
        if jobs[i].state != JobState::Completed {
            return true;
        }
        i += 1;
    }
    false
}

/// Whether the audio of a session may be deleted: it does not run, it has audio, and all
/// of it has a transcript.
pub open spec fn audio_deletable(
    session: SessionRecord,
    chunks: Seq<AudioChunkRecord>,
    transcribed: Seq<Seq<char>>,
) -> bool {
    chunks.len() > 0 && session.state != SessionState::Running && all_transcribed(
        chunks,
        transcribed,
    )
}

fn every_chunk_has_words(chunks: &Vec<AudioChunkRecord>, ids: &Vec<String>) -> (r: bool)
    ensures
        r == all_transcribed(chunks@, text::views(ids@)),
{
    let mut i: usize = 0;
    while i < chunks.len()
        invariant
            i <= chunks@.len(),
            forall|k: int|
                0 <= k < i ==> text::views(ids@).contains((#[trigger] chunks@[k]).id@),
        decreases chunks.len() - i,
    {
        if !text::is_among(ids, chunks[i].id.as_str()) {
            return false;
        }
        i += 1;
    }
    true
}

pub open spec fn number_model(n: nat) -> TreeModel {
    TreeModel::Number(text::decimal(n))
}

/// A session as the desktop shows it. `title` is how it is called.
pub open spec fn session_model(
    paths: crate::paths::Roots,
    v: SessionView,
    title: Seq<char>,
    ctx: StatusContext<'_>,
) -> TreeModel {
    let session = v.session;
    let ids = text::views(v.transcribed@);
    let status = ui_status(session, v.chunks@, v.audio_present@, v.jobs@, ids, ctx);
    let dir = paths.session_dir(session.id@);
    let secs = meeting_secs(session, ctx.now);
    TreeModel::Object(
        seq![
            ("id"@, TreeModel::Text(session.id@)),
            ("title"@, TreeModel::Text(title)),
            ("stored_title"@, optional_text(text::text_of(session.title))),
            ("state"@, TreeModel::Text(session.state.name())),
            ("ui_status"@, TreeModel::Text(status.name())),
            ("ui_status_label"@, TreeModel::Text(status.label())),
            ("started_at"@, TreeModel::Text(session.started_at@)),
            ("ended_at"@, optional_text(text::text_of(session.ended_at))),
            ("duration_secs"@, number_model(secs as nat)),
            ("duration_label"@, TreeModel::Text(duration_text(secs))),
            ("chunk_count"@, number_model(v.chunks@.len())),
            ("completed_jobs"@, number_model(complete_jobs(v.jobs@))),
            ("session_dir"@, TreeModel::Text(dir)),
            ("transcript_md"@, TreeModel::Text(joined_path(dir, "transcript.md"@))),
            ("transcript_exists"@, TreeModel::Bool(v.transcript_exists)),
            ("can_delete_audio"@, TreeModel::Bool(audio_deletable(session, v.chunks@, ids))),
            ("can_delete_session"@, TreeModel::Bool(session.state != SessionState::Running)),
            (
                "can_retry"@,
                TreeModel::Bool(
                    (status == UiSessionStatus::WaitingRetry || status
                        == UiSessionStatus::Attention || status == UiSessionStatus::Interrupted)
                        && some_job_open(v.jobs@),
                ),
            ),
        ],
    )
}

/// Whether this is how a session is called.
pub open spec fn is_title_of(title: Seq<char>, session: SessionRecord) -> bool {
    match given_title(session) {
        Some(t) => title == t,
        None => is_fallback(title, session.started_at@),
    }
}

/// A session as the desktop shows it.
pub fn session_json(paths: &PathResolver, v: &SessionView, ctx: &StatusContext<'_>) -> (r: Tree)
    requires
        v.audio_present@.len() == v.chunks@.len(),
        ctx.now.wf(),
    ensures
        exists|title: Seq<char>|
            is_title_of(title, v.session) && r@ == #[trigger] session_model(
                paths@,
                *v,
                title,
                *ctx,
            ),
{
    let session = &v.session;
    let status = derive_ui_status(
        session,
        &v.chunks,
        &v.audio_present,
        &v.jobs,
        &v.transcribed,
        ctx,
    );
    let title = display_title(session);
    let secs = session_duration_secs(session, ctx.now);
    let dir = paths.session_dir(session.id.as_str());
    let transcript = join(dir.as_str(), "transcript.md");
    let running = session.state == SessionState::Running;
    let deletable = v.chunks.len() > 0 && !running && every_chunk_has_words(
        &v.chunks,
        &v.transcribed,
    );
    let retry = (status == UiSessionStatus::WaitingRetry || status == UiSessionStatus::Attention
        || status == UiSessionStatus::Interrupted) && has_open_job(&v.jobs);
    let mut f: Vec<(String, Tree)> = Vec::new();
    put(&mut f, "id", text_value(session.id.as_str()));
    put(&mut f, "title", text_value(title.as_str()));
    put(&mut f, "stored_title", optional_value(&session.title));
    put(&mut f, "state", text_value(session.state.as_str()));
    put(&mut f, "ui_status", text_value(status.as_str()));
    put(&mut f, "ui_status_label", text_value(status.display_label()));
    put(&mut f, "started_at", text_value(session.started_at.as_str()));
    put(&mut f, "ended_at", optional_value(&session.ended_at));
    put(&mut f, "duration_secs", number_value(secs));
    put(&mut f, "duration_label", text_value(format_duration_secs(secs as i64).as_str()));
    put(&mut f, "chunk_count", number_value(v.chunks.len() as u64));
    put(&mut f, "completed_jobs", number_value(count_complete(&v.jobs)));
    put(&mut f, "session_dir", text_value(dir.as_str()));
    put(&mut f, "transcript_md", text_value(transcript.as_str()));
    put(&mut f, "transcript_exists", flag_value(v.transcript_exists));
    put(&mut f, "can_delete_audio", flag_value(deletable));
    put(&mut f, "can_delete_session", flag_value(!running));
    put(&mut f, "can_retry", flag_value(retry));
    assert(fields_model(f@) =~= session_model(paths@, *v, title@, *ctx)->Object_0);
    object_value(f)
}

/// The sessions that do not run, in their order.
pub open spec fn not_running() -> spec_fn(SessionRecord) -> bool {
    |s: SessionRecord| s.state != SessionState::Running
}

/// The last sessions that are over, at most five.
pub open spec fn recent(sessions: Seq<SessionRecord>) -> Seq<SessionRecord> {
    let over = ranked(sessions).filter(not_running());
    if over.len() <= 5 {
        over
    } else {
        over.take(5)
    }
}

/// The last sessions that are over, at most five, the latest first.
pub fn recent_sessions(store: &Store) -> (r: Vec<SessionRecord>)
    ensures
        r@ == recent(store.sessions@),
{
    let all = list_sessions(store);
    let ghost p = not_running();
    let mut r: Vec<SessionRecord> = Vec::new();
    let mut i: usize = 0;
    assert(all@.take(0).filter(p) =~= Seq::empty()) by {
        reveal(Seq::filter);
    }
    while i < all.len()
        invariant
            i <= all@.len(),
            p == not_running(),
            r@ == if all@.take(i as int).filter(p).len() <= 5 {
                all@.take(i as int).filter(p)
            } else {
                all@.take(i as int).filter(p).take(5)
            },
        decreases all.len() - i,
    {
        let ghost before = all@.take(i as int).filter(p);
        proof {
            assert(all@.take(i + 1).drop_last() =~= all@.take(i as int));
            reveal(Seq::filter);
        }
        if all[i].state != SessionState::Running {
            let ghost after = before.push(all@[i as int]);
            if r.len() < 5 {
                r.push(all[i].clone());
            } else {
                proof {
                    assert(after.take(5) =~= before.take(5));
                    if before.len() == 5 {
                        assert(before.take(5) =~= before);
                    }
                }
            }
        }
        i += 1;
    }
    assert(all@.take(i as int) =~= all@);
    r
}

/// The meetings that are shown are at most five, and none of them is being recorded.
pub proof fn law_recent_meetings_are_over(sessions: Seq<SessionRecord>, i: int)
    ensures
        recent(sessions).len() <= 5,
        0 <= i < recent(sessions).len() ==> recent(sessions)[i].state != SessionState::Running,
{
    let all = ranked(sessions);
    let over = all.filter(not_running());
    if 0 <= i < recent(sessions).len() {
        all.lemma_filter_pred(not_running(), i);
        assert(recent(sessions)[i] == over[i]);
    }
}

/// The state of the service as the desktop shows it.
pub open spec fn state_model(
    version: Seq<char>,
    status: RuntimeStatus,
    jobs: (u64, u64, u64),
    attention: Option<Seq<char>>,
    microphone: TreeModel,
    system_audio: TreeModel,
    recent: Seq<TreeModel>,
) -> Seq<(Seq<char>, TreeModel)> {
    seq![
        ("daemon_version"@, TreeModel::Text(version)),
        (
            "recording"@,
            TreeModel::Object(
                seq![
                    ("active"@, TreeModel::Bool(status.capture_active)),
                    ("paused"@, TreeModel::Bool(status.capture_paused)),
                    ("session_id"@, optional_text(text::text_of(status.session_id))),
                    ("started_at"@, optional_text(text::text_of(status.session_started_at))),
                    ("microphone"@, microphone),
                    ("system_audio"@, system_audio),
                ],
            ),
        ),
        (
            "panel"@,
            TreeModel::Object(
                seq![
                    (
                        "state"@,
                        TreeModel::Text(
                            panel_text(status.capture_active, jobs.1 > 0, attention is Some),
                        ),
                    ),
                    ("pending_jobs"@, number_model(jobs.0 as nat)),
                    ("processing_jobs"@, number_model(jobs.1 as nat)),
                    ("completed_jobs"@, number_model(jobs.2 as nat)),
                ],
            ),
        ),
        (
            "attention"@,
            TreeModel::Object(
                seq![
                    ("required"@, TreeModel::Bool(attention is Some)),
                    ("message"@, optional_text(attention)),
                ],
            ),
        ),
        ("recent_sessions"@, TreeModel::List(recent)),
    ]
}

fn recording_tree(status: &RuntimeStatus, microphone: Tree, system_audio: Tree) -> (r: Tree)
    ensures
        r@ == TreeModel::Object(
            seq![
                ("active"@, TreeModel::Bool(status.capture_active)),
                ("paused"@, TreeModel::Bool(status.capture_paused)),
                ("session_id"@, optional_text(text::text_of(status.session_id))),
                ("started_at"@, optional_text(text::text_of(status.session_started_at))),
                ("microphone"@, microphone@),
                ("system_audio"@, system_audio@),
            ],
        ),
{
    let ghost (m, s) = (microphone@, system_audio@);
    let mut f: Vec<(String, Tree)> = Vec::new();
    put(&mut f, "active", flag_value(status.capture_active));
    put(&mut f, "paused", flag_value(status.capture_paused));
    put(&mut f, "session_id", optional_value(&status.session_id));
    put(&mut f, "started_at", optional_value(&status.session_started_at));
    put(&mut f, "microphone", microphone);
    put(&mut f, "system_audio", system_audio);
    assert(fields_model(f@) =~= seq![
        ("active"@, TreeModel::Bool(status.capture_active)),
        ("paused"@, TreeModel::Bool(status.capture_paused)),
        ("session_id"@, optional_text(text::text_of(status.session_id))),
        ("started_at"@, optional_text(text::text_of(status.session_started_at))),
        ("microphone"@, m),
        ("system_audio"@, s),
    ]);
    object_value(f)
}

/// The state of the service as the desktop shows it.
pub fn get_state(
    version: &str,
    status: &RuntimeStatus,
    jobs: (u64, u64, u64),
    attention: &Option<String>,
    microphone: Tree,
    system_audio: Tree,
    recent: Vec<Tree>,
) -> (r: String)
    ensures
        r@ == json_text(
            ok_model(
                state_model(
                    version@,
                    *status,
                    jobs,
                    text::text_of(*attention),
                    microphone@,
                    system_audio@,
                    items_model(recent@),
                ),
            ),
        ),
{
    let ghost model = state_model(
        version@,
        *status,
        jobs,
        text::text_of(*attention),
        microphone@,
        system_audio@,
        items_model(recent@),
    );
    let mut panel: Vec<(String, Tree)> = Vec::new();
    put(
        &mut panel,
        "state",
        text_value(panel_state(status.capture_active, jobs.1, attention.is_some())),
    );
    put(&mut panel, "pending_jobs", number_value(jobs.0));
    put(&mut panel, "processing_jobs", number_value(jobs.1));
    put(&mut panel, "completed_jobs", number_value(jobs.2));
    assert(fields_model(panel@) =~= model[2].1->Object_0);
    let mut told: Vec<(String, Tree)> = Vec::new();
    put(&mut told, "required", flag_value(attention.is_some()));
    put(&mut told, "message", optional_value(attention));
    assert(fields_model(told@) =~= model[3].1->Object_0);
    let mut f: Vec<(String, Tree)> = Vec::new();
    put(&mut f, "daemon_version", text_value(version));
    put(&mut f, "recording", recording_tree(status, microphone, system_audio));
    put(&mut f, "panel", object_value(panel));
    put(&mut f, "attention", object_value(told));
    put(&mut f, "recent_sessions", list_value(recent));
    assert(fields_model(f@) =~= model);
    encode_ok(f)
}

/// The sessions as the desktop shows them.
pub fn list_sessions_line(sessions: Vec<Tree>) -> (r: String)
    ensures
        r@ == json_text(
            ok_model(seq![("sessions"@, TreeModel::List(items_model(sessions@)))]),
        ),
{
    let ghost items = items_model(sessions@);
    let mut f: Vec<(String, Tree)> = Vec::new();
    put(&mut f, "sessions", list_value(sessions));
    assert(fields_model(f@) =~= seq![("sessions"@, TreeModel::List(items))]);
    encode_ok(f)
}

pub open spec fn unknown_session(id: Seq<char>) -> Seq<char> {
    "Session "@ + id + " not found"@
}

/// The session that a request names.
pub fn get_session(store: &Store, session_id: &Option<String>) -> (r: Result<SessionRecord>)
    ensures
        match named_session(text::text_of(*session_id)) {
            None => fails(r, ErrorKind::Control, "session_id is required"@),
            Some(id) => match find_session(store.sessions@, id) {
                Some(session) => r matches Ok(s) && s == session,
                None => fails(r, ErrorKind::Control, unknown_session(id)),
            },
        },
{
    let id = match require_session_id(session_id) {
        Ok(id) => id,
        Err(e) => return Err(e),
    };
    match store.session_index(id.as_str()) {
        Some(at) => Ok(store.sessions[at].clone()),
        None => {
            let message = text::concat3("Session ", id.as_str(), " not found");
            Err(AppError::control(message.as_str()))
        },
    }
}

/// One session as the desktop shows it.
pub fn session_line(session: Tree) -> (r: String)
    ensures
        r@ == json_text(ok_model(seq![("session"@, session@)])),
{
    let ghost model = session@;
    let mut f: Vec<(String, Tree)> = Vec::new();
    put(&mut f, "session", session);
    assert(fields_model(f@) =~= seq![("session"@, model)]);
    encode_ok(f)
}

/// The title that a request gives.
pub open spec fn asked_title(title: Option<Seq<char>>) -> std::result::Result<
    Seq<char>,
    Seq<char>,
> {
    let t = match title {
        Some(t) => text::trimmed(t),
        None => Seq::empty(),
    };
    if t.len() == 0 {
        Err("title must not be empty"@)
    } else if t.len() > 120 {
        Err("title must be 120 characters or fewer"@)
    } else {
        Ok(t)
    }
}

fn checked_title(title: &Option<String>) -> (r: Result<String>)
    ensures
        match asked_title(text::text_of(*title)) {
            Ok(t) => r matches Ok(s) && s@ == t,
            Err(message) => fails(r, ErrorKind::Control, message),
        },
{
    let t = match title {
        Some(t) => text::trim(t.as_str()),
        None => String::new(),
    };
    let count = text::chars_of(t.as_str()).len();
    if count == 0 {
        Err(AppError::control("title must not be empty"))
    } else if count > 120 {
        Err(AppError::control("title must be 120 characters or fewer"))
    } else {
        Ok(t)
    }
}

/// Whether a session got this title and nothing else changed.
pub open spec fn is_renamed(was: Tables, is: Tables, id: Seq<char>, title: Seq<char>) -> bool {
    &&& is.sessions.len() == was.sessions.len()
    &&& is == (Tables { sessions: is.sessions, ..was })
    &&& forall|k: int|
        #![trigger is.sessions[k]]
        0 <= k < was.sessions.len() ==> if was.sessions[k].id@ == id {
            &&& is.sessions[k] == (SessionRecord {
                title: is.sessions[k].title,
                ..was.sessions[k]
            })
            &&& is.sessions[k].title matches Some(t) && t@ == title
        } else {
            is.sessions[k] == was.sessions[k]
        }
}

/// Gives a session the title that a request asks for. Returns the answer and the
/// identifier of the session.
pub fn rename_session(
    store: &mut Store,
    session_id: &Option<String>,
    title: &Option<String>,
) -> (r: Result<(String, String)>)
    ensures
        match named_session(text::text_of(*session_id)) {
            None => fails(r, ErrorKind::Control, "session_id is required"@) && final(store)@ == old(
                store,
            )@,
            Some(id) => match asked_title(text::text_of(*title)) {
                Err(message) => fails(r, ErrorKind::Control, message) && final(store)@ == old(
                    store,
                )@,
                Ok(t) => if old(store)@.has_session(id) {
                    &&& r matches Ok((line, named)) && named@ == id && line@ == json_text(
                        ok_model(seq![("title"@, TreeModel::Text(t))]),
                    )
                    &&& is_renamed(old(store)@, final(store)@, id, t)
                } else {
                    fails(r, ErrorKind::Other, unknown_session(id)) && final(store)@ == old(store)@
                },
            },
        },
        old(store)@.wf() ==> final(store)@.wf(),
{
    let id = match require_session_id(session_id) {
        Ok(id) => id,
        Err(e) => return Err(e),
    };
    let title = match checked_title(title) {
        Ok(title) => title,
        Err(e) => return Err(e),
    };
    match set_session_title(store, id.as_str(), title.as_str()) {
        Ok(_) => {},
        Err(e) => return Err(e),
    }
    let mut f: Vec<(String, Tree)> = Vec::new();
    put(&mut f, "title", text_value(title.as_str()));
    assert(fields_model(f@) =~= seq![("title"@, TreeModel::Text(title@))]);
    Ok((encode_ok(f), id))
}

/// The answer to a request to try the jobs of a session again.
pub fn retried_line(updated: u64) -> (r: String)
    ensures
        r@ == json_text(ok_model(seq![("updated"@, number_model(updated as nat))])),
{
    let mut f: Vec<(String, Tree)> = Vec::new();
    put(&mut f, "updated", number_value(updated));
    assert(fields_model(f@) =~= seq![("updated"@, number_model(updated as nat))]);
    encode_ok(f)
}

/// The jobs of a meeting once those that wait are due.
pub open spec fn hurried_in_session(tables: Tables, session_id: Seq<char>, now: String) -> Seq<
    TranscriptionJobRecord,
> {
    tables.jobs.map_values(
        |j: TranscriptionJobRecord|
            if belongs_to(j, tables.chunks, session_id) {
                hurried(j, None, now)
            } else {
                j
            },
    )
}

/// Makes the jobs of a session that wait due at once. Returns the answer and the
/// identifier of the session.
pub fn retry_session(store: &mut Store, session_id: &Option<String>, now: &String) -> (r: Result<
    (String, String),
>)
    ensures
        match named_session(text::text_of(*session_id)) {
            None => fails(r, ErrorKind::Control, "session_id is required"@) && final(store)@ == old(
                store,
            )@,
            Some(id) => {
                &&& r matches Ok((line, named)) && named@ == id && line@ == json_text(
                    ok_model(
                        seq![
                            (
                                "updated"@,
                                number_model(
                                    count_jobs(
                                        old(store)@.jobs,
                                        |j: TranscriptionJobRecord|
                                            is_pending(j) && belongs_to(j, old(store)@.chunks, id),
                                    ),
                                ),
                            ),
                        ],
                    ),
                )
                &&& final(store)@ == (Tables {
                    jobs: hurried_in_session(old(store)@, id, *now),
                    ..old(store)@
                })
            },
        },
        old(store)@.wf() ==> final(store)@.wf(),
{
    let id = match require_session_id(session_id) {
        Ok(id) => id,
        Err(e) => return Err(e),
    };
    let updated = retry_session_pending(store, id.as_str(), now);
    assert(store@.jobs =~= hurried_in_session(old(store)@, id@, *now));
    Ok((retried_line(updated as u64), id))
}

/// The provider and model that a session is transcribed with again, where the request
/// names one that the settings allow.
pub fn retranscription(provider: &Option<String>, config: &Config) -> (r: Result<
    (ProviderKind, String),
>)
    ensures
        match crate::config::provider_named(
            match *provider {
                Some(p) => p@,
                None => Seq::empty(),
            },
        ) {
            Err(message) => fails(r, ErrorKind::Config, message),
            Ok(kind) => match crate::config::language_conflict(
                kind,
                text::views(config.transcription.languages@),
            ) {
                Some(message) => fails(r, ErrorKind::Config, message),
                None => r matches Ok((k, model)) && k == kind && model@ == config.model_text(kind),
            },
        },
{
    let named = match provider {
        Some(p) => p.clone(),
        None => String::new(),
    };
    assert(provider is None ==> named@ =~= Seq::empty());
    let kind = match ProviderKind::parse(named.as_str()) {
        Ok(kind) => kind,
        Err(e) => return Err(e),
    };
    match assert_languages_compatible(
        kind,
        config.transcription.model.as_str(),
        &config.transcription.languages,
    ) {
        Ok(_) => {},
        Err(e) => return Err(e),
    }
    Ok((kind, config.model_for_provider(kind)))
}

/// The answer to a request to transcribe a session again.
pub fn retranscribed_line(run_id: &str, count: u64) -> (r: String)
    ensures
        r@ == json_text(
            ok_model(
                seq![("run_id"@, TreeModel::Text(run_id@)), ("count"@, number_model(count as nat))],
            ),
        ),
{
    let mut f: Vec<(String, Tree)> = Vec::new();
    put(&mut f, "run_id", text_value(run_id));
    put(&mut f, "count", number_value(count));
    assert(fields_model(f@) =~= seq![
        ("run_id"@, TreeModel::Text(run_id@)),
        ("count"@, number_model(count as nat)),
    ]);
    encode_ok(f)
}

/// The files of a session's audio that are deleted, and whether there is one that may
/// not be, at which the deletion stops.
#[derive(Debug)]
pub struct AudioDeletion {
    pub session_id: String,
    pub files: Vec<String>,
    pub refused: bool,
}

/// The files of chunks up to the first that lies outside a directory.
pub open spec fn files_within(chunks: Seq<AudioChunkRecord>, dir: Seq<char>) -> Seq<Seq<char>>
    decreases chunks.len(),
{
    if chunks.len() == 0 || !lies_within(chunks[0].file_path@, dir) {
        Seq::empty()
    } else {
        seq![chunks[0].file_path@] + files_within(chunks.drop_first(), dir)
    }
}

/// Which audio files of a session are deleted.
pub fn delete_session_audio(
    paths: &PathResolver,
    store: &Store,
    session_id: &Option<String>,
) -> (r: Result<AudioDeletion>)
    ensures
        match named_session(text::text_of(*session_id)) {
            None => fails(r, ErrorKind::Control, "session_id is required"@),
            Some(id) => match find_session(store.sessions@, id) {
                None => fails(r, ErrorKind::Control, unknown_session(id)),
                Some(session) => {
                    let chunks = ranked(chunks_of(store.chunks@, id));
                    if session.state == SessionState::Running {
                        fails(
                            r,
                            ErrorKind::Control,
                            "cannot delete audio for an active recording"@,
                        )
                    } else if chunks.len() == 0 || exists|c: int|
                        0 <= c < chunks.len() && !is_transcribed(
                            store.events@,
                            id,
                            (#[trigger] chunks[c]).id@,
                        ) {
                        fails(
                            r,
                            ErrorKind::Control,
                            "audio can be deleted only after every chunk has a transcript"@,
                        )
                    } else {
                        let within = files_within(chunks, paths@.session_dir(id));
                        r matches Ok(d) && d.session_id@ == id && text::views(d.files@) == within
                            && d.refused == (within.len() < chunks.len())
                    }
                },
            },
        },
{
    let session = match get_session(store, session_id) {
        Ok(session) => session,
        Err(e) => return Err(e),
    };
    let id = match require_session_id(session_id) {
        Ok(id) => id,
        Err(e) => return Err(e),
    };
    if session.state == SessionState::Running {
        return Err(AppError::control("cannot delete audio for an active recording"));
    }
    let chunks = list_chunks_for_session(store, id.as_str());
    let transcribed = transcribed_chunk_ids(store, id.as_str());
    let whole = every_chunk_has_words(&chunks, &transcribed);
    proof {
        let ids = text::views(transcribed@);
        if whole {
            assert forall|c: int| 0 <= c < chunks@.len() implies is_transcribed(
                store.events@,
                id@,
                (#[trigger] chunks@[c]).id@,
            ) by {
                assert(ids.contains(chunks@[c].id@));
            }
        } else {
            let c = choose|c: int|
                0 <= c < chunks@.len() && !ids.contains((#[trigger] chunks@[c]).id@);
            assert(!is_transcribed(store.events@, id@, chunks@[c].id@));
        }
    }
    if chunks.len() == 0 || !whole {
        return Err(
            AppError::control("audio can be deleted only after every chunk has a transcript"),
        );
    }
    let dir = paths.session_dir(id.as_str());
    let ghost within = files_within(chunks@, dir@);
    let mut files: Vec<String> = Vec::new();
    let mut i: usize = 0;
    proof {
        assert(chunks@.skip(0) =~= chunks@);
        assert(text::views(files@) + within =~= within);
    }
    while i < chunks.len() && is_within(chunks[i].file_path.as_str(), dir.as_str())
        invariant
            i <= chunks@.len(),
            files@.len() == i,
            within == text::views(files@) + files_within(chunks@.skip(i as int), dir@),
        decreases chunks.len() - i,
    {
        let ghost before = text::views(files@);
        assert(chunks@.skip(i as int)[0] == chunks@[i as int]);
        assert(chunks@.skip(i as int).drop_first() =~= chunks@.skip(i + 1));
        files.push(chunks[i].file_path.clone());
        i += 1;
        proof {
            let now = text::views(files@);
            assert(now =~= before + seq![chunks@[i - 1].file_path@]);
            assert(within =~= now + files_within(chunks@.skip(i as int), dir@));
        }
    }
    proof {
        if i < chunks@.len() {
            assert(chunks@.skip(i as int)[0] == chunks@[i as int]);
        }
        assert(files_within(chunks@.skip(i as int), dir@) =~= Seq::empty());
        assert(within =~= text::views(files@));
    }
    Ok(AudioDeletion { session_id: id, files, refused: i < chunks.len() })
}

/// Audio is deleted only below the directory of its session.
pub proof fn law_deleted_files_are_of_the_session(
    chunks: Seq<AudioChunkRecord>,
    dir: Seq<char>,
    i: int,
)
    requires
        0 <= i < files_within(chunks, dir).len(),
    ensures
        lies_within(files_within(chunks, dir)[i], dir),
    decreases chunks.len(),
{
    if i > 0 {
        law_deleted_files_are_of_the_session(chunks.drop_first(), dir, i - 1);
    }
}

/// The answer to a request to delete.
pub fn deleted_line() -> (r: String)
    ensures
        r@ == json_text(ok_model(seq![("deleted"@, TreeModel::Bool(true))])),
{
    let mut f: Vec<(String, Tree)> = Vec::new();
    put(&mut f, "deleted", flag_value(true));
    assert(fields_model(f@) =~= seq![("deleted"@, TreeModel::Bool(true))]);
    encode_ok(f)
}

/// The session that a request wants to be deleted, where it may be: one that is being
/// recorded may not.
pub fn check_delete_session(
    store: &Store,
    status: &RuntimeStatus,
    session_id: &Option<String>,
) -> (r: Result<String>)
    ensures
        match named_session(text::text_of(*session_id)) {
            None => fails(r, ErrorKind::Control, "session_id is required"@),
            Some(id) => if status.capture_active && text::text_of(status.session_id) == Some(id) {
                fails(r, ErrorKind::Control, "cannot delete an active recording"@)
            } else {
                match find_session(store.sessions@, id) {
                    None => fails(r, ErrorKind::Control, unknown_session(id)),
                    Some(session) => if session.state == SessionState::Running {
                        fails(r, ErrorKind::Control, "cannot delete an active recording"@)
                    } else {
                        r matches Ok(s) && s@ == id
                    },
                }
            },
        },
{
    let id = match require_session_id(session_id) {
        Ok(id) => id,
        Err(e) => return Err(e),
    };
    if status.capture_active {
        if let Some(active) = &status.session_id {
            if text::same(active.as_str(), id.as_str()) {
                return Err(AppError::control("cannot delete an active recording"));
            }
        }
    }
    match get_session(store, session_id) {
        Ok(session) => {
            if session.state == SessionState::Running {
                Err(AppError::control("cannot delete an active recording"))
            } else {
                Ok(id)
            }
        },
        Err(e) => Err(e),
    }
}

/// Whether an answer refuses settings with a message, and says which of them it is about.
pub open spec fn is_rejection(r: Response, message: Seq<char>) -> bool {
    &&& r.wf()
    &&& exists|fields: Seq<(String, String)>|
        #[trigger] is_error(r, message, Some("validation"@), Some(fields)) && match field_of(
            message,
        ) {
            Some(name) => fields.len() == 1 && fields[0].0@ == name && fields[0].1@ == message,
            None => fields.len() == 0,
        }
}

/// The answer to settings that are refused: the message, and which of them it is about.
pub fn rejected_settings(error: &AppError) -> (r: Response)
    ensures
        is_rejection(r, shown(error@)),
{
    let message = error.to_string();
    let mut fields: Vec<(String, String)> = Vec::new();
    if let Some(name) = validation_field(message.as_str()) {
        fields.push((name.to_owned(), message.clone()));
    }
    Response::error_fields(message.as_str(), fields)
}

/// Why changed settings are refused: the patch itself, or a file that the settings then
/// name and need is not there.
pub open spec fn update_error(
    base: Settings,
    changes: Changes,
    home: Seq<char>,
    executable_exists: bool,
    model_is_file: bool,
) -> Option<Seq<char>> {
    match changes.error(base, home) {
        Some(message) => Some(message),
        None => whisper_files_error(
            changes.applied(base, home),
            executable_exists,
            model_is_file,
        ),
    }
}

/// The settings with the changes of a patch, or the answer that refuses them.
/// `executable_exists` and `model_is_file` are of the files that the settings name once
/// they are changed.
pub fn update_config(
    base: &Config,
    patch: ConfigPatch,
    home: &str,
    executable_exists: bool,
    model_is_file: bool,
) -> (r: std::result::Result<Config, Response>)
    ensures
        match update_error(base@, patch@, home@, executable_exists, model_is_file) {
            Some(message) => r matches Err(refused) && is_rejection(
                refused,
                shown((ErrorKind::Config, message)),
            ),
            None => r matches Ok(next) && next@ == patch@.applied(base@, home@),
        },
{
    match apply_patch(base, patch, home) {
        Ok(next) => match check_whisper_files(&next, executable_exists, model_is_file) {
            Ok(()) => Ok(next),
            Err(e) => Err(rejected_settings(&e)),
        },
        Err(e) => Err(rejected_settings(&e)),
    }
}

/// The session is not deleted further than to a file outside its directory.
pub fn deletion_line(deletion: &AudioDeletion) -> (r: Result<String>)
    ensures
        if deletion.refused {
            fails(r, ErrorKind::Control, "refusing to delete a file outside the session directory"@)
        } else {
            r matches Ok(line) && line@ == json_text(
                ok_model(seq![("deleted"@, TreeModel::Bool(true))]),
            )
        },
{
    if deletion.refused {
        Err(AppError::control("refusing to delete a file outside the session directory"))
    } else {
        Ok(deleted_line())
    }
}

/// The answer to a subscription.
pub fn subscribed_line() -> (r: String)
    ensures
        r@ == json_text(ok_model(seq![("subscribed"@, TreeModel::Bool(true))])),
{
    let mut f: Vec<(String, Tree)> = Vec::new();
    put(&mut f, "subscribed", flag_value(true));
    assert(fields_model(f@) =~= seq![("subscribed"@, TreeModel::Bool(true))]);
    encode_ok(f)
}

/// How much room audio takes and how much is left.
pub open spec fn room_model(stored: u64, free: u64) -> TreeModel {
    TreeModel::Object(
        seq![
            ("stored_audio_bytes"@, number_model(stored as nat)),
            ("stored_audio_label"@, TreeModel::Text(size_text(stored))),
            ("free_bytes"@, number_model(free as nat)),
            ("free_label"@, TreeModel::Text(size_text(free))),
        ],
    )
}

fn room_tree(stored: u64, free: u64) -> (r: Tree)
    ensures
        r@ == room_model(stored, free),
{
    let mut f: Vec<(String, Tree)> = Vec::new();
    put(&mut f, "stored_audio_bytes", number_value(stored));
    put(&mut f, "stored_audio_label", text_value(format_bytes(stored).as_str()));
    put(&mut f, "free_bytes", number_value(free));
    put(&mut f, "free_label", text_value(format_bytes(free).as_str()));
    assert(fields_model(f@) =~= room_model(stored, free)->Object_0);
    object_value(f)
}

/// Where things are kept. `socket` is the control socket, where there is one.
pub open spec fn places_model(roots: crate::paths::Roots, socket: Option<Seq<char>>) -> TreeModel {
    TreeModel::Object(
        seq![
            ("config_file"@, TreeModel::Text(joined_path(roots.config_dir(), "config.toml"@))),
            ("config_dir"@, TreeModel::Text(roots.config_dir())),
            ("data_dir"@, TreeModel::Text(roots.data_dir())),
            (
                "database"@,
                TreeModel::Text(joined_path(roots.data_dir(), "voxtype-meeting-service.db"@)),
            ),
            ("control_socket"@, optional_text(socket)),
        ],
    )
}

fn places_tree(paths: &PathResolver, socket: &Option<String>) -> (r: Tree)
    ensures
        r@ == places_model(paths@, text::text_of(*socket)),
{
    let mut f: Vec<(String, Tree)> = Vec::new();
    put(&mut f, "config_file", text_value(paths.config_file().as_str()));
    put(&mut f, "config_dir", text_value(paths.config_dir().as_str()));
    put(&mut f, "data_dir", text_value(paths.data_dir().as_str()));
    put(&mut f, "database", text_value(paths.db_path().as_str()));
    put(&mut f, "control_socket", optional_value(socket));
    assert(fields_model(f@) =~= places_model(paths@, text::text_of(*socket))->Object_0);
    object_value(f)
}

/// Texts as the items of a list.
pub open spec fn text_items(texts: Seq<Seq<char>>) -> Seq<TreeModel> {
    Seq::new(texts.len(), |i: int| TreeModel::Text(texts[i]))
}

fn texts_tree(texts: &Vec<String>) -> (r: Tree)
    ensures
        r@ == TreeModel::List(text_items(text::views(texts@))),
{
    let mut items: Vec<Tree> = Vec::new();
    let mut i: usize = 0;
    while i < texts.len()
        invariant
            i <= texts@.len(),
            items_model(items@) =~= text_items(text::views(texts@)).take(i as int),
        decreases texts.len() - i,
    {
        let ghost before = items_model(items@);
        items.push(text_value(texts[i].as_str()));
        i += 1;
        assert(items_model(items@) =~= before.push(TreeModel::Text(texts@[i - 1]@)));
    }
    assert(text_items(text::views(texts@)).take(i as int) =~= text_items(text::views(texts@)));
    list_value(items)
}

/// The settings of transcription as a tree.
pub open spec fn transcription_model(s: Settings) -> TreeModel {
    TreeModel::Object(
        seq![
            ("provider"@, TreeModel::Text(s.provider.name())),
            ("model"@, TreeModel::Text(s.model)),
            ("max_concurrent_jobs"@, number_model(s.max_concurrent_jobs as nat)),
            ("languages"@, TreeModel::List(text_items(s.languages))),
            (
                "whisper_cpp"@,
                TreeModel::Object(
                    seq![
                        ("executable"@, TreeModel::Text(s.whisper_executable)),
                        ("model"@, TreeModel::Text(s.whisper_model)),
                    ],
                ),
            ),
        ],
    )
}

fn transcription_tree(config: &Config) -> (r: Tree)
    ensures
        r@ == transcription_model(config@),
{
    let t = &config.transcription;
    let mut whisper: Vec<(String, Tree)> = Vec::new();
    put(&mut whisper, "executable", text_value(t.whisper_cpp.executable.as_str()));
    put(&mut whisper, "model", text_value(t.whisper_cpp.model.as_str()));
    assert(fields_model(whisper@)
        =~= transcription_model(config@)->Object_0[4].1->Object_0);
    let mut f: Vec<(String, Tree)> = Vec::new();
    put(&mut f, "provider", text_value(t.provider.as_str()));
    put(&mut f, "model", text_value(t.model.as_str()));
    put(&mut f, "max_concurrent_jobs", number_value(t.max_concurrent_jobs as u64));
    put(&mut f, "languages", texts_tree(&t.languages));
    put(&mut f, "whisper_cpp", object_value(whisper));
    assert(fields_model(f@) =~= transcription_model(config@)->Object_0);
    object_value(f)
}

/// The settings as a tree.
pub open spec fn settings_model(s: Settings) -> TreeModel {
    TreeModel::Object(
        seq![
            (
                "general"@,
                TreeModel::Object(
                    seq![("minimum_free_space_mb"@, number_model(s.minimum_free_space_mb as nat))],
                ),
            ),
            (
                "audio"@,
                TreeModel::Object(
                    seq![
                        ("microphone"@, TreeModel::Text(s.microphone)),
                        ("system_output"@, TreeModel::Text(s.system_output)),
                        ("source"@, TreeModel::Text(s.source.name())),
                        ("retain_audio"@, TreeModel::Bool(s.retain_audio)),
                    ],
                ),
            ),
            ("transcription"@, transcription_model(s)),
            (
                "transcript"@,
                TreeModel::Object(
                    seq![
                        (
                            "omit_single_source_headers"@,
                            TreeModel::Bool(s.omit_single_source_headers),
                        ),
                    ],
                ),
            ),
        ],
    )
}

fn settings_tree(config: &Config) -> (r: Tree)
    ensures
        r@ == settings_model(config@),
{
    let ghost model = settings_model(config@)->Object_0;
    let mut general: Vec<(String, Tree)> = Vec::new();
    put(&mut general, "minimum_free_space_mb", number_value(config.general.minimum_free_space_mb));
    assert(fields_model(general@) =~= model[0].1->Object_0);
    let mut audio: Vec<(String, Tree)> = Vec::new();
    put(&mut audio, "microphone", text_value(config.audio.microphone.as_str()));
    put(&mut audio, "system_output", text_value(config.audio.system_output.as_str()));
    put(&mut audio, "source", text_value(config.audio.source.as_str()));
    put(&mut audio, "retain_audio", flag_value(config.audio.retain_audio));
    assert(fields_model(audio@) =~= model[1].1->Object_0);
    let mut transcript: Vec<(String, Tree)> = Vec::new();
    put(
        &mut transcript,
        "omit_single_source_headers",
        flag_value(config.transcript.omit_single_source_headers),
    );
    assert(fields_model(transcript@) =~= model[3].1->Object_0);
    let mut f: Vec<(String, Tree)> = Vec::new();
    put(&mut f, "general", object_value(general));
    put(&mut f, "audio", object_value(audio));
    put(&mut f, "transcription", transcription_tree(config));
    put(&mut f, "transcript", object_value(transcript));
    assert(fields_model(f@) =~= model);
    object_value(f)
}

/// The settings, where things are kept and how much room there is.
pub fn get_config(
    version: &str,
    desktop: &Option<String>,
    distro: &DistroInfo,
    room: (u64, u64),
    paths: &PathResolver,
    socket: &Option<String>,
    config: &Config,
) -> (r: String)
    ensures
        r@ == json_text(
            ok_model(
                seq![
                    ("daemon_version"@, TreeModel::Text(version@)),
                    ("desktop_environment"@, optional_text(text::text_of(*desktop))),
                    ("distribution"@, TreeModel::Text(distro.shown_name())),
                    ("storage"@, room_model(room.0, room.1)),
                    ("paths"@, places_model(paths@, text::text_of(*socket))),
                    ("config"@, settings_model(config@)),
                ],
            ),
        ),
{
    let mut f: Vec<(String, Tree)> = Vec::new();
    put(&mut f, "daemon_version", text_value(version));
    put(&mut f, "desktop_environment", optional_value(desktop));
    put(&mut f, "distribution", text_value(distro.pretty_name()));
    put(&mut f, "storage", room_tree(room.0, room.1));
    put(&mut f, "paths", places_tree(paths, socket));
    put(&mut f, "config", settings_tree(config));
    assert(fields_model(f@) =~= seq![
        ("daemon_version"@, TreeModel::Text(version@)),
        ("desktop_environment"@, optional_text(text::text_of(*desktop))),
        ("distribution"@, TreeModel::Text(distro.shown_name())),
        ("storage"@, room_model(room.0, room.1)),
        ("paths"@, places_model(paths@, text::text_of(*socket))),
        ("config"@, settings_model(config@)),
    ]);
    encode_ok(f)
}

/// The checks of the installation, with that of the service that answers first and that
/// of its socket last.
pub open spec fn all_checks(
    checks: Seq<Check>,
    version: Seq<char>,
    socket: Option<Seq<char>>,
    socket_works: bool,
) -> Seq<TreeModel> {
    seq![check_model("daemon"@, "Daemon"@, CheckStatus::Pass, "running "@ + version)]
        + check_models(checks) + seq![
        check_model(
            "control_socket"@,
            "Control socket"@,
            if socket_works && socket is Some {
                CheckStatus::Pass
            } else {
                CheckStatus::Fail
            },
            match socket {
                Some(path) => path,
                None => "unavailable"@,
            },
        ),
    ]
}

/// The checks of the installation. `socket` is the path of the control socket, where
/// there is one; it works where requests come through it and its file is there.
pub fn get_diagnostics(
    version: &str,
    desktop: &Option<String>,
    checks: &Vec<Check>,
    socket: &Option<String>,
    socket_works: bool,
) -> (r: String)
    ensures
        r@ == json_text(
            ok_model(
                seq![
                    ("daemon_version"@, TreeModel::Text(version@)),
                    ("desktop_environment"@, optional_text(text::text_of(*desktop))),
                    (
                        "checks"@,
                        TreeModel::List(
                            all_checks(checks@, version@, text::text_of(*socket), socket_works),
                        ),
                    ),
                ],
            ),
        ),
{
    let ghost all = all_checks(checks@, version@, text::text_of(*socket), socket_works);
    let running = text::concat2("running ", version);
    let mut items: Vec<Tree> = Vec::new();
    items.push(check_tree("daemon", "Daemon", CheckStatus::Pass, running.as_str()));
    let mut rest = diagnostics_payload(checks);
    let ghost first = items@;
    let ghost middle = rest@;
    items.append(&mut rest);
    assert(items_model(items@) =~= items_model(first) + items_model(middle));
    let status = if socket_works && socket.is_some() {
        CheckStatus::Pass
    } else {
        CheckStatus::Fail
    };
    let detail = match socket {
        Some(path) => path.clone(),
        None => "unavailable".to_owned(),
    };
    let ghost before = items_model(items@);
    items.push(check_tree("control_socket", "Control socket", status, detail.as_str()));
    assert(items_model(items@) =~= before.push(items@.last()@));
    assert(items_model(items@) =~= all);
    let mut f: Vec<(String, Tree)> = Vec::new();
    put(&mut f, "daemon_version", text_value(version));
    put(&mut f, "desktop_environment", optional_value(desktop));
    put(&mut f, "checks", list_value(items));
    assert(fields_model(f@) =~= seq![
        ("daemon_version"@, TreeModel::Text(version@)),
        ("desktop_environment"@, optional_text(text::text_of(*desktop))),
        ("checks"@, TreeModel::List(all)),
    ]);
    encode_ok(f)
}

/// A device as the desktop lists it.
pub open spec fn device_model(d: AudioDevice) -> TreeModel {
    TreeModel::Object(
        seq![("id"@, TreeModel::Text(d.id@)), ("description"@, TreeModel::Text(d.description@))],
    )
}

pub open spec fn device_models(devices: Seq<AudioDevice>) -> Seq<TreeModel> {
    Seq::new(devices.len(), |i: int| device_model(devices[i]))
}

fn device_list(devices: &Vec<AudioDevice>) -> (r: Tree)
    ensures
        r@ == TreeModel::List(device_models(devices@)),
{
    let mut items: Vec<Tree> = Vec::new();
    let mut i: usize = 0;
    while i < devices.len()
        invariant
            i <= devices@.len(),
            items_model(items@) =~= device_models(devices@).take(i as int),
        decreases devices.len() - i,
    {
        let d = &devices[i];
        let mut f: Vec<(String, Tree)> = Vec::new();
        put(&mut f, "id", text_value(d.id.as_str()));
        put(&mut f, "description", text_value(d.description.as_str()));
        assert(fields_model(f@) =~= device_model(*d)->Object_0);
        let ghost before = items_model(items@);
        items.push(object_value(f));
        i += 1;
        assert(items_model(items@) =~= before.push(device_model(*d)));
    }
    assert(device_models(devices@).take(i as int) =~= device_models(devices@));
    list_value(items)
}

/// The microphones and outputs to choose from.
pub fn list_devices(inputs: &Vec<AudioDevice>, outputs: &Vec<AudioDevice>) -> (r: String)
    ensures
        r@ == json_text(
            ok_model(
                seq![
                    ("microphones"@, TreeModel::List(device_models(inputs@))),
                    ("outputs"@, TreeModel::List(device_models(outputs@))),
                ],
            ),
        ),
{
    let mut f: Vec<(String, Tree)> = Vec::new();
    put(&mut f, "microphones", device_list(inputs));
    put(&mut f, "outputs", device_list(outputs));
    assert(fields_model(f@) =~= seq![
        ("microphones"@, TreeModel::List(device_models(inputs@))),
        ("outputs"@, TreeModel::List(device_models(outputs@))),
    ]);
    encode_ok(f)
}

/// What a cleanup takes, or took, away.
pub fn cleanup_line(files: u64, bytes: u64, sessions: u64) -> (r: String)
    ensures
        r@ == json_text(
            ok_model(
                seq![
                    ("sessions"@, number_model(sessions as nat)),
                    ("files"@, number_model(files as nat)),
                    ("bytes"@, number_model(bytes as nat)),
                    ("bytes_label"@, TreeModel::Text(size_text(bytes))),
                ],
            ),
        ),
{
    let mut f: Vec<(String, Tree)> = Vec::new();
    put(&mut f, "sessions", number_value(sessions));
    put(&mut f, "files", number_value(files));
    put(&mut f, "bytes", number_value(bytes));
    put(&mut f, "bytes_label", text_value(format_bytes(bytes).as_str()));
    assert(fields_model(f@) =~= seq![
        ("sessions"@, number_model(sessions as nat)),
        ("files"@, number_model(files as nat)),
        ("bytes"@, number_model(bytes as nat)),
        ("bytes_label"@, TreeModel::Text(size_text(bytes))),
    ]);
    encode_ok(f)
}

/// What a request comes to: one line, or a stream of messages.
#[derive(Debug)]
pub enum HandlerOut {
    Line(String),
    Subscribe,
}

impl HandlerOut {
    /// What is written to the client first, and whether messages follow.
    pub fn payload(self) -> (r: (String, bool))
        ensures
            match self {
                HandlerOut::Line(line) => r.0@ == line@.push('\n') && !r.1,
                HandlerOut::Subscribe => r.0@ == json_text(
                    ok_model(seq![("subscribed"@, TreeModel::Bool(true))]),
                ).push('\n') && r.1,
            },
    {
        match self {
            HandlerOut::Line(line) => {
                let mut payload = line;
                payload.push('\n');
                (payload, false)
            },
            HandlerOut::Subscribe => {
                let mut payload = subscribed_line();
                payload.push('\n');
                (payload, true)
            },
        }
    }
}

/// What each request asks for.
#[verifier::rlimit(60)]
pub proof fn law_requests_go_by_their_names(op: Seq<char>)
    ensures
        op_named(op) == Some(Op::Status) <==> op == "status"@,
        op_named(op) == Some(Op::Stop) <==> op == "stop"@,
        op_named(op) == Some(Op::Subscribe) <==> op == "subscribe"@,
        op_named(op) == Some(Op::StartRecording) <==> op == "start_recording"@,
        op_named(op) == Some(Op::StopRecording) <==> op == "stop_recording"@,
        op_named(op) == Some(Op::PauseRecording) <==> op == "pause_recording"@,
        op_named(op) == Some(Op::ResumeRecording) <==> op == "resume_recording"@,
        op_named(op) == Some(Op::GetState) <==> op == "get_state"@,
        op_named(op) == Some(Op::ListSessions) <==> op == "list_sessions"@,
        op_named(op) == Some(Op::GetSession) <==> op == "get_session"@,
        op_named(op) == Some(Op::RenameSession) <==> op == "rename_session"@,
        op_named(op) == Some(Op::RetrySession) <==> op == "retry_session"@,
        op_named(op) == Some(Op::RetranscribeSession) <==> op == "retranscribe_session"@,
        op_named(op) == Some(Op::DeleteSessionAudio) <==> op == "delete_session_audio"@,
        op_named(op) == Some(Op::DeleteSession) <==> op == "delete_session"@,
        op_named(op) == Some(Op::GetConfig) <==> op == "get_config"@,
        op_named(op) == Some(Op::UpdateConfig) <==> op == "update_config"@,
        op_named(op) == Some(Op::GetDiagnostics) <==> op == "get_diagnostics"@,
        op_named(op) == Some(Op::ListDevices) <==> op == "list_devices"@,
        op_named(op) == Some(Op::CleanupPreview) <==> op == "cleanup_preview"@,
        op_named(op) == Some(Op::CleanupApply) <==> op == "cleanup_apply"@,
{
    reveal_strlit("status");
    reveal_strlit("stop");
    reveal_strlit("subscribe");
    reveal_strlit("start_recording");
    reveal_strlit("stop_recording");
    reveal_strlit("pause_recording");
    reveal_strlit("resume_recording");
    reveal_strlit("get_state");
    reveal_strlit("list_sessions");
    reveal_strlit("get_session");
    reveal_strlit("rename_session");
    reveal_strlit("retry_session");
    reveal_strlit("retranscribe_session");
    reveal_strlit("delete_session_audio");
    reveal_strlit("delete_session");
    reveal_strlit("get_config");
    reveal_strlit("update_config");
    reveal_strlit("get_diagnostics");
    reveal_strlit("list_devices");
    reveal_strlit("cleanup_preview");
    reveal_strlit("cleanup_apply");
    assert("status"@.len() == 6);
    assert("stop"@.len() == 4);
    assert("subscribe"@.len() == 9);
    assert("start_recording"@.len() == 15);
    assert("stop_recording"@.len() == 14);
    assert("pause_recording"@.len() == 15);
    assert("resume_recording"@.len() == 16);
    assert("get_state"@.len() == 9);
    assert("list_sessions"@.len() == 13);
    assert("get_session"@.len() == 11);
    assert("rename_session"@.len() == 14);
    assert("retry_session"@.len() == 13);
    assert("retranscribe_session"@.len() == 20);
    assert("delete_session_audio"@.len() == 20);
    assert("delete_session"@.len() == 14);
    assert("get_config"@.len() == 10);
    assert("update_config"@.len() == 13);
    assert("get_diagnostics"@.len() == 15);
    assert("list_devices"@.len() == 12);
    assert("cleanup_preview"@.len() == 15);
    assert("cleanup_apply"@.len() == 13);
    assert("subscribe"@[0] == 's' && "get_state"@[0] == 'g');
    assert("start_recording"@[0] == 's' && "pause_recording"@[0] == 'p');
    assert("start_recording"@[0] == 's' && "get_diagnostics"@[0] == 'g');
    assert("start_recording"@[0] == 's' && "cleanup_preview"@[0] == 'c');
    assert("pause_recording"@[0] == 'p' && "get_diagnostics"@[0] == 'g');
    assert("pause_recording"@[0] == 'p' && "cleanup_preview"@[0] == 'c');
    assert("get_diagnostics"@[0] == 'g' && "cleanup_preview"@[0] == 'c');
    assert("stop_recording"@[0] == 's' && "rename_session"@[0] == 'r');
    assert("stop_recording"@[0] == 's' && "delete_session"@[0] == 'd');
    assert("rename_session"@[0] == 'r' && "delete_session"@[0] == 'd');
    assert("list_sessions"@[0] == 'l' && "retry_session"@[0] == 'r');
    assert("list_sessions"@[0] == 'l' && "update_config"@[0] == 'u');
    assert("list_sessions"@[0] == 'l' && "cleanup_apply"@[0] == 'c');
    assert("retry_session"@[0] == 'r' && "update_config"@[0] == 'u');
    assert("retry_session"@[0] == 'r' && "cleanup_apply"@[0] == 'c');
    assert("update_config"@[0] == 'u' && "cleanup_apply"@[0] == 'c');
    assert("retranscribe_session"@[0] == 'r' && "delete_session_audio"@[0] == 'd');
}

/// The panel shows a recording before anything else, then that the user should look after
/// the service, then that it transcribes; else it is idle.
pub proof fn law_what_the_panel_shows(recording: bool, processing: bool, attention: bool)
    ensures
        recording ==> panel_text(recording, processing, attention) == "recording"@,
        !recording && attention ==> panel_text(recording, processing, attention) == "attention"@,
        !recording && !attention && processing ==> panel_text(recording, processing, attention)
            == "transcribing"@,
        !recording && !attention && !processing ==> panel_text(recording, processing, attention)
            == "idle"@,
{
}

/// The user is asked to look after the service exactly where jobs wait for whisper.cpp and a
/// file of it is missing.
pub proof fn law_when_the_panel_asks_for_attention(
    config: Config,
    pending: u64,
    executable: bool,
    model: bool,
)
    ensures
        panel_trouble(config, pending, executable, model) is Some <==> config.transcription.provider
            == ProviderKind::WhisperCpp && pending > 0 && !(executable && model),
        panel_trouble(config, pending, executable, model) matches Some(message) ==> message == if
            !executable {
            "whisper-cli was not found at "@ + config.transcription.whisper_cpp.executable@
        } else {
            "whisper.cpp model was not found at "@ + config.transcription.whisper_cpp.model@
        },
{
}

/// A source is shown by the description of its device, or by its identifier where it has
/// none, together with its state.
pub proof fn law_how_a_source_is_shown(device: Option<AudioDevice>, state: SourceUiState)
    ensures
        device is None ==> device_label(device) == "Unavailable"@,
        device matches Some(d) ==> device_label(device) == if d.description@.len() > 0 {
            d.description@
        } else {
            d.id@
        },
        source_model(device, state)->Object_0[0] == (
            "label"@,
            TreeModel::Text(device_label(device)),
        ),
        source_model(device, state)->Object_0[1] == (
            "state"@,
            TreeModel::Text(
                match state {
                    SourceUiState::Idle => "idle"@,
                    SourceUiState::Capturing => "capturing"@,
                    SourceUiState::Unavailable => "unavailable"@,
                    SourceUiState::Reconnecting => "reconnecting"@,
                },
            ),
        ),
{
}

/// A meeting lasts from its start to its end, or until now where it has none, in whole
/// seconds; one whose start cannot be read, or lies after its end, lasts none. Leap seconds
/// are left out.
pub proof fn law_how_long_a_meeting_lasts(session: SessionRecord, now: UtcTime)
    ensures
        parsed_time(session.started_at@) is None ==> meeting_secs(session, now) == 0,
        parsed_time(session.started_at@) matches Some(start) ==> {
            let end = match session.ended_at {
                Some(at) if parsed_time(at@) is Some => parsed_time(at@)->0,
                _ => now,
            };
            let passed = (end.secs * 1_000_000_000 + end.nanos) - (start.secs * 1_000_000_000
                + start.nanos);
            start.nanos < 1_000_000_000 && end.nanos < 1_000_000_000 ==> {
                &&& passed < 0 ==> meeting_secs(session, now) == 0
                &&& passed >= 0 ==> meeting_secs(session, now) * 1_000_000_000 <= passed < (
                meeting_secs(session, now) + 1) * 1_000_000_000
            }
        },
{
    if let Some(start) = parsed_time(session.started_at@) {
        let end = match session.ended_at {
            Some(at) if parsed_time(at@) is Some => parsed_time(at@)->0,
            _ => now,
        };
        if start.nanos < 1_000_000_000 && end.nanos < 1_000_000_000 {
            crate::timeutil::law_seconds_between_are_whole(start, end);
        }
    }
}

/// A request names a session without space around its identifier; a blank one names none.
pub proof fn law_requests_name_sessions(session_id: Option<Seq<char>>)
    ensures
        session_id is None ==> named_session(session_id) is None,
        session_id matches Some(id) ==> {
            &&& named_session(session_id) is None <==> text::is_blank(id)
            &&& named_session(session_id) matches Some(named) ==> named == text::trimmed(id)
        },
{
}

/// Complete jobs are counted one by one.
pub proof fn law_complete_jobs_are_counted(jobs: Seq<TranscriptionJobRecord>)
    ensures
        complete_jobs(jobs) == jobs.filter(
            |j: TranscriptionJobRecord| j.state == JobState::Completed,
        ).len(),
    decreases jobs.len(),
{
    reveal(Seq::filter);
    if jobs.len() > 0 {
        law_complete_jobs_are_counted(jobs.drop_last());
    }
}

/// The audio of a meeting may be deleted exactly where the meeting is over, has audio, and
/// each chunk has its transcript.
pub proof fn law_when_audio_may_be_deleted(
    session: SessionRecord,
    chunks: Seq<AudioChunkRecord>,
    transcribed: Seq<Seq<char>>,
)
    ensures
        audio_deletable(session, chunks, transcribed) <==> {
            &&& session.state != SessionState::Running
            &&& chunks.len() > 0
            &&& forall|i: int|
                0 <= i < chunks.len() ==> transcribed.contains((#[trigger] chunks[i]).id@)
        },
{
}

/// What the desktop is told of a meeting.
#[verifier::rlimit(60)]
pub proof fn law_what_is_told_of_a_meeting(
    paths: crate::paths::Roots,
    v: SessionView,
    title: Seq<char>,
    ctx: StatusContext<'_>,
)
    ensures
        ({
            let t = session_model(paths, v, title, ctx);
            let s = v.session;
            let ids = text::views(v.transcribed@);
            let status = ui_status(s, v.chunks@, v.audio_present@, v.jobs@, ids, ctx);
            let dir = paths.session_dir(s.id@);
            let secs = meeting_secs(s, ctx.now);
            let open = exists|i: int|
                0 <= i < v.jobs@.len() && (#[trigger] v.jobs@[i]).state != JobState::Completed;
            &&& holds_field(t, "id"@, TreeModel::Text(s.id@))
            &&& holds_field(t, "title"@, TreeModel::Text(title))
            &&& holds_field(t, "stored_title"@, optional_text(text::text_of(s.title)))
            &&& holds_field(t, "state"@, TreeModel::Text(s.state.name()))
            &&& holds_field(t, "ui_status"@, TreeModel::Text(status.name()))
            &&& holds_field(t, "ui_status_label"@, TreeModel::Text(status.label()))
            &&& holds_field(t, "started_at"@, TreeModel::Text(s.started_at@))
            &&& holds_field(t, "ended_at"@, optional_text(text::text_of(s.ended_at)))
            &&& holds_field(
                t,
                "duration_secs"@,
                TreeModel::Number(text::decimal(secs as nat)),
            )
            &&& holds_field(t, "duration_label"@, TreeModel::Text(duration_text(secs)))
            &&& holds_field(
                t,
                "chunk_count"@,
                TreeModel::Number(text::decimal(v.chunks@.len())),
            )
            &&& holds_field(
                t,
                "completed_jobs"@,
                TreeModel::Number(text::decimal(complete_jobs(v.jobs@))),
            )
            &&& holds_field(t, "session_dir"@, TreeModel::Text(dir))
            &&& holds_field(t, "transcript_exists"@, TreeModel::Bool(v.transcript_exists))
            &&& holds_field(
                t,
                "can_delete_audio"@,
                TreeModel::Bool(audio_deletable(s, v.chunks@, ids)),
            )
            &&& holds_field(
                t,
                "can_delete_session"@,
                TreeModel::Bool(s.state != SessionState::Running),
            )
            &&& holds_field(
                t,
                "can_retry"@,
                TreeModel::Bool(
                    open && (status == UiSessionStatus::WaitingRetry || status
                        == UiSessionStatus::Attention || status == UiSessionStatus::Interrupted),
                ),
            )
        }),
{
    let f = session_model(paths, v, title, ctx)->Object_0;
    assert(f.contains(f[0]) && f.contains(f[1]) && f.contains(f[2]) && f.contains(f[3]));
    assert(f.contains(f[4]) && f.contains(f[5]) && f.contains(f[6]) && f.contains(f[7]));
    assert(f.contains(f[8]) && f.contains(f[9]) && f.contains(f[10]) && f.contains(f[11]));
    assert(f.contains(f[12]) && f.contains(f[14]) && f.contains(f[15]) && f.contains(f[16]));
    assert(f.contains(f[17]));
}

/// The recent meetings are the latest of those that are over: at most five, all of them
/// where there are no more, and none is left out that began after one that is shown.
pub proof fn law_the_latest_meetings_are_recent(
    sessions: Seq<SessionRecord>,
    session: SessionRecord,
    i: int,
    j: int,
)
    ensures
        ({
            let shown = recent(sessions);
            let over = sessions.filter(not_running());
            &&& 0 <= i < j < shown.len() ==> text::text_le(
                shown[j].started_at@,
                shown[i].started_at@,
            )
            &&& shown.contains(session) ==> sessions.contains(session) && session.state
                != SessionState::Running
            &&& shown.len() < 5 && sessions.contains(session) && session.state
                != SessionState::Running ==> shown.contains(session)
            &&& sessions.contains(session) && session.state != SessionState::Running
                && !shown.contains(session) && 0 <= i < shown.len() ==> text::text_le(
                session.started_at@,
                shown[i].started_at@,
            )
        }),
{
    let order = ranked(sessions);
    let over = order.filter(not_running());
    let shown = recent(sessions);
    crate::sorting::law_ranking_keeps_all_values_in_order(sessions);
    order.to_multiset_ensures();
    sessions.to_multiset_ensures();
    assert(order.contains(session) <==> order.to_multiset().contains(session));
    assert(sessions.contains(session) <==> sessions.to_multiset().contains(session));
    crate::storage::deletion::lemma_filter_keeps(order, not_running(), session);
    lemma_filter_in_order(order);
    if shown.contains(session) {
        let k = choose|k: int| 0 <= k < shown.len() && shown[k] == session;
        assert(over[k] == session);
    }
    if over.contains(session) {
        let k = choose|k: int| 0 <= k < over.len() && over[k] == session;
        if k < shown.len() {
            assert(shown[k] == session);
        } else if 0 <= i < shown.len() {
            assert(over[i].ranks_before(&over[k]));
        }
    }
    if 0 <= i < j < shown.len() {
        assert(over[i].ranks_before(&over[j]));
    }
}

proof fn lemma_filter_in_order(s: Seq<SessionRecord>)
    requires
        crate::sorting::in_order(s),
    ensures
        crate::sorting::in_order(s.filter(not_running())),
    decreases s.len(),
{
    reveal(Seq::filter);
    if s.len() > 0 {
        let front = s.drop_last();
        assert forall|i: int, j: int|
            #![trigger front[i], front[j]]
            0 <= i < j < front.len() implies front[i].ranks_before(&front[j]) by {
            assert(s[i].ranks_before(&s[j]));
        }
        lemma_filter_in_order(front);
        let kept = front.filter(not_running());
        let all = s.filter(not_running());
        assert forall|i: int, j: int|
            #![trigger all[i], all[j]]
            0 <= i < j < all.len() implies all[i].ranks_before(&all[j]) by {
            if j < kept.len() {
                assert(kept[i].ranks_before(&kept[j]));
            } else {
                crate::storage::deletion::lemma_filter_keeps(front, not_running(), kept[i]);
                assert(kept.contains(kept[i]));
                let k = choose|k: int| 0 <= k < front.len() && front[k] == kept[i];
                assert(s[k].ranks_before(&s[s.len() - 1]));
            }
        }
    }
}

/// A title is taken without space around it where one to 120 characters are left.
pub proof fn law_which_titles_are_taken(title: Option<Seq<char>>)
    ensures
        asked_title(title) is Ok <==> (title matches Some(t) && 1 <= text::trimmed(t).len() <= 120),
        asked_title(title) matches Ok(taken) ==> taken == text::trimmed(title->0),
{
}

/// A retry of a meeting makes its own jobs that wait due and leaves all others.
pub proof fn law_a_retry_of_a_meeting_spares_others(
    tables: Tables,
    session_id: Seq<char>,
    now: String,
    i: int,
)
    requires
        0 <= i < tables.jobs.len(),
    ensures
        ({
            let after = hurried_in_session(tables, session_id, now);
            let own = exists|c: int|
                0 <= c < tables.chunks.len() && (#[trigger] tables.chunks[c]).id@
                    == tables.jobs[i].audio_chunk_id@ && tables.chunks[c].session_id@ == session_id;
            &&& after.len() == tables.jobs.len()
            &&& after[i] == if own && tables.jobs[i].state == JobState::Pending {
                TranscriptionJobRecord { next_retry_at: Some(now), ..tables.jobs[i] }
            } else {
                tables.jobs[i]
            }
        }),
{
}

/// The files of a meeting are deleted in the order of its chunks, all of them where all lie
/// in its directory.
pub proof fn law_the_files_of_a_meeting_are_deleted(chunks: Seq<AudioChunkRecord>, dir: Seq<char>)
    requires
        forall|i: int| 0 <= i < chunks.len() ==> lies_within((#[trigger] chunks[i]).file_path@, dir),
    ensures
        files_within(chunks, dir) == chunks.map_values(|c: AudioChunkRecord| c.file_path@),
    decreases chunks.len(),
{
    if chunks.len() > 0 {
        let rest = chunks.drop_first();
        assert forall|i: int| 0 <= i < rest.len() implies lies_within(
            (#[trigger] rest[i]).file_path@,
            dir,
        ) by {
            assert(rest[i] == chunks[i + 1]);
        }
        assert(lies_within(chunks[0].file_path@, dir));
        law_the_files_of_a_meeting_are_deleted(rest, dir);
    }
    assert(files_within(chunks, dir) =~= chunks.map_values(|c: AudioChunkRecord| c.file_path@));
}

/// A change of the settings is refused where the patch is, or where whisper.cpp is chosen and
/// a file of it is missing.
pub proof fn law_when_a_change_is_refused(
    base: Settings,
    changes: Changes,
    home: Seq<char>,
    executable: bool,
    model: bool,
)
    ensures
        update_error(base, changes, home, executable, model) is Some <==> changes.error(base, home) is Some
            || changes.applied(base, home).provider == ProviderKind::WhisperCpp && !(executable
            && model),
        changes.error(base, home) is Some ==> update_error(base, changes, home, executable, model)
            == changes.error(base, home),
{
}

/// The settings are told by section and name.
#[verifier::rlimit(60)]
pub proof fn law_how_settings_are_told(s: Settings)
    ensures
        ({
            let t = settings_model(s);
            let general = TreeModel::Object(
                seq![
                    (
                        "minimum_free_space_mb"@,
                        TreeModel::Number(text::decimal(s.minimum_free_space_mb as nat)),
                    ),
                ],
            );
            let audio = TreeModel::Object(
                seq![
                    ("microphone"@, TreeModel::Text(s.microphone)),
                    ("system_output"@, TreeModel::Text(s.system_output)),
                    ("source"@, TreeModel::Text(s.source.name())),
                    ("retain_audio"@, TreeModel::Bool(s.retain_audio)),
                ],
            );
            let transcript = TreeModel::Object(
                seq![
                    (
                        "omit_single_source_headers"@,
                        TreeModel::Bool(s.omit_single_source_headers),
                    ),
                ],
            );
            &&& holds_field(t, "general"@, general)
            &&& holds_field(t, "audio"@, audio)
            &&& holds_field(t, "transcription"@, transcription_model(s))
            &&& holds_field(t, "transcript"@, transcript)
        }),
        ({
            let t = transcription_model(s);
            &&& holds_field(t, "provider"@, TreeModel::Text(s.provider.name()))
            &&& holds_field(t, "model"@, TreeModel::Text(s.model))
            &&& holds_field(
                t,
                "max_concurrent_jobs"@,
                TreeModel::Number(text::decimal(s.max_concurrent_jobs as nat)),
            )
            &&& holds_field(
                t,
                "languages"@,
                TreeModel::List(s.languages.map_values(|l: Seq<char>| TreeModel::Text(l))),
            )
            &&& holds_field(
                t,
                "whisper_cpp"@,
                TreeModel::Object(
                    seq![
                        ("executable"@, TreeModel::Text(s.whisper_executable)),
                        ("model"@, TreeModel::Text(s.whisper_model)),
                    ],
                ),
            )
        }),
{
    let f = settings_model(s)->Object_0;
    assert(f.contains(f[0]) && f.contains(f[1]) && f.contains(f[2]) && f.contains(f[3]));
    let g = transcription_model(s)->Object_0;
    assert(text_items(s.languages) =~= s.languages.map_values(|l: Seq<char>| TreeModel::Text(l)));
    assert(g.contains(g[0]) && g.contains(g[1]) && g.contains(g[2]) && g.contains(g[3]));
    assert(g.contains(g[4]));
}

/// Devices are told in their order, each by its identifier and its description.
pub proof fn law_devices_are_told_in_order(devices: Seq<AudioDevice>, i: int)
    requires
        0 <= i < devices.len(),
    ensures
        device_models(devices).len() == devices.len(),
        device_models(devices)[i] == TreeModel::Object(
            seq![
                ("id"@, TreeModel::Text(devices[i].id@)),
                ("description"@, TreeModel::Text(devices[i].description@)),
            ],
        ),
{
}

/// What the desktop is told of the service.
#[verifier::rlimit(60)]
pub proof fn law_what_is_told_of_the_service(
    version: Seq<char>,
    status: RuntimeStatus,
    jobs: (u64, u64, u64),
    attention: Option<Seq<char>>,
    microphone: TreeModel,
    system_audio: TreeModel,
    recent: Seq<TreeModel>,
)
    ensures
        ({
            let f = state_model(
                version,
                status,
                jobs,
                attention,
                microphone,
                system_audio,
                recent,
            );
            let recording = f[1].1;
            let panel = f[2].1;
            &&& f[0] == ("daemon_version"@, TreeModel::Text(version))
            &&& f[1].0 == "recording"@
            &&& f[2].0 == "panel"@
            &&& f[3].0 == "attention"@
            &&& f[4] == ("recent_sessions"@, TreeModel::List(recent))
            &&& holds_field(recording, "active"@, TreeModel::Bool(status.capture_active))
            &&& holds_field(recording, "paused"@, TreeModel::Bool(status.capture_paused))
            &&& holds_field(
                recording,
                "session_id"@,
                optional_text(text::text_of(status.session_id)),
            )
            &&& holds_field(
                recording,
                "started_at"@,
                optional_text(text::text_of(status.session_started_at)),
            )
            &&& holds_field(recording, "microphone"@, microphone)
            &&& holds_field(recording, "system_audio"@, system_audio)
            &&& holds_field(
                panel,
                "state"@,
                TreeModel::Text(
                    panel_text(status.capture_active, jobs.1 > 0, attention is Some),
                ),
            )
            &&& holds_field(panel, "pending_jobs"@, TreeModel::Number(text::decimal(jobs.0 as nat)))
            &&& holds_field(
                panel,
                "processing_jobs"@,
                TreeModel::Number(text::decimal(jobs.1 as nat)),
            )
            &&& holds_field(
                panel,
                "completed_jobs"@,
                TreeModel::Number(text::decimal(jobs.2 as nat)),
            )
            &&& holds_field(f[3].1, "required"@, TreeModel::Bool(attention is Some))
            &&& holds_field(f[3].1, "message"@, optional_text(attention))
        }),
{
    let f = state_model(version, status, jobs, attention, microphone, system_audio, recent);
    let r = f[1].1->Object_0;
    assert(r.contains(r[0]) && r.contains(r[1]) && r.contains(r[2]) && r.contains(r[3]));
    assert(r.contains(r[4]) && r.contains(r[5]));
    let p = f[2].1->Object_0;
    assert(p.contains(p[0]) && p.contains(p[1]) && p.contains(p[2]) && p.contains(p[3]));
    let a = f[3].1->Object_0;
    assert(a.contains(a[0]) && a.contains(a[1]));
}

/// The room and the places that are told are those that were found.
pub proof fn law_room_and_places_are_told(
    stored: u64,
    free: u64,
    roots: crate::paths::Roots,
    socket: Option<Seq<char>>,
)
    ensures
        room_model(stored, free) == TreeModel::Object(
            seq![
                ("stored_audio_bytes"@, TreeModel::Number(text::decimal(stored as nat))),
                ("stored_audio_label"@, TreeModel::Text(size_text(stored))),
                ("free_bytes"@, TreeModel::Number(text::decimal(free as nat))),
                ("free_label"@, TreeModel::Text(size_text(free))),
            ],
        ),
        places_model(roots, socket) == TreeModel::Object(
            seq![
                ("config_file"@, TreeModel::Text(joined_path(roots.config_dir(), "config.toml"@))),
                ("config_dir"@, TreeModel::Text(roots.config_dir())),
                ("data_dir"@, TreeModel::Text(roots.data_dir())),
                (
                    "database"@,
                    TreeModel::Text(joined_path(roots.data_dir(), "voxtype-meeting-service.db"@)),
                ),
                ("control_socket"@, optional_text(socket)),
            ],
        ),
{
}

/// The checks of the service stand first and last round those that were made, in their
/// order.
pub proof fn law_checks_are_told_in_order(
    checks: Seq<Check>,
    version: Seq<char>,
    socket: Option<Seq<char>>,
    works: bool,
    i: int,
)
    requires
        0 <= i < checks.len(),
    ensures
        ({
            let told = all_checks(checks, version, socket, works);
            &&& told.len() == checks.len() + 2
            &&& holds_field(told[0], "id"@, TreeModel::Text("daemon"@))
            &&& holds_field(told[0], "status"@, TreeModel::Text("PASS"@))
            &&& holds_field(told[0], "detail"@, TreeModel::Text("running "@ + version))
            &&& holds_field(told[i + 1], "name"@, TreeModel::Text(checks[i].name@))
            &&& holds_field(told[i + 1], "detail"@, TreeModel::Text(checks[i].detail@))
            &&& holds_field(told.last(), "id"@, TreeModel::Text("control_socket"@))
            &&& works && socket is Some ==> holds_field(
                told.last(),
                "status"@,
                TreeModel::Text("PASS"@),
            )
            &&& !works || socket is None ==> holds_field(
                told.last(),
                "status"@,
                TreeModel::Text("FAIL"@),
            )
            &&& socket matches Some(path) ==> holds_field(
                told.last(),
                "detail"@,
                TreeModel::Text(path),
            )
        }),
{
    let told = all_checks(checks, version, socket, works);
    let a = told[0]->Object_0;
    let b = told[i + 1]->Object_0;
    let c = told.last()->Object_0;
    assert(told[i + 1] == check_models(checks)[i]);
    assert(a.contains(a[0]) && a.contains(a[2]) && a.contains(a[3]));
    assert(b.contains(b[1]) && b.contains(b[3]));
    assert(c.contains(c[0]) && c.contains(c[2]) && c.contains(c[3]));
}

/// A new title is set on the meeting that was named, and nothing else changes.
pub proof fn law_a_new_title_is_set_alone(
    was: Tables,
    is: Tables,
    id: Seq<char>,
    title: Seq<char>,
    k: int,
)
    requires
        is_renamed(was, is, id, title),
        0 <= k < was.sessions.len(),
    ensures
        is.sessions.len() == was.sessions.len(),
        is.runs == was.runs,
        is.chunks == was.chunks,
        is.jobs == was.jobs,
        is.events == was.events,
        was.sessions[k].id@ != id ==> is.sessions[k] == was.sessions[k],
        was.sessions[k].id@ == id ==> (is.sessions[k].title matches Some(t) && t@ == title),
        is.sessions[k] == (SessionRecord { title: is.sessions[k].title, ..was.sessions[k] }),
{
    assert(is.sessions[k] == is.sessions[k]);
}

/// A meeting goes by the title that it was given.
pub proof fn law_a_given_title_is_told(title: Seq<char>, session: SessionRecord, given: Seq<char>)
    requires
        is_title_of(title, session),
        given_title(session) == Some(given),
    ensures
        title == given,
{
}

/// Settings that are refused are answered with the field that the message is about.
pub proof fn law_refused_settings_name_the_field(r: Response, message: Seq<char>)
    requires
        is_rejection(r, message),
    ensures
        r matches Response::Failed { ok, error, code, details, fields } ==> {
            &&& !ok
            &&& error@ == message
            &&& text::text_of(code) == Some("validation"@)
            &&& fields is Some
            &&& crate::config::field_of(message) matches Some(name) ==> fields->0@.len() == 1
                && fields->0@[0].0@ == name && fields->0@[0].1@ == message
            &&& crate::config::field_of(message) is None ==> fields->0@.len() == 0
        },
        r is Failed,
{
}

} // verus!
