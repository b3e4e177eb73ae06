//! The control socket, what requests are answered, and who may record when.

use voxtype_meeting_service::audio::{AudioDevice, AudioSource, DeviceRole};
use voxtype_meeting_service::commands::{
    check_answer, check_socket, cmd_retry, print_json_line, rebuild_message, request_line,
    retranscribe_message, retry_message, ProviderArg, RecordCommand,
};
use voxtype_meeting_service::config::{Config, ConfigPatch, ProviderKind, TranscriptionPatch};
use voxtype_meeting_service::control::handlers::{
    check_delete_session, cleanup_line, delete_session_audio, deleted_line, deletion_line,
    failure_line, get_config, get_diagnostics, get_session, get_state, list_devices,
    list_sessions_line, panel_attention, panel_state, recent_sessions, rejected_settings,
    rename_session, require_session_id, retranscribed_line, retranscription, retried_line,
    retry_session, route, session_duration_secs, session_json, session_line, set_paused,
    source_json, source_status_json, start_line, stop_line, update_config, HandlerOut, Op,
    SessionView, StartReply, StopReply,
};
use voxtype_meeting_service::control::protocol::{
    encode_event, encode_ok, encode_response, invalid_request, Response,
};
use voxtype_meeting_service::control::{
    answer_to_unread, bind_error, check_request_length, collect_status, format_status_text,
    socket_action, LineReadError, LineReader, LineStep, SendFault, SocketAction,
};
use voxtype_meeting_service::daemon::{
    mark_down, stop_outcome, DaemonAction, DaemonEvent, DaemonState, News, Refusal, StopOutcome,
};
use voxtype_meeting_service::distro::DistroInfo;
use voxtype_meeting_service::error::AppError;
use voxtype_meeting_service::paths::PathResolver;
use voxtype_meeting_service::runtime::{
    RuntimeStatus, SourceUiState, UiEvent, CONTROL_MAX_LINE_BYTES,
};
use voxtype_meeting_service::session_status::StatusContext;
use voxtype_meeting_service::storage::events::record_transcription_success;
use voxtype_meeting_service::storage::sessions::{
    insert_run, insert_running_session, set_session_state,
};
use voxtype_meeting_service::storage::types::{JobState, SessionState};
use voxtype_meeting_service::storage::{persist_recorded_chunk, PersistChunk, Store};
use voxtype_meeting_service::timeutil::{parse_rfc3339, UtcTime};
use voxtype_meeting_service::transcription::TranscriptionResult;
use voxtype_meeting_service::tree::Tree;

const NOW: &str = "2026-08-17T12:00:00.000Z";

fn now() -> UtcTime {
    parse_rfc3339(NOW).unwrap()
}

fn paths() -> PathResolver {
    PathResolver::from_parts("/home/xa".to_string(), None, Some("/data".to_string()), None, 1000)
}

fn json(line: &str) -> serde_json::Value {
    serde_json::from_str(line).unwrap()
}

fn some(text: &str) -> Option<String> {
    Some(text.to_string())
}

#[test]
fn unknown_op_error_shape() {
    let line = encode_response(&Response::error("unknown op 'nope'"));
    assert!(line.contains("\"ok\":false"));
    assert!(line.contains("unknown op"));
}

#[test]
fn answers_are_written_in_order() {
    assert_eq!(
        encode_response(&Response::error_code("unavailable", "a \"b\"\n")),
        "{\"ok\":false,\"error\":\"a \\\"b\\\"\\n\",\"code\":\"unavailable\"}"
    );
    assert_eq!(
        encode_response(&Response::error_fields(
            "bad",
            vec![("general.x".to_string(), "bad".to_string())]
        )),
        "{\"ok\":false,\"error\":\"bad\",\"code\":\"validation\",\"fields\":{\"general.x\":\"bad\"}}"
    );
    assert_eq!(encode_response(&Response::stop()), "{\"ok\":true}");
    assert_eq!(encode_ok(vec![]), "{\"ok\":true}");
    assert_eq!(
        encode_event(&UiEvent::new("device_state_changed").message("mic")),
        "{\"event\":\"device_state_changed\",\"message\":\"mic\"}"
    );
    assert_eq!(
        encode_response(&invalid_request("eof")),
        "{\"ok\":false,\"error\":\"invalid control request: eof\"}"
    );
}

#[test]
fn status_is_answered() {
    let mut status = RuntimeStatus::new(ProviderKind::Openai);
    status.session_id = some("sess");
    status.session_started_at = some("now");
    status.capture_active = true;
    let payload = collect_status(&paths(), &status, (1, 2, 3), 2048, None);
    let line = encode_response(&Response::status(payload));
    let value = json(&line);
    assert_eq!(value["ok"], true);
    assert_eq!(value["status"]["session_id"], "sess");
    assert_eq!(value["status"]["pending_jobs"], 1);
    assert_eq!(value["status"]["stored_audio"], "2.0 KB");
    assert_eq!(value["status"]["free_disk"], "unknown");
    assert_eq!(
        value["status"]["transcript_path"],
        "/data/voxtype-meeting-service/sessions/sess/transcript.md"
    );
    let payload = collect_status(&paths(), &status, (1, 2, 3), 2048, Some(512));
    let text = format_status_text("running", Some(&payload));
    assert!(text.starts_with("Service: running\nSession ID: sess\nSession started: now\n"));
    assert!(text.contains("Microphone device: unknown\n"));
    assert!(text.contains("Free disk space: 512 B\n"));
}

#[test]
fn second_bind_fails_when_socket_is_live() {
    assert_eq!(socket_action(false, false).unwrap(), SocketAction::Bind);
    let err = socket_action(true, true).unwrap_err();
    assert!(err.to_string().contains("already running"), "{err:?}");
    assert_eq!(socket_action(true, false).unwrap(), SocketAction::RemoveAndBind);
    assert_eq!(
        bind_error("/s", "denied").to_string(),
        "could not bind control socket /s: denied"
    );
}

#[test]
fn limited_line_accepts_payload_at_cap() {
    let mut reader = LineReader::new(8);
    let mut payload = vec![b'a'; 8];
    payload.push(b'\n');
    match reader.feed(&payload) {
        LineStep::Line(line) => assert_eq!(line.len(), 8),
        other => panic!("unexpected {other:?}"),
    }
}

#[test]
fn limited_line_rejects_overflow_while_streaming() {
    let mut reader = LineReader::new(16);
    assert!(matches!(reader.feed(&vec![b'x'; 64]), LineStep::TooLong));
}

#[test]
fn lines_come_in_pieces() {
    let mut reader = LineReader::new(16);
    assert!(matches!(reader.feed("vo".as_bytes()), LineStep::More));
    assert!(matches!(reader.feed(&[0xc3]), LineStep::More));
    match reader.feed(&[0xa9, b'\n', b'x']) {
        LineStep::Line(line) => assert_eq!(line, "voé"),
        other => panic!("unexpected {other:?}"),
    }
    let mut reader = LineReader::new(16);
    assert!(matches!(reader.feed(&[0xff, b'\n']), LineStep::InvalidUtf8));
    for (error, message) in [
        (LineReadError::Timeout, "timed out waiting for control socket response"),
        (LineReadError::Closed, "control socket closed without a response"),
        (LineReadError::TooLong, "control message exceeds protocol maximum"),
        (LineReadError::InvalidUtf8, "control message is not valid UTF-8"),
        (LineReadError::Io("x".to_string()), "control socket read failed: x"),
    ] {
        assert_eq!(error.into_control().to_string(), message);
    }
}

#[test]
fn oversized_request_is_rejected() {
    let mut reader = LineReader::new(CONTROL_MAX_LINE_BYTES);
    assert!(matches!(
        reader.feed(&vec![b'x'; CONTROL_MAX_LINE_BYTES + 1]),
        LineStep::TooLong
    ));
    let text = encode_response(&answer_to_unread(&LineReadError::TooLong).unwrap());
    assert!(text.contains("protocol maximum"), "unexpected reply: {text}");
    assert!(answer_to_unread(&LineReadError::Closed).is_none());
    assert!(check_request_length(&"x".repeat(CONTROL_MAX_LINE_BYTES)).is_ok());
    let error = check_request_length(&"x".repeat(CONTROL_MAX_LINE_BYTES + 1)).unwrap_err();
    assert!(error.to_string().contains("protocol maximum"));
}

#[test]
fn asking_the_service_can_fail() {
    let why = "x".to_string();
    for (fault, message) in [
        (SendFault::ConnectExpired, "timed out connecting to control socket"),
        (SendFault::NotConnected(why.clone()), "could not connect to control socket /s: x"),
        (SendFault::WriteExpired, "timed out writing control socket request"),
        (SendFault::NotWritten(why.clone()), "control socket write failed: x"),
        (SendFault::CloseExpired, "timed out closing control socket write"),
        (SendFault::NotClosed(why.clone()), "control socket shutdown failed: x"),
        (SendFault::BadAnswer(why), "invalid control socket response: x"),
    ] {
        assert_eq!(fault.error("/s").to_string(), message);
    }
}

#[test]
fn requests_are_routed() {
    for (op, expected) in [
        ("status", Op::Status),
        ("stop", Op::Stop),
        ("subscribe", Op::Subscribe),
        ("start_recording", Op::StartRecording),
        ("pause_recording", Op::PauseRecording),
        ("get_state", Op::GetState),
        ("cleanup_apply", Op::CleanupApply),
    ] {
        assert_eq!(route(op).unwrap(), expected);
    }
    let line = encode_response(&route("nope").unwrap_err());
    assert_eq!(line, "{\"ok\":false,\"error\":\"unknown op 'nope'\"}");
    assert_eq!(
        failure_line(&AppError::Database("locked".to_string())),
        "{\"ok\":false,\"error\":\"database error: locked\"}"
    );
    let (payload, more) = HandlerOut::Line("{}".to_string()).payload();
    assert_eq!((payload.as_str(), more), ("{}\n", false));
    let (payload, more) = HandlerOut::Subscribe.payload();
    assert_eq!(json(&payload)["subscribed"], true);
    assert!(more && payload.ends_with('\n'));
}

#[test]
fn recordings_are_paused_and_resumed() {
    let mut status = RuntimeStatus::new(ProviderKind::Voxtype);
    assert_eq!(json(&set_paused(&mut status, true))["error"], "no meeting is active");
    assert!(!status.capture_paused);
    status.capture_active = true;
    assert_eq!(json(&set_paused(&mut status, true))["paused"], true);
    assert!(status.capture_paused);
    assert_eq!(json(&set_paused(&mut status, false))["paused"], false);
}

#[test]
fn starts_and_stops_are_answered() {
    assert_eq!(json(&start_line(&StartReply::Started("s".to_string())))["session_id"], "s");
    assert_eq!(json(&start_line(&StartReply::Unavailable))["code"], "unavailable");
    assert_eq!(json(&start_line(&StartReply::ShuttingDown))["error"], "daemon is shutting down");
    assert_eq!(
        json(&start_line(&StartReply::Cancelled))["error"],
        "recording start was cancelled"
    );
    assert_eq!(
        json(&start_line(&StartReply::Failed(AppError::control("no"))))["error"],
        "no"
    );
    let stopped = StopReply::Stopped(StopOutcome {
        session_id: "s".to_string(),
        duration_secs: 12,
        transcription_pending: true,
    });
    let value = json(&stop_line(&stopped));
    assert_eq!(value["duration_secs"], 12);
    assert_eq!(value["transcription_pending"], true);
    assert_eq!(json(&stop_line(&StopReply::Cancelled))["error"], "recording stop was cancelled");
    assert_eq!(json(&stop_line(&StopReply::Failed(AppError::control("x"))))["error"], "x");
}

/// A store with one session of one turn.
fn seeded(path: &str) -> Store {
    let mut store = Store::new();
    insert_running_session(&mut store, "s", None, None, None, &NOW.to_string()).unwrap();
    insert_run(&mut store, "s", ProviderKind::Voxtype, "m", "r", &NOW.to_string()).unwrap();
    let chunk = PersistChunk {
        session_id: "s",
        run_id: "r",
        provider: ProviderKind::Voxtype,
        model: "m",
        source: AudioSource::Mic,
        started_at: now(),
        ended_at: now().plus_millis(1_000),
        samples: &[1; 16],
    };
    persist_recorded_chunk(&mut store, &chunk, 1, path, "c", "j", &NOW.to_string()).unwrap();
    store
}

fn transcribe(store: &mut Store) {
    let result = TranscriptionResult {
        text: "hi".to_string(),
        provider: ProviderKind::Voxtype,
        model: "m".to_string(),
        provider_metadata: None,
    };
    record_transcription_success(store, "j", &result, None, "e", &NOW.to_string()).unwrap();
}

fn view(store: &Store) -> SessionView {
    SessionView {
        session: store.sessions[0].clone(),
        chunks: store.chunks.iter().map(Clone::clone).collect(),
        jobs: store.jobs.iter().map(Clone::clone).collect(),
        transcribed: store.events.iter().map(|e| e.audio_chunk_id.clone()).collect(),
        audio_present: vec![true; store.chunks.len()],
        transcript_exists: false,
    }
}

fn context(config: &Config) -> StatusContext<'_> {
    StatusContext {
        config,
        now: now().plus_millis(90_000),
        voxtype_available: true,
        whisper_executable_exists: true,
        whisper_model_is_file: true,
    }
}

const INSIDE: &str = "/data/voxtype-meeting-service/sessions/s/audio/mic/1.flac";

#[test]
fn a_session_is_shown() {
    let config = Config::default("/home/xa");
    let mut store = seeded(INSIDE);
    let line = session_line(session_json(&paths(), &view(&store), &context(&config)));
    let value = &json(&line)["session"];
    assert_eq!(value["id"], "s");
    assert_eq!(value["state"], "running");
    assert_eq!(value["ui_status"], "recording");
    assert_eq!(value["duration_secs"], 90);
    assert_eq!(value["duration_label"], "1 min");
    assert_eq!(value["chunk_count"], 1);
    assert_eq!(value["completed_jobs"], 0);
    assert_eq!(value["can_delete_session"], false);
    assert_eq!(value["can_delete_audio"], false);
    assert_eq!(value["ended_at"], serde_json::Value::Null);
    assert_eq!(
        value["session_dir"],
        "/data/voxtype-meeting-service/sessions/s"
    );
    transcribe(&mut store);
    set_session_state(&mut store, "s", SessionState::Completed, some(NOW));
    store.sessions[0].title = some("Weekly");
    let line = list_sessions_line(vec![session_json(&paths(), &view(&store), &context(&config))]);
    let value = &json(&line)["sessions"][0];
    assert_eq!(value["title"], "Weekly");
    assert_eq!(value["ui_status"], "complete");
    assert_eq!(value["can_delete_audio"], true);
    assert_eq!(value["can_retry"], false);
    assert_eq!(value["completed_jobs"], 1);
    assert_eq!(value["duration_secs"], 0);
}

#[test]
fn the_state_is_shown() {
    let mut status = RuntimeStatus::new(ProviderKind::Voxtype);
    status.capture_active = true;
    status.session_id = some("s");
    let mic = AudioDevice {
        id: "m".to_string(),
        description: String::new(),
        role: DeviceRole::Microphone,
    };
    let line = get_state(
        "1.2.3",
        &status,
        (1, 2, 3),
        &some("look"),
        source_status_json(None, Some(&mic), SourceUiState::Capturing, true),
        source_status_json(None, None, SourceUiState::Idle, false),
        vec![],
    );
    let value = json(&line);
    assert_eq!(value["daemon_version"], "1.2.3");
    assert_eq!(value["recording"]["active"], true);
    assert_eq!(value["recording"]["microphone"]["label"], "m");
    assert_eq!(value["recording"]["microphone"]["state"], "capturing");
    assert_eq!(value["recording"]["system_audio"]["label"], "Unavailable");
    assert_eq!(value["recording"]["system_audio"]["state"], "unavailable");
    assert_eq!(value["panel"]["state"], "recording");
    assert_eq!(value["panel"]["completed_jobs"], 3);
    assert_eq!(value["attention"]["message"], "look");
    assert_eq!(panel_state(false, 1, true), "attention");
    assert_eq!(panel_state(false, 1, false), "transcribing");
    assert_eq!(panel_state(false, 0, false), "idle");
    assert!(matches!(source_json(None, SourceUiState::Reconnecting), Tree::Object(_)));
}

#[test]
fn missing_tools_need_attention_while_jobs_wait() {
    let mut config = Config::default("/home/xa");
    assert_eq!(panel_attention(&config, 1, false, false), None);
    config.transcription.provider = ProviderKind::WhisperCpp;
    config.transcription.whisper_cpp.executable = "/w".to_string();
    config.transcription.whisper_cpp.model = "/m".to_string();
    assert_eq!(panel_attention(&config, 0, false, false), None);
    assert_eq!(
        panel_attention(&config, 1, false, true).as_deref(),
        Some("whisper-cli was not found at /w")
    );
    assert_eq!(
        panel_attention(&config, 1, true, false).as_deref(),
        Some("whisper.cpp model was not found at /m")
    );
}

#[test]
fn five_recent_meetings() {
    let mut store = Store::new();
    for n in 0..7 {
        let at = format!("2026-08-17T12:00:0{n}.000Z");
        insert_running_session(&mut store, &format!("s{n}"), None, None, None, &at).unwrap();
        if n != 6 {
            set_session_state(&mut store, &format!("s{n}"), SessionState::Completed, some(&at));
        }
    }
    let ids: Vec<String> = recent_sessions(&store).into_iter().map(|s| s.id).collect();
    assert_eq!(ids, vec!["s5", "s4", "s3", "s2", "s1"]);
}

#[test]
fn sessions_are_renamed() {
    let mut store = seeded(INSIDE);
    let (line, id) = rename_session(&mut store, &some(" s "), &some("  Weekly ")).unwrap();
    assert_eq!((json(&line)["title"].as_str().unwrap(), id.as_str()), ("Weekly", "s"));
    assert_eq!(store.sessions[0].title.as_deref(), Some("Weekly"));
    let mut refused = |id: Option<String>, title: Option<String>| {
        rename_session(&mut store, &id, &title).unwrap_err().to_string()
    };
    assert_eq!(refused(None, some("x")), "session_id is required");
    assert_eq!(refused(some("s"), some(" ")), "title must not be empty");
    assert_eq!(refused(some("s"), None), "title must not be empty");
    assert_eq!(
        refused(some("s"), some(&"é".repeat(121))),
        "title must be 120 characters or fewer"
    );
    assert_eq!(refused(some("z"), some("x")), "Session z not found");
    assert!(rename_session(&mut store, &some("s"), &some(&"é".repeat(120))).is_ok());
    assert!(require_session_id(&some("  ")).is_err());
}

#[test]
fn jobs_of_a_session_are_hurried() {
    let mut store = seeded(INSIDE);
    let (line, id) = retry_session(&mut store, &some("s"), &NOW.to_string()).unwrap();
    assert_eq!((json(&line)["updated"].as_u64(), id.as_str()), (Some(1), "s"));
    let (line, _) = retry_session(&mut store, &some("t"), &NOW.to_string()).unwrap();
    assert_eq!(json(&line)["updated"], 0);
    assert!(retry_session(&mut store, &None, &NOW.to_string()).is_err());
    assert_eq!(json(&retried_line(4))["updated"], 4);
    let line = retranscribed_line("r2", 3);
    assert_eq!((json(&line)["run_id"].as_str(), json(&line)["count"].as_u64()), (Some("r2"), Some(3)));
    let config = Config::default("/home/xa");
    let (kind, model) = retranscription(&some("voxtype"), &config).unwrap();
    assert_eq!((kind, model.as_str()), (ProviderKind::Voxtype, "configured"));
    assert!(retranscription(&None, &config).is_err());
    let mut two = Config::default("/home/xa");
    two.transcription.languages = vec!["fr".to_string(), "en".to_string()];
    assert!(retranscription(&some("whisper_cpp"), &two).is_err());
}

#[test]
fn audio_is_deleted_only_below_its_session() {
    let mut store = seeded(INSIDE);
    assert_eq!(
        delete_session_audio(&paths(), &store, &some("s")).unwrap_err().to_string(),
        "cannot delete audio for an active recording"
    );
    set_session_state(&mut store, "s", SessionState::Completed, some(NOW));
    assert_eq!(
        delete_session_audio(&paths(), &store, &some("s")).unwrap_err().to_string(),
        "audio can be deleted only after every chunk has a transcript"
    );
    assert_eq!(
        delete_session_audio(&paths(), &store, &some("z")).unwrap_err().to_string(),
        "Session z not found"
    );
    assert_eq!(
        delete_session_audio(&paths(), &store, &None).unwrap_err().to_string(),
        "session_id is required"
    );
    transcribe(&mut store);
    let deletion = delete_session_audio(&paths(), &store, &some("s")).unwrap();
    assert_eq!(deletion.files, vec![INSIDE]);
    assert_eq!(json(&deletion_line(&deletion).unwrap())["deleted"], true);
    store.chunks[0].file_path = "/etc/passwd".to_string();
    let deletion = delete_session_audio(&paths(), &store, &some("s")).unwrap();
    assert!(deletion.files.is_empty());
    assert_eq!(
        deletion_line(&deletion).unwrap_err().to_string(),
        "refusing to delete a file outside the session directory"
    );
}

#[test]
fn an_active_recording_is_not_deleted() {
    let mut store = seeded(INSIDE);
    let mut status = RuntimeStatus::new(ProviderKind::Voxtype);
    let refused = |store: &Store, status: &RuntimeStatus, id: &str| {
        check_delete_session(store, status, &some(id)).unwrap_err().to_string()
    };
    assert_eq!(refused(&store, &status, "s"), "cannot delete an active recording");
    set_session_state(&mut store, "s", SessionState::Completed, some(NOW));
    assert_eq!(check_delete_session(&store, &status, &some(" s ")).unwrap(), "s");
    status.capture_active = true;
    status.session_id = some("s");
    assert_eq!(refused(&store, &status, "s"), "cannot delete an active recording");
    assert_eq!(refused(&store, &status, "z"), "Session z not found");
    assert!(check_delete_session(&store, &status, &None).is_err());
    assert_eq!(json(&deleted_line())["deleted"], true);
    assert_eq!(get_session(&store, &some("s")).unwrap().id, "s");
    assert_eq!(
        get_session(&store, &some("z")).unwrap_err().to_string(),
        "Session z not found"
    );
}

#[test]
fn settings_are_shown() {
    let mut config = Config::default("/home/xa");
    config.transcription.languages = vec!["fr".to_string()];
    let distro = DistroInfo::from_os_release("ID=linuxmint\nPRETTY_NAME=Mint\n");
    let line = get_config(
        "1.2.3",
        &some("X"),
        &distro,
        (1024, 512),
        &paths(),
        &some("/run/s.sock"),
        &config,
    );
    let value = json(&line);
    assert_eq!(value["distribution"], "Mint");
    assert_eq!(value["desktop_environment"], "X");
    assert_eq!(value["storage"]["stored_audio_label"], "1.0 KB");
    assert_eq!(value["storage"]["free_bytes"], 512);
    assert_eq!(value["paths"]["data_dir"], "/data/voxtype-meeting-service");
    assert_eq!(value["paths"]["control_socket"], "/run/s.sock");
    assert_eq!(value["config"]["general"]["minimum_free_space_mb"], 1024);
    assert_eq!(value["config"]["audio"]["source"], "both");
    assert_eq!(value["config"]["transcription"]["languages"][0], "fr");
    assert_eq!(
        value["config"]["transcription"]["whisper_cpp"]["executable"],
        "/usr/local/bin/whisper-cli"
    );
    assert_eq!(value["config"]["transcript"]["omit_single_source_headers"], true);
    let refused = rejected_settings(&AppError::config("max_concurrent_jobs must be between 1 and 8"));
    let value = json(&encode_response(&refused));
    assert_eq!(value["code"], "validation");
    assert_eq!(
        value["fields"]["transcription.max_concurrent_jobs"],
        "max_concurrent_jobs must be between 1 and 8"
    );
    let value = json(&encode_response(&rejected_settings(&AppError::config("odd"))));
    assert_eq!(value["fields"].as_object().unwrap().len(), 0);
}

#[test]
fn settings_are_changed_or_refused() {
    let base = Config::default("/home/xa");
    let whisper = || ConfigPatch {
        transcription: Some(TranscriptionPatch {
            provider: some("whisper_cpp"),
            ..Default::default()
        }),
        ..Default::default()
    };
    let next = update_config(&base, whisper(), "/home/xa", true, true).unwrap();
    assert_eq!(next.transcription.provider, ProviderKind::WhisperCpp);
    let refused = update_config(&base, whisper(), "/home/xa", false, true).unwrap_err();
    let value = json(&encode_response(&refused));
    assert_eq!(value["code"], "validation");
    assert!(value["error"].as_str().unwrap().contains("whisper-cli was not found at"));
    let refused = update_config(&base, whisper(), "/home/xa", true, false).unwrap_err();
    assert!(encode_response(&refused).contains("whisper.cpp model was not found at"));
    let patch = ConfigPatch {
        transcription: Some(TranscriptionPatch {
            max_concurrent_jobs: Some(9),
            ..Default::default()
        }),
        ..Default::default()
    };
    let refused = update_config(&base, patch, "/home/xa", false, false).unwrap_err();
    let value = json(&encode_response(&refused));
    assert_eq!(value["fields"].as_object().unwrap().len(), 1);
    let same = update_config(&base, ConfigPatch::default(), "/home/xa", false, false);
    assert_eq!(same.unwrap(), base);
}

#[test]
fn diagnostics_and_devices_are_listed() {
    let value = json(&get_diagnostics("1.2.3", &None, &vec![], &some("/s.sock"), true));
    assert_eq!(value["checks"][0]["id"], "daemon");
    assert_eq!(value["checks"][0]["detail"], "running 1.2.3");
    assert_eq!(value["checks"][1]["status"], "PASS");
    let value = json(&get_diagnostics("1.2.3", &None, &vec![], &None, true));
    assert_eq!(value["checks"][1]["status"], "FAIL");
    assert_eq!(value["checks"][1]["detail"], "unavailable");
    let mic = AudioDevice {
        id: "m".to_string(),
        description: "M".to_string(),
        role: DeviceRole::Microphone,
    };
    let value = json(&list_devices(&vec![mic], &vec![]));
    assert_eq!(value["microphones"][0]["description"], "M");
    assert_eq!(value["outputs"].as_array().unwrap().len(), 0);
    let value = json(&cleanup_line(3, 2048, 1));
    assert_eq!((value["files"].as_u64(), value["sessions"].as_u64()), (Some(3), Some(1)));
    assert_eq!(value["bytes_label"], "2.0 KB");
}

#[test]
fn answers_are_taken_by_the_client() {
    assert!(print_json_line(&encode_response(&Response::stop())).is_ok());
    assert!(print_json_line(&encode_ok(vec![])).is_ok());
    let refused = encode_response(&Response::error("a recording is already active"));
    assert_eq!(
        print_json_line(&refused).unwrap_err().to_string(),
        "a recording is already active"
    );
    assert_eq!(
        print_json_line("{\"ok\":false}").unwrap_err().to_string(),
        "request failed"
    );
    assert!(matches!(print_json_line("nonsense"), Err(AppError::Json(_))));
    assert!(check_answer(&Tree::Null).is_ok());
    assert!(check_socket(true).is_ok());
    assert!(check_socket(false).unwrap_err().to_string().contains("daemon is not running"));
    assert_eq!(request_line("status"), "{\"op\":\"status\"}");
    assert_eq!(RecordCommand::Stop.request(), "{\"op\":\"stop_recording\"}");
    assert_eq!(ProviderArg::WhisperCpp.kind(), ProviderKind::WhisperCpp);
}

#[test]
fn commands_say_what_they_did() {
    assert_eq!(retry_message(0), "No eligible jobs.");
    assert_eq!(retry_message(2), "Queued 2 transcription job(s) for retry.");
    assert_eq!(
        retranscribe_message(3, ProviderKind::WhisperCpp, "r"),
        "Queued 3 chunks for retranscription with whisper_cpp (run r)"
    );
    assert_eq!(
        rebuild_message("s"),
        "Rebuilt transcript.md and transcript.jsonl for session s"
    );
    let mut store = seeded(INSIDE);
    store.jobs[0].state = JobState::Processing;
    let config = Config::default("/home/xa");
    let whisper = Some(ProviderKind::WhisperCpp);
    assert_eq!(cmd_retry(&mut store, whisper, &config, &NOW.to_string()).unwrap(), 1);
    assert_eq!(store.jobs[0].provider, ProviderKind::WhisperCpp);
    assert_eq!(store.jobs[0].state, JobState::Pending);
    let mut two = Config::default("/home/xa");
    two.transcription.languages = vec!["fr".to_string(), "en".to_string()];
    assert!(cmd_retry(&mut store, whisper, &two, &NOW.to_string()).is_err());
    assert_eq!(cmd_retry(&mut store, None, &two, &NOW.to_string()).unwrap(), 1);
}

#[test]
fn one_recording_at_a_time() {
    let mut state = DaemonState::Idle;
    assert!(matches!(&state.step(DaemonEvent::Stop)[..], [DaemonAction::RefuseStop]));
    assert!(matches!(
        &state.step(DaemonEvent::Start { capture_active: false })[..],
        [DaemonAction::Begin]
    ));
    let actions = state.step(DaemonEvent::Started(some("s")));
    assert!(matches!(
        &actions[..],
        [
            DaemonAction::Tell(News::RecordingStarted, _),
            DaemonAction::Tell(News::SessionCreated, _),
            DaemonAction::Accept(id)
        ] if id == "s"
    ));
    assert!(matches!(
        &state.step(DaemonEvent::Start { capture_active: true })[..],
        [DaemonAction::RefuseStart(Refusal::AlreadyRecording)]
    ));
    let actions = state.step(DaemonEvent::Stop);
    assert!(matches!(
        &actions[..],
        [
            DaemonAction::StopCapture,
            DaemonAction::AwaitSession,
            DaemonAction::AnswerStop(id),
            DaemonAction::Tell(News::RecordingStopped, _)
        ] if id == "s"
    ));
    assert!(state.step(DaemonEvent::Settled { shutting_down: false }).is_empty());
    assert!(matches!(state, DaemonState::Idle));
    assert!(matches!(
        &state.step(DaemonEvent::Start { capture_active: true })[..],
        [DaemonAction::RefuseStart(Refusal::AlreadyRecording)]
    ));
    assert_eq!(Refusal::NotRecording.error().to_string(), "no recording is active");
    assert_eq!(News::RecordingInterrupted.event("s").event, "recording_interrupted");
}

#[test]
fn recordings_that_do_not_begin() {
    let mut state = DaemonState::Starting;
    assert!(matches!(
        &state.step(DaemonEvent::Started(None))[..],
        [DaemonAction::RefuseStart(Refusal::FailedToStart), DaemonAction::AwaitSession]
    ));
    state = DaemonState::Starting;
    let failed = DaemonEvent::Ended { result: Err(AppError::audio("no")), stop_reason: false };
    assert!(matches!(&state.step(failed)[..], [DaemonAction::Fail(_)]));
    state = DaemonState::Starting;
    let early = DaemonEvent::Ended { result: Ok("s".to_string()), stop_reason: false };
    assert!(matches!(
        &state.step(early)[..],
        [DaemonAction::Accept(_), DaemonAction::Tell(News::RecordingStopped, _)]
    ));
    state = DaemonState::Starting;
    assert!(matches!(
        &state.step(DaemonEvent::Shutdown)[..],
        [
            DaemonAction::StopCapture,
            DaemonAction::RefuseStart(Refusal::ShuttingDown),
            DaemonAction::AwaitSession
        ]
    ));
    assert!(matches!(state, DaemonState::Down));
    assert!(state.step(DaemonEvent::Start { capture_active: false }).is_empty());
}

#[test]
fn recordings_that_are_interrupted() {
    let mut state = DaemonState::Recording { session_id: "s".to_string() };
    let full = DaemonEvent::Ended { result: Ok("s".to_string()), stop_reason: true };
    assert!(matches!(
        &state.step(full)[..],
        [DaemonAction::Tell(News::RecordingInterrupted, _)]
    ));
    state = DaemonState::Recording { session_id: "s".to_string() };
    assert_eq!(state.step(DaemonEvent::Shutdown).len(), 3);
    state.step(DaemonEvent::Settled { shutting_down: true });
    assert!(matches!(state, DaemonState::Down));
}

#[test]
fn what_came_of_a_recording() {
    let mut store = seeded(INSIDE);
    let later = now().plus_millis(61_500);
    let outcome = stop_outcome(&store, "s", later).unwrap();
    assert_eq!((outcome.duration_secs, outcome.transcription_pending), (61, true));
    transcribe(&mut store);
    assert!(!stop_outcome(&store, "s", later).unwrap().transcription_pending);
    assert_eq!(
        stop_outcome(&store, "z", later).err().unwrap().to_string(),
        "session was not found after stop"
    );
    store.sessions[0].started_at = "never".to_string();
    assert_eq!(session_duration_secs(&store.sessions[0], later), 0);
    let mut status = RuntimeStatus::new(ProviderKind::Voxtype);
    status.capture_active = true;
    status.session_id = some("s");
    mark_down(&mut status);
    assert!(!status.capture_active && status.session_id.is_none());
}
