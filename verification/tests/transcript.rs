//! Transcripts and how sessions are shown.

use voxtype_meeting_service::audio::AudioSource;
use voxtype_meeting_service::config::{Config, ProviderKind};
use voxtype_meeting_service::session_status::{
    attention_reason, derive_ui_status, display_title, fallback_title, fallback_title_with,
    format_duration_secs, StatusContext, UiSessionStatus,
};
use voxtype_meeting_service::storage::events::TranscriptEventRecord;
use voxtype_meeting_service::storage::types::{
    AudioChunkRecord, JobState, SessionRecord, SessionState, TranscriptionJobRecord,
};
use voxtype_meeting_service::timeutil::{
    datetime_rfc3339, format_offset, local_display, now_rfc3339, parse_rfc3339, UtcTime,
    MAX_SECS, MIN_SECS,
};
use voxtype_meeting_service::transcript::{
    cmp_events, render_jsonl, render_jsonl_with, render_markdown, render_markdown_with,
    shown_starts, sort_events, sources_with_text, stamped_times,
};

fn event(source: AudioSource, seq: u64, started: &str, text: &str) -> TranscriptEventRecord {
    TranscriptEventRecord {
        id: format!("{}-{seq}", source.as_str()),
        session_id: "s".to_string(),
        audio_chunk_id: format!("c{seq}"),
        job_id: format!("j{seq}"),
        source,
        sequence: seq,
        started_at: started.to_string(),
        ended_at: started.to_string(),
        text: text.to_string(),
        provider: ProviderKind::Voxtype,
        model: "configured".to_string(),
        is_canonical: true,
        created_at: started.to_string(),
    }
}

#[test]
fn order_by_started_then_source_then_sequence() {
    let later = event(AudioSource::Mic, 1, "2026-08-17T14:32:09.000+02:00", "later");
    let earlier_sys = event(AudioSource::System, 1, "2026-08-17T14:32:04.000+02:00", "sys");
    let earlier_mic = event(AudioSource::Mic, 1, "2026-08-17T14:32:04.000+02:00", "mic");
    let mut events = vec![later, earlier_sys.clone(), earlier_mic.clone()];
    sort_events(&mut events);
    assert_eq!(events[0].text, "mic");
    assert_eq!(events[1].text, "sys");
    assert_eq!(events[2].text, "later");
    assert_eq!(cmp_events(&earlier_mic, &earlier_sys), std::cmp::Ordering::Less);
}

#[test]
fn markdown_shape() {
    let events = vec![event(
        AudioSource::Mic,
        12,
        "2026-08-17T12:32:04.120Z",
        "I think we should change the pricing.",
    )];
    let md = render_markdown(
        "90e351d4-24cc-4ca1-bfd7-87d36aa9b021",
        "2026-08-17T12:32:01.000Z",
        &events,
        false,
        None,
    );
    assert!(md.contains("# Audio session"));
    assert!(md.contains("Session: 90e351d4-24cc-4ca1-bfd7-87d36aa9b021"));
    assert!(md.contains("[MIC]"));
    assert!(md.contains("I think we should change the pricing."));
    assert!(!md.contains("gpt-4o-transcribe"));
}

#[test]
fn omit_headers_when_only_one_source_has_text() {
    let events = vec![
        event(AudioSource::System, 1, "2026-08-17T16:43:05.000Z", "   "),
        event(
            AudioSource::Mic,
            1,
            "2026-08-17T16:43:05.000Z",
            "All right, so the first version.",
        ),
        event(AudioSource::System, 2, "2026-08-17T16:43:35.000Z", ""),
        event(
            AudioSource::Mic,
            2,
            "2026-08-17T16:43:35.000Z",
            "It has to be a small icon.",
        ),
    ];
    let md = render_markdown("session-id", "2026-08-17T16:43:03.000Z", &events, true, None);
    assert!(md.contains("All right, so the first version."));
    assert!(md.contains("It has to be a small icon."));
    assert!(!md.contains("[MIC]"));
    assert!(!md.contains("[SYSTEM]"));
    assert!(!md.contains("16:43:05"));
    assert!(!md.contains("18:43:05"));
    assert_eq!(sources_with_text(&events), 1);
}

#[test]
fn keep_headers_when_both_sources_have_text() {
    let events = vec![
        event(AudioSource::Mic, 1, "2026-08-17T12:32:04.000Z", "hello"),
        event(AudioSource::System, 1, "2026-08-17T12:32:04.000Z", "world"),
    ];
    let md = render_markdown("s", "2026-08-17T12:32:01.000Z", &events, true, None);
    assert!(md.contains("[MIC]"));
    assert!(md.contains("[SYSTEM]"));
    assert!(md.contains("hello"));
    assert!(md.contains("world"));
}

#[test]
fn keep_headers_when_setting_is_off() {
    let events = vec![event(AudioSource::Mic, 1, "2026-08-17T12:32:04.000Z", "hello")];
    let md = render_markdown("s", "2026-08-17T12:32:01.000Z", &events, false, None);
    assert!(md.contains("[MIC]"));
    assert!(md.contains("hello"));
}

#[test]
fn jsonl_one_object_per_line() {
    let events = vec![event(AudioSource::Mic, 12, "2026-08-17T12:32:04.120Z", "hello")];
    let jsonl = render_jsonl(&events).unwrap();
    let line = jsonl.trim();
    let value: serde_json::Value = serde_json::from_str(line).unwrap();
    assert_eq!(value["source"], "mic");
    assert_eq!(value["sequence"], 12);
    assert_eq!(value["text"], "hello");
    assert_eq!(value["provider"], "voxtype");
}

#[test]
fn a_transcript_with_given_times() {
    let events = vec![
        event(AudioSource::Mic, 1, "2026-08-17T12:32:04.000Z", " hello "),
        event(AudioSource::System, 1, "2026-08-17T12:32:05.000Z", "world"),
    ];
    let times = vec!["12:32:04".to_string(), "12:32:05".to_string()];
    let md = render_markdown_with("s", "today", &events, &times, false, Some("Weekly"));
    assert!(md.contains("12:32:04 [MIC]"), "{md}");
    assert!(md.contains("12:32:05 [SYSTEM]"), "{md}");
    assert!(md.contains("Weekly"), "{md}");
    assert!(md.contains("today"), "{md}");
    let stamps = vec![
        ("a".to_string(), "b".to_string()),
        ("c".to_string(), "d\nquoted \"".to_string()),
    ];
    let lines = render_jsonl_with(&events, &stamps);
    assert_eq!(lines.lines().count(), 2);
    let second: serde_json::Value = serde_json::from_str(lines.lines().nth(1).unwrap()).unwrap();
    assert_eq!(second["ended_at"], "d\nquoted \"");
    assert_eq!(second["source"], "system");
}

#[test]
fn times_are_read_and_written() {
    let time = parse_rfc3339("2026-08-17T14:32:04.120+02:00").unwrap();
    assert_eq!(datetime_rfc3339(time), "2026-08-17T12:32:04.120Z");
    assert_eq!(parse_rfc3339(&datetime_rfc3339(time)).unwrap(), time);
    assert!(parse_rfc3339(&now_rfc3339()).is_ok());
    let error = parse_rfc3339("yesterday").unwrap_err();
    assert!(
        error.to_string().starts_with("invalid RFC3339 timestamp 'yesterday': "),
        "{error:?}"
    );
    assert_eq!(time.seconds_until(time.plus_millis(2_500)), 2);
    assert_eq!(time.plus_millis(2_500).seconds_until(time), 0);
    let shown = format_offset("2026-08-17T12:32:04.120Z").unwrap();
    assert_eq!(parse_rfc3339(&shown).unwrap(), time);
    assert_eq!(
        format_offset("yesterday").unwrap_err().to_string(),
        parse_rfc3339("yesterday").unwrap_err().to_string()
    );
}

#[test]
fn times_are_shown_by_the_local_clock() {
    let value = "2026-08-17T12:32:04.120Z";
    let stamp = format_offset(value).unwrap();
    assert_eq!(local_display(value, "%H:%M:%S").unwrap(), stamp[11..19]);
    let offset = if stamp.ends_with('Z') { "+00:00" } else { &stamp[23..] };
    assert_eq!(
        local_display(value, "%Y-%m-%d %H:%M:%S %:z").unwrap(),
        format!("{} {} {offset}", &stamp[..10], &stamp[11..19])
    );
    assert_eq!(
        local_display(value, "%d %b %Y, %H:%M").unwrap(),
        format!("{} Aug {}, {}", &stamp[8..10], &stamp[..4], &stamp[11..16])
    );
    assert_eq!(local_display("nonsense", "%H:%M:%S"), None);
    let times = shown_starts(&vec![
        event(AudioSource::Mic, 1, value, "a"),
        event(AudioSource::Mic, 2, "nonsense", "b"),
    ]);
    assert_eq!(times, [stamp[11..19].to_string(), "nonsense".to_string()]);
}

#[test]
fn the_earliest_time_is_written() {
    let first = UtcTime { secs: MIN_SECS, nanos: 0 };
    assert_eq!(datetime_rfc3339(first), "-262143-01-01T00:00:00.000Z");
    assert_eq!(
        datetime_rfc3339(UtcTime { secs: MAX_SECS, nanos: 999_999_999 }),
        "+262142-12-31T23:59:59.999Z"
    );
}

#[test]
fn starts_and_ends_are_stamped() {
    let mut spoken = event(AudioSource::Mic, 1, "2026-08-17T12:32:04.120Z", "a");
    spoken.ended_at = "2026-08-17T12:32:09.500Z".to_string();
    let times = stamped_times(&vec![spoken.clone()]).unwrap();
    assert_eq!(parse_rfc3339(&times[0].0).unwrap(), parse_rfc3339(&spoken.started_at).unwrap());
    assert_eq!(parse_rfc3339(&times[0].1).unwrap(), parse_rfc3339(&spoken.ended_at).unwrap());
    let line = render_jsonl(&vec![spoken.clone()]).unwrap();
    let line: serde_json::Value = serde_json::from_str(&line).unwrap();
    assert_eq!(line["started_at"], times[0].0.as_str());
    assert_eq!(line["ended_at"], times[0].1.as_str());
    spoken.ended_at = "never".to_string();
    assert!(stamped_times(&vec![spoken]).is_err());
}

fn session(state: SessionState) -> SessionRecord {
    SessionRecord {
        id: "s".to_string(),
        state,
        started_at: "2026-08-17T12:00:00Z".to_string(),
        ended_at: None,
        microphone_id: None,
        microphone_description: None,
        output_id: None,
        output_description: None,
        monitor_id: None,
        monitor_description: None,
        created_at: "2026-08-17T12:00:00Z".to_string(),
        title: None,
    }
}

fn chunk(id: &str) -> AudioChunkRecord {
    AudioChunkRecord {
        id: id.to_string(),
        session_id: "s".to_string(),
        source: AudioSource::Mic,
        sequence: 1,
        started_at: "2026-08-17T12:00:00Z".to_string(),
        ended_at: "2026-08-17T12:00:30Z".to_string(),
        file_path: "/a.flac".to_string(),
        duration_ms: 30000,
        created_at: "2026-08-17T12:00:00Z".to_string(),
    }
}

fn job(state: JobState, next_retry: Option<&str>) -> TranscriptionJobRecord {
    TranscriptionJobRecord {
        id: "j".to_string(),
        audio_chunk_id: "c1".to_string(),
        run_id: "r".to_string(),
        provider: ProviderKind::Voxtype,
        model: Some("m".to_string()),
        state,
        attempt_count: 1,
        last_error: Some("network".to_string()),
        next_retry_at: next_retry.map(str::to_string),
        created_at: "2026-08-17T12:00:00Z".to_string(),
        started_at: None,
        completed_at: None,
    }
}

fn ctx_for(config: &Config) -> StatusContext<'_> {
    StatusContext {
        config,
        now: parse_rfc3339("2026-08-17T12:00:00Z").unwrap(),
        voxtype_available: true,
        whisper_executable_exists: true,
        whisper_model_is_file: true,
    }
}

#[test]
fn running_is_recording() {
    let config = Config::default("/home/xa");
    let status = derive_ui_status(
        &session(SessionState::Running),
        &vec![],
        &vec![],
        &vec![],
        &vec![],
        &ctx_for(&config),
    );
    assert_eq!(status, UiSessionStatus::Recording);
}

#[test]
fn complete_when_every_chunk_has_an_event() {
    let config = Config::default("/home/xa");
    let status = derive_ui_status(
        &session(SessionState::Completed),
        &vec![chunk("c1")],
        &vec![true],
        &vec![],
        &vec!["c1".to_string()],
        &ctx_for(&config),
    );
    assert_eq!(status, UiSessionStatus::Complete);
}

#[test]
fn interrupted_becomes_complete_after_transcription() {
    let config = Config::default("/home/xa");
    let status = derive_ui_status(
        &session(SessionState::Interrupted),
        &vec![chunk("c1")],
        &vec![true],
        &vec![],
        &vec!["c1".to_string()],
        &ctx_for(&config),
    );
    assert_eq!(status, UiSessionStatus::Complete);
}

#[test]
fn processing_is_transcribing() {
    let config = Config::default("/home/xa");
    let status = derive_ui_status(
        &session(SessionState::Completed),
        &vec![chunk("c1")],
        &vec![true],
        &vec![job(JobState::Processing, None)],
        &vec![],
        &ctx_for(&config),
    );
    assert_eq!(status, UiSessionStatus::Transcribing);
}

#[test]
fn future_retry_is_waiting() {
    let config = Config::default("/home/xa");
    let status = derive_ui_status(
        &session(SessionState::Completed),
        &vec![chunk("c1")],
        &vec![true],
        &vec![job(JobState::Pending, Some("2026-08-17T13:00:00Z"))],
        &vec![],
        &ctx_for(&config),
    );
    assert_eq!(status, UiSessionStatus::WaitingRetry);
}

#[test]
fn interrupted_without_transcripts() {
    let config = Config::default("/home/xa");
    let status = derive_ui_status(
        &session(SessionState::Interrupted),
        &vec![chunk("c1")],
        &vec![true],
        &vec![],
        &vec![],
        &ctx_for(&config),
    );
    assert_eq!(status, UiSessionStatus::Interrupted);
}

#[test]
fn lost_audio_needs_attention() {
    let config = Config::default("/home/xa");
    let chunks = vec![chunk("c1")];
    let reason = attention_reason(&chunks, &vec![false], &vec![], &vec![], &ctx_for(&config));
    assert!(reason.is_some());
    assert_eq!(
        attention_reason(&chunks, &vec![true], &vec![], &vec![], &ctx_for(&config)),
        None
    );
}

#[test]
fn fallback_title_uses_local_start_time() {
    let title = fallback_title("2026-08-17T12:32:00Z");
    assert!(title.starts_with("Recording "), "{title}");
    assert!(title.contains("2026"), "{title}");
}

#[test]
fn titles_of_meetings_without_one() {
    assert_eq!(
        fallback_title_with(Some("17 Aug 2026, 14:32")),
        "Recording 17 Aug 2026, 14:32"
    );
    assert_eq!(fallback_title_with(None), "Recording");
    assert_eq!(fallback_title("nonsense"), "Recording");
}

#[test]
fn given_titles_are_shown() {
    let mut s = session(SessionState::Completed);
    assert!(display_title(&s).starts_with("Recording "));
    s.title = Some(" Weekly ".to_string());
    assert_eq!(display_title(&s).trim(), "Weekly");
    assert_eq!(UiSessionStatus::WaitingRetry.as_str(), "waiting_retry");
    assert_eq!(UiSessionStatus::Complete.display_label(), "Complete");
}

#[test]
fn duration_formatting() {
    assert_eq!(format_duration_secs(12), "12 sec");
    assert_eq!(format_duration_secs(4 * 60), "4 min");
    assert_eq!(format_duration_secs(32 * 60), "32 min");
    assert_eq!(format_duration_secs(3600 + 14 * 60), "1 h 14 min");
}
