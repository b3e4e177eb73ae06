//! The tables of meetings.

use voxtype_meeting_service::audio::{AudioDevice, AudioSource, DeviceRole};
use voxtype_meeting_service::cleanup::{
    apply_all, apply_session, capped_sum, cleanup_report, list_eligible, preview_stats,
    EligibleSession,
};
use voxtype_meeting_service::config::{Config, ProviderKind};
use voxtype_meeting_service::encode::{
    audio_file_name, decode_flac_i16_mono_16k, encode_flac_i16_mono_16k, flac_outcome,
    persist_chunk, scale_pcm_to_i16, write_flac_atomic, write_wav_i16_mono_16k, FlacFailure,
};
use voxtype_meeting_service::storage::chunks::{
    chunk_exists_for_path, get_chunk, list_chunks_for_session, next_sequence, sequence_exists,
};
use voxtype_meeting_service::storage::deletion::delete_session_rows;
use voxtype_meeting_service::storage::events::{
    aligned_times_for_event, claim_due_jobs, get_job_provider, list_canonical_events,
    mark_job_retry, record_transcription_success, restamp_canonical_events_from_audio,
    transcribed_chunk_ids, AudioFile,
};
use voxtype_meeting_service::storage::jobs::{
    complete_jobs_that_already_have_events, count_by_state, counts, get_job,
    list_jobs_for_session, queue_retranscribe, reset_processing_without_event, retry_pending,
    retry_session_pending,
};
use voxtype_meeting_service::storage::recovery::{
    is_leftover, parse_chunk_filename, recover_on_startup, FoundFile, FoundSession,
};
use voxtype_meeting_service::storage::sessions::{
    get_running_session, get_session, insert_run, insert_running_session, latest_run,
    list_sessions, set_session_state, set_session_title, snapshot_from_record,
};
use voxtype_meeting_service::storage::types::{JobState, SessionState};
use voxtype_meeting_service::storage::{
    chunk_file, migrations, persist_recorded_chunk, source_from_str, PersistChunk, Store,
};
use voxtype_meeting_service::timeutil::{parse_rfc3339, UtcTime};
use voxtype_meeting_service::transcription::TranscriptionResult;

const NOW: &str = "2026-08-17T12:00:00.000Z";
const LATER: &str = "2026-08-17T13:00:00.000Z";

fn at(text: &str) -> UtcTime {
    parse_rfc3339(text).unwrap()
}

fn config() -> Config {
    Config::default("/home/xa")
}

/// A session with its run.
fn begin(store: &mut Store, id: &str, run: &str, provider: ProviderKind, model: &str) {
    insert_running_session(store, id, None, None, None, &NOW.to_string()).unwrap();
    insert_run(store, id, provider, model, run, &NOW.to_string()).unwrap();
}

/// Stores a turn as the recorder does: its file first, then its rows. Returns its path and
/// the bytes of its file.
fn persist(
    store: &mut Store,
    session: &str,
    run: &str,
    source: AudioSource,
    started_at: UtcTime,
    samples: &[i16],
    n: u32,
) -> (String, Vec<u8>) {
    let chunk = PersistChunk {
        session_id: session,
        run_id: run,
        provider: ProviderKind::Voxtype,
        model: "m",
        source,
        started_at,
        ended_at: started_at.plus_millis(samples.len() as u64 * 1000 / 16_000),
        samples,
    };
    let file = chunk_file(store, &chunk).unwrap();
    let place = write_flac_atomic("/s/audio", &file.file.name, false).unwrap();
    persist_recorded_chunk(
        store,
        &chunk,
        file.sequence,
        &place.path,
        &format!("c{n}"),
        &format!("j{n}"),
        &NOW.to_string(),
    )
    .unwrap();
    (place.path, file.file.bytes)
}

fn result(text: &str) -> TranscriptionResult {
    TranscriptionResult {
        text: text.to_string(),
        provider: ProviderKind::Voxtype,
        model: "m".to_string(),
        provider_metadata: None,
    }
}

#[test]
fn session_state_round_trip() {
    for state in [
        SessionState::Running,
        SessionState::Completed,
        SessionState::Interrupted,
    ] {
        assert_eq!(SessionState::parse(state.as_str()).unwrap(), state);
    }
    let error = SessionState::parse("failed").unwrap_err();
    assert!(error.to_string().contains("invalid session state"));
}

#[test]
fn job_state_round_trip() {
    for state in [JobState::Pending, JobState::Processing, JobState::Completed] {
        assert_eq!(JobState::parse(state.as_str()).unwrap(), state);
    }
    let error = JobState::parse("failed").unwrap_err();
    assert!(error.to_string().contains("invalid job state"));
}

#[test]
fn persist_creates_file_before_job_and_survives_recovery() {
    let mut store = Store::new();
    let config = config();
    let session_id = "90e351d4-24cc-4ca1-bfd7-87d36aa9b021";
    begin(
        &mut store,
        session_id,
        "r",
        config.transcription.provider,
        &config.transcription.model,
    );
    let samples = vec![0i16; 16_000];
    let started = at(NOW);
    let (path, _) =
        persist(&mut store, session_id, "r", AudioSource::Mic, started, &samples, 1);
    let chunks = list_chunks_for_session(&store, session_id);
    assert_eq!(chunks.len(), 1);
    assert_eq!(chunks[0].sequence, 1);
    assert!((chunks[0].duration_ms - 1000).abs() <= 1);
    let job_state = store
        .jobs
        .iter()
        .find(|j| j.audio_chunk_id == chunks[0].id)
        .unwrap()
        .state
        .as_str();
    assert_eq!(job_state, "pending");

    // Two mic chunks increment sequence; system has its own sequence.
    let (path2, _) =
        persist(&mut store, session_id, "r", AudioSource::Mic, started, &samples, 2);
    assert_ne!(path, path2);
    persist(&mut store, session_id, "r", AudioSource::System, started, &samples, 3);
    let chunks = list_chunks_for_session(&store, session_id);
    let mic_seq: Vec<u64> = chunks
        .iter()
        .filter(|c| c.source == AudioSource::Mic)
        .map(|c| c.sequence)
        .collect();
    let sys_seq: Vec<u64> = chunks
        .iter()
        .filter(|c| c.source == AudioSource::System)
        .map(|c| c.sequence)
        .collect();
    assert_eq!(mic_seq, vec![1, 2]);
    assert_eq!(sys_seq, vec![1]);
}

fn found(id: &str, run: &str, names: &[&str]) -> FoundSession {
    FoundSession {
        id: id.to_string(),
        run_id: run.to_string(),
        mic: names
            .iter()
            .map(|name| FoundFile {
                path: format!("/s/{id}/audio/mic/{name}"),
                name: name.to_string(),
                chunk_id: format!("chunk-{id}-{name}"),
                job_id: format!("job-{id}-{name}"),
            })
            .collect(),
        system: vec![],
    }
}

#[test]
fn recovery_imports_orphan_flac_and_interrupts_running() {
    let mut store = Store::new();
    let session_id = "11111111-24cc-4ca1-bfd7-87d36aa9b021";
    insert_running_session(&mut store, session_id, None, None, None, &NOW.to_string()).unwrap();
    let orphan_session = "90e351d4-24cc-4ca1-bfd7-87d36aa9b021";
    let started = at("2026-08-17T12:32:04Z").plus_millis(120);
    let file = persist_chunk(12, started, &vec![0i16; 1600]).unwrap();
    let found = vec![found(orphan_session, "r", &[&file.name])];
    recover_on_startup(&mut store, &found, &config(), &NOW.to_string()).unwrap();

    let recovered = get_session(&store, session_id).unwrap();
    assert_eq!(recovered.state, SessionState::Interrupted);
    let orphan = get_session(&store, orphan_session).unwrap();
    assert_eq!(orphan.state, SessionState::Interrupted);
    let chunks = list_chunks_for_session(&store, orphan_session);
    assert_eq!(chunks.len(), 1);
    assert_eq!(chunks[0].sequence, 12);
    assert!(count_by_state(&store, JobState::Pending) >= 1);
}

#[test]
fn recovering_again_imports_nothing() {
    let mut store = Store::new();
    let id = "90e351d4-24cc-4ca1-bfd7-87d36aa9b021";
    let names = ["00000012_2026-08-17T12-32-04.120Z.flac", "notes.txt"];
    let first = vec![found(id, "r", &names), found("not-a-meeting", "r2", &names)];
    recover_on_startup(&mut store, &first, &config(), &NOW.to_string()).unwrap();
    assert_eq!(store.chunks.len(), 1);
    assert_eq!(store.sessions.len(), 1);
    recover_on_startup(&mut store, &first, &config(), &LATER.to_string()).unwrap();
    assert_eq!((store.chunks.len(), store.jobs.len(), store.runs.len()), (1, 1, 1));
    let odd = vec![found(id, "r", &["x.flac"])];
    assert_eq!(
        recover_on_startup(&mut store, &odd, &config(), &LATER.to_string()).unwrap_err().to_string(),
        "audio filename 'x.flac' does not match <sequence>_<timestamp>.flac"
    );
}

#[test]
fn processing_job_without_event_becomes_pending() {
    let mut store = Store::new();
    begin(&mut store, "s", "r", ProviderKind::Voxtype, "m");
    persist(&mut store, "s", "r", AudioSource::Mic, at(NOW), &[0; 1600], 1);
    store.jobs[0].state = JobState::Processing;
    recover_on_startup(&mut store, &vec![], &config(), &NOW.to_string()).unwrap();
    assert_eq!(count_by_state(&store, JobState::Pending), 1);
}

#[test]
fn session_state_transitions() {
    let mut store = Store::new();
    insert_running_session(&mut store, "s", None, None, None, &NOW.to_string()).unwrap();
    assert_eq!(get_session(&store, "s").unwrap().state, SessionState::Running);
    assert_eq!(get_running_session(&store).unwrap().id, "s");
    set_session_state(&mut store, "s", SessionState::Interrupted, Some("now".to_string()));
    assert_eq!(get_session(&store, "s").unwrap().state, SessionState::Interrupted);
    set_session_state(&mut store, "s", SessionState::Completed, Some("later".to_string()));
    assert_eq!(get_session(&store, "s").unwrap().state, SessionState::Completed);
    assert!(get_running_session(&store).is_none());
}

#[test]
fn parse_spec_filename() {
    let (seq, started) =
        parse_chunk_filename("00000012_2026-08-17T12-32-04.120Z.flac").unwrap();
    assert_eq!(seq, 12);
    assert_eq!(started, at("2026-08-17T12:32:04Z").plus_millis(120));
}

#[test]
fn names_that_are_no_chunks() {
    for name in ["x.flac", "a_b.flac", "12_2026.flac", "00000012-2026-08-17T12-32-04.120Z.flac"] {
        assert!(parse_chunk_filename(name).is_err(), "{name}");
    }
    assert!(is_leftover("a.flac.tmp") && !is_leftover("a.flac"));
}

#[test]
fn filename_matches_spec_example() {
    let started = at("2026-08-17T12:32:04Z").plus_millis(120);
    assert_eq!(
        audio_file_name(12, started),
        "00000012_2026-08-17T12-32-04.120Z.flac"
    );
}

#[test]
fn flac_roundtrip_and_wav_header() {
    let samples: Vec<i16> = (0..1600).map(|i| (i * 13) as i16).collect();
    let bytes = encode_flac_i16_mono_16k(&samples).unwrap();
    let decoded = decode_flac_i16_mono_16k("a.flac", &bytes).unwrap();
    assert_eq!(decoded.len(), samples.len());
    let max_err = samples
        .iter()
        .zip(&decoded)
        .map(|(a, b)| (*a as i32 - *b as i32).unsigned_abs())
        .max()
        .unwrap_or(0);
    assert!(max_err <= 2, "flac roundtrip error {max_err}");
    assert_eq!(decoded, samples);
    let wav_bytes = write_wav_i16_mono_16k(&samples).unwrap();
    assert_eq!(&wav_bytes[..4], b"RIFF");
    assert_eq!(&wav_bytes[8..12], b"WAVE");
    assert_eq!(wav_bytes.len(), 44 + 2 * samples.len());
    assert_eq!(wav_bytes[44 + 2 * 3..44 + 2 * 4], samples[3].to_le_bytes());
    assert_eq!(wav_bytes[24..28], 16_000u32.to_le_bytes());
}

#[test]
fn encode_flac_magic() {
    let samples = vec![0i16; 1600];
    let bytes = encode_flac_i16_mono_16k(&samples).unwrap();
    assert!(bytes.len() > 4);
    assert_eq!(&bytes[..4], b"fLaC");
}

#[test]
fn atomic_write_leaves_tmp_on_pre_rename_path() {
    let place = write_flac_atomic("/d", "00000001_test.flac", false).unwrap();
    assert_eq!(place.path, "/d/00000001_test.flac");
    assert_eq!(place.unfinished, "/d/00000001_test.flac.tmp");
    let err = write_flac_atomic("/d", "00000001_test.flac", true).unwrap_err();
    assert!(err.to_string().contains("refusing to overwrite"));
}

#[test]
fn flac_at_the_edges() {
    assert_eq!(
        encode_flac_i16_mono_16k(&[]).unwrap_err().to_string(),
        "cannot encode an empty PCM buffer as FLAC"
    );
    for len in [16usize, 4096, 4112, 8192, 9000, 50_000] {
        let samples: Vec<i16> =
            (0..len).map(|i| ((i * 7919) % 65_536) as u16 as i16).collect();
        let bytes = encode_flac_i16_mono_16k(&samples).unwrap();
        assert_eq!(decode_flac_i16_mono_16k("a", &bytes).unwrap(), samples, "{len}");
    }
    for len in 1usize..=64 {
        let samples: Vec<i16> = (0..len).map(|i| (i as i16) * 511 - 9_000).collect();
        assert!(encode_flac_i16_mono_16k(&samples).is_ok(), "{len}");
        let after_a_block: Vec<i16> = (0..4096 + len).map(|i| (i % 251) as i16).collect();
        assert!(encode_flac_i16_mono_16k(&after_a_block).is_ok(), "{len}");
    }
    let extremes = [i16::MIN, i16::MAX, 0].repeat(3_000);
    let bytes = encode_flac_i16_mono_16k(&extremes).unwrap();
    assert_eq!(decode_flac_i16_mono_16k("a", &bytes).unwrap(), extremes);
    let error = decode_flac_i16_mono_16k("a.flac", b"fLaCfake").unwrap_err();
    assert!(error.to_string().starts_with("could not decode FLAC a.flac: "), "{error:?}");
    assert_eq!(
        flac_outcome(Err(FlacFailure::Encode("x".to_string()))).unwrap_err().to_string(),
        "FLAC encoding failed: x"
    );
    assert_eq!(
        flac_outcome(Err(FlacFailure::Write("x".to_string()))).unwrap_err().to_string(),
        "FLAC bitstream write failed: x"
    );
    assert_eq!(
        flac_outcome(Err(FlacFailure::Config("x".to_string()))).unwrap_err().to_string(),
        "invalid FLAC encoder configuration: x"
    );
    assert_eq!(scale_pcm_to_i16(40_000, 16), 32_767);
    assert_eq!(scale_pcm_to_i16(-1, 8), -256);
    assert_eq!(scale_pcm_to_i16(0x12_3456, 24), 0x1234);
    assert_eq!(scale_pcm_to_i16(5, 0), 0);
}

/// A session with one turn, with or without its words.
fn seed_session(store: &mut Store, id: &str, state: SessionState, with_event: bool, n: u32) {
    begin(store, id, &format!("r{n}"), ProviderKind::Openai, "m");
    persist(store, id, &format!("r{n}"), AudioSource::Mic, at(NOW), &[0; 1600], n);
    if with_event {
        record_transcription_success(
            store,
            &format!("j{n}"),
            &result("hi"),
            None,
            &format!("e{n}"),
            &NOW.to_string(),
        )
        .unwrap();
    }
    set_session_state(store, id, state, Some("now".to_string()));
}

#[test]
fn dry_run_lists_only_completed_with_events() {
    let mut store = Store::new();
    seed_session(&mut store, "eligible", SessionState::Completed, true, 1);
    seed_session(&mut store, "interrupted", SessionState::Interrupted, true, 2);
    seed_session(&mut store, "missing-event", SessionState::Completed, false, 3);
    let listed = list_eligible(&store);
    assert_eq!(listed.len(), 1);
    assert_eq!(listed[0].id, "eligible");
}

#[test]
fn apply_deletes_eligible_keeps_ineligible() {
    let mut store = Store::new();
    seed_session(&mut store, "eligible", SessionState::Completed, true, 1);
    seed_session(&mut store, "keep", SessionState::Completed, false, 2);
    for session in list_eligible(&store) {
        apply_session(&mut store, &session.id).unwrap();
    }
    assert!(get_session(&store, "eligible").is_none());
    assert!(get_session(&store, "keep").is_some());
    assert_eq!((store.chunks.len(), store.jobs.len(), store.events.len()), (1, 1, 0));
    let kept = vec![EligibleSession { id: "keep".to_string(), files: 3, bytes: 7 }];
    assert_eq!(apply_all(&mut store, &kept).unwrap(), (3, 7, 1));
    assert!(store.sessions.is_empty() && store.chunks.is_empty() && store.runs.is_empty());
}

#[test]
fn a_cleanup_leaves_nothing_to_clean() {
    let mut store = Store::new();
    seed_session(&mut store, "a", SessionState::Completed, true, 1);
    seed_session(&mut store, "b", SessionState::Completed, true, 2);
    seed_session(&mut store, "keep", SessionState::Interrupted, true, 3);
    let eligible: Vec<EligibleSession> = list_eligible(&store)
        .into_iter()
        .map(|s| EligibleSession { id: s.id, files: 2, bytes: 512 })
        .collect();
    assert_eq!(eligible.len(), 2);
    assert_eq!(preview_stats(&eligible), (4, 1024, 2));
    assert_eq!(apply_all(&mut store, &eligible).unwrap(), (4, 1024, 2));
    assert!(list_eligible(&store).is_empty());
    assert_eq!(preview_stats(&vec![]), (0, 0, 0));
    assert_eq!(store.sessions.len(), 1);
    assert_eq!((store.chunks.len(), store.jobs.len(), store.events.len()), (1, 1, 1));
}

#[test]
fn what_a_cleanup_takes() {
    let sessions = vec![
        EligibleSession { id: "a".to_string(), files: 2, bytes: 1024 },
        EligibleSession { id: "b".to_string(), files: 1, bytes: 512 },
    ];
    assert_eq!(preview_stats(&sessions), (3, 1536, 2));
    let report = cleanup_report(&sessions, false);
    assert!(report.contains("a") && report.contains("1.5 KB"), "{report}");
    assert_ne!(report, cleanup_report(&sessions, true));
    assert_eq!(capped_sum(u64::MAX, 1), u64::MAX);
}

#[test]
fn processing_job_recovers_to_pending() {
    let mut store = Store::new();
    begin(&mut store, "s", "r", ProviderKind::Voxtype, "m");
    persist(&mut store, "s", "r", AudioSource::Mic, at(NOW), &[0; 1600], 1);
    store.jobs[0].state = JobState::Processing;
    reset_processing_without_event(&mut store);
    assert_eq!(count_by_state(&store, JobState::Pending), 1);
}

#[test]
fn duplicate_success_inserts_one_event() {
    let mut store = Store::new();
    begin(&mut store, "s", "r", ProviderKind::Voxtype, "m");
    persist(&mut store, "s", "r", AudioSource::Mic, at(NOW), &[0; 1600], 1);
    let once = result("once");
    let now = NOW.to_string();
    assert!(record_transcription_success(&mut store, "j1", &once, None, "e1", &now).unwrap());
    assert!(!record_transcription_success(&mut store, "j1", &once, None, "e2", &now).unwrap());
    assert_eq!(store.events.len(), 1);
    assert_eq!(get_job(&store, "j1").unwrap().state, JobState::Completed);
}

#[test]
fn delayed_speech_shifts_event_off_chunk_start() {
    let mut store = Store::new();
    begin(&mut store, "s", "r", ProviderKind::Voxtype, "m");
    let started = at("2026-08-17T18:45:39Z");
    let mut samples = vec![0i16; 16_000];
    samples.extend((0..3_200).map(|i| {
        let t = i as f32 / 16_000.0;
        (8_000.0 * (2.0 * std::f32::consts::PI * 440.0 * t).sin()) as i16
    }));
    let (path, bytes) =
        persist(&mut store, "s", "r", AudioSource::Mic, started, &samples, 1);
    let words = result("Voilà, ça veut pas");
    record_transcription_success(
        &mut store,
        "j1",
        &words,
        Some(&bytes),
        "e1",
        &NOW.to_string(),
    )
    .unwrap();
    let event_started = at(&store.events[0].started_at);
    let offset = (event_started.secs - started.secs) * 1000
        + i64::from(event_started.nanos / 1_000_000);
    assert!((900..=1_050).contains(&offset), "{offset}");
    let files = vec![AudioFile { path, bytes }];
    assert_eq!(restamp_canonical_events_from_audio(&mut store, "s", &files), 0);
    store.events[0].started_at = NOW.to_string();
    assert_eq!(restamp_canonical_events_from_audio(&mut store, "s", &files), 1);
    assert_eq!(at(&store.events[0].started_at), event_started);
}

#[test]
fn words_without_audio_keep_the_times_of_the_chunk() {
    let times = aligned_times_for_event("hello", "/gone.flac", None, NOW, LATER);
    assert_eq!(times, (NOW.to_string(), LATER.to_string()));
}

#[test]
fn jobs_are_claimed_in_order_and_within_the_limit() {
    let mut store = Store::new();
    begin(&mut store, "s", "r", ProviderKind::Voxtype, "m");
    for n in 1..=3 {
        persist(&mut store, "s", "r", AudioSource::Mic, at(NOW), &[0; 1600], n);
    }
    assert_eq!(claim_due_jobs(&mut store, 2, &NOW.to_string()), vec!["j1", "j2"]);
    assert_eq!(counts(&store), (1, 2, 0));
    assert!(claim_due_jobs(&mut store, 2, &NOW.to_string()).is_empty());
    mark_job_retry(&mut store, "j1", "busy", 60, at(NOW));
    let job = get_job(&store, "j1").unwrap();
    assert_eq!((job.state, job.attempt_count), (JobState::Pending, 1));
    assert_eq!(job.last_error.as_deref(), Some("busy"));
    assert_eq!(job.next_retry_at.as_deref(), Some("2026-08-17T12:01:00.000Z"));
    assert_eq!(claim_due_jobs(&mut store, 2, &NOW.to_string()), vec!["j3"]);
    reset_processing_without_event(&mut store);
    assert_eq!(claim_due_jobs(&mut store, 9, &LATER.to_string()).len(), 3);
}

#[test]
fn jobs_are_tried_again() {
    let mut store = Store::new();
    begin(&mut store, "s", "r", ProviderKind::Voxtype, "m");
    persist(&mut store, "s", "r", AudioSource::Mic, at(NOW), &[0; 1600], 1);
    mark_job_retry(&mut store, "j1", "busy", 3600, at(NOW));
    assert_eq!(retry_session_pending(&mut store, "other", &NOW.to_string()), 0);
    assert_eq!(retry_session_pending(&mut store, "s", &NOW.to_string()), 1);
    assert_eq!(claim_due_jobs(&mut store, 1, &NOW.to_string()), vec!["j1"]);
    reset_processing_without_event(&mut store);
    let other = Some((ProviderKind::WhisperCpp, "/m.bin".to_string()));
    assert_eq!(retry_pending(&mut store, other, &NOW.to_string()), 1);
    let (kind, model, chunk) = get_job_provider(&store, "j1").unwrap();
    assert_eq!((kind, model.as_deref()), (ProviderKind::WhisperCpp, Some("/m.bin")));
    assert_eq!(chunk, "c1");
    assert!(get_job_provider(&store, "nope").is_err());
    assert_eq!(list_jobs_for_session(&store, "s").len(), 1);
}

#[test]
fn a_meeting_is_transcribed_again() {
    let mut store = Store::new();
    begin(&mut store, "s", "r", ProviderKind::Voxtype, "m");
    persist(&mut store, "s", "r", AudioSource::Mic, at(NOW), &[0; 1600], 1);
    let now = NOW.to_string();
    record_transcription_success(&mut store, "j1", &result("first"), None, "e1", &now).unwrap();
    let ids = vec!["k1".to_string()];
    let kind = ProviderKind::WhisperCpp;
    let (run, count) =
        queue_retranscribe(&mut store, "s", kind, "/m", "r2", &ids, &LATER.to_string()).unwrap();
    assert_eq!((run.as_str(), count), ("r2", 1));
    assert_eq!(latest_run(&store, "s").unwrap().id, "r2");
    record_transcription_success(&mut store, "k1", &result("second"), None, "e2", &now).unwrap();
    let events = list_canonical_events(&store, "s");
    assert_eq!(events.len(), 1);
    assert_eq!(events[0].text, "second");
    assert_eq!(transcribed_chunk_ids(&store, "s"), vec!["c1"]);
    let missing = queue_retranscribe(&mut store, "nope", kind, "/m", "r3", &vec![], &now);
    assert_eq!(missing.unwrap_err().to_string(), "Session nope not found");
    let taken = queue_retranscribe(&mut store, "s", kind, "/m", "r2", &ids, &now);
    assert_eq!(
        taken.unwrap_err().to_string(),
        "database error: UNIQUE constraint failed: transcription_runs.id"
    );
    let taken = queue_retranscribe(&mut store, "s", kind, "/m", "r3", &ids, &now);
    assert_eq!(
        taken.unwrap_err().to_string(),
        "database error: UNIQUE constraint failed: transcription_jobs.id"
    );
}

#[test]
fn jobs_with_words_are_complete() {
    let mut store = Store::new();
    begin(&mut store, "s", "r", ProviderKind::Voxtype, "m");
    persist(&mut store, "s", "r", AudioSource::Mic, at(NOW), &[0; 1600], 1);
    let now = NOW.to_string();
    record_transcription_success(&mut store, "j1", &result("hi"), None, "e1", &now).unwrap();
    store.jobs[0].state = JobState::Processing;
    reset_processing_without_event(&mut store);
    assert_eq!(count_by_state(&store, JobState::Processing), 1);
    assert_eq!(complete_jobs_that_already_have_events(&mut store, &now), 1);
    assert_eq!(counts(&store), (0, 0, 1));
}

#[test]
fn rows_of_one_session_are_deleted() {
    let mut store = Store::new();
    seed_session(&mut store, "a", SessionState::Completed, true, 1);
    seed_session(&mut store, "b", SessionState::Completed, true, 2);
    delete_session_rows(&mut store, "a").unwrap();
    assert_eq!(store.sessions.len(), 1);
    assert_eq!(store.events[0].session_id, "b");
    assert_eq!(store.jobs[0].id, "j2");
    assert!(get_chunk(&store, "c1").is_none() && get_chunk(&store, "c2").is_some());
}

#[test]
fn chunks_are_found() {
    let mut store = Store::new();
    begin(&mut store, "s", "r", ProviderKind::Voxtype, "m");
    let (path, _) = persist(&mut store, "s", "r", AudioSource::Mic, at(NOW), &[0; 1600], 1);
    assert!(chunk_exists_for_path(&store, &path) && !chunk_exists_for_path(&store, "/x"));
    assert!(sequence_exists(&store, "s", AudioSource::Mic, 1));
    assert!(!sequence_exists(&store, "s", AudioSource::System, 1));
    assert_eq!(next_sequence(&store, "s", AudioSource::Mic), 2);
    assert_eq!(next_sequence(&store, "s", AudioSource::System), 1);
}

#[test]
fn rows_have_their_own_identifiers() {
    let mut store = Store::new();
    begin(&mut store, "s", "r", ProviderKind::Voxtype, "m");
    let error =
        insert_running_session(&mut store, "s", None, None, None, &NOW.to_string()).unwrap_err();
    assert_eq!(
        error.to_string(),
        "database error: UNIQUE constraint failed: sessions.id"
    );
    let error =
        insert_run(&mut store, "s", ProviderKind::Voxtype, "m", "r", &NOW.to_string()).unwrap_err();
    assert_eq!(
        error.to_string(),
        "database error: UNIQUE constraint failed: transcription_runs.id"
    );
    persist(&mut store, "s", "r", AudioSource::Mic, at(NOW), &[0; 1600], 1);
    let chunk = PersistChunk {
        session_id: "s",
        run_id: "r",
        provider: ProviderKind::Voxtype,
        model: "m",
        source: AudioSource::Mic,
        started_at: at(NOW),
        ended_at: at(LATER),
        samples: &[1; 1600],
    };
    for (chunk_id, job_id, column) in
        [("c1", "j9", "audio_chunks.id"), ("c9", "j1", "transcription_jobs.id")]
    {
        let error = persist_recorded_chunk(
            &mut store,
            &chunk,
            2,
            "/p",
            chunk_id,
            job_id,
            &NOW.to_string(),
        )
        .unwrap_err();
        assert_eq!(
            error.to_string(),
            format!("database error: UNIQUE constraint failed: {column}")
        );
    }
    let error = persist_recorded_chunk(
        &mut store,
        &chunk,
        1,
        "/p",
        "c9",
        "j9",
        &NOW.to_string(),
    )
    .unwrap_err();
    assert_eq!(
        error.to_string(),
        "database error: UNIQUE constraint failed: audio_chunks.session_id, \
         audio_chunks.source, audio_chunks.sequence"
    );
    assert_eq!(store.chunks.len(), 1);
}

#[test]
fn rows_refer_to_rows_that_are_there() {
    let mut store = Store::new();
    let now = NOW.to_string();
    let missing = "database error: FOREIGN KEY constraint failed";
    let error =
        insert_run(&mut store, "s", ProviderKind::Voxtype, "m", "r", &now).unwrap_err();
    assert_eq!(error.to_string(), missing);
    let chunk = PersistChunk {
        session_id: "s",
        run_id: "r",
        provider: ProviderKind::Voxtype,
        model: "m",
        source: AudioSource::Mic,
        started_at: at(NOW),
        ended_at: at(LATER),
        samples: &[1; 1600],
    };
    let error =
        persist_recorded_chunk(&mut store, &chunk, 1, "/p", "c", "j", &now).unwrap_err();
    assert_eq!(error.to_string(), missing);
    insert_running_session(&mut store, "s", None, None, None, &now).unwrap();
    let error =
        persist_recorded_chunk(&mut store, &chunk, 1, "/p", "c", "j", &now).unwrap_err();
    assert_eq!(error.to_string(), missing);
    assert!(store.runs.is_empty() && store.chunks.is_empty() && store.jobs.is_empty());
    begin(&mut store, "other", "r", ProviderKind::Voxtype, "m");
    persist_recorded_chunk(&mut store, &chunk, 1, "/p", "c", "j", &now).unwrap();
    let error = delete_session_rows(&mut store, "other").unwrap_err();
    assert_eq!(error.to_string(), missing);
    assert_eq!((store.sessions.len(), store.runs.len()), (2, 1));
    let both = vec![
        EligibleSession { id: "s".to_string(), files: 0, bytes: 0 },
        EligibleSession { id: "other".to_string(), files: 0, bytes: 0 },
    ];
    assert_eq!(apply_all(&mut store, &both).unwrap(), (0, 0, 2));
    assert!(store.sessions.is_empty() && store.jobs.is_empty());
}

#[test]
fn sessions_are_listed_and_named() {
    let mut store = Store::new();
    let mic = AudioDevice {
        id: "m".to_string(),
        description: "M".to_string(),
        role: DeviceRole::Microphone,
    };
    insert_running_session(&mut store, "a", Some(&mic), None, None, &NOW.to_string()).unwrap();
    insert_running_session(&mut store, "b", None, None, None, &LATER.to_string()).unwrap();
    let ids: Vec<String> = list_sessions(&store).into_iter().map(|s| s.id).collect();
    assert_eq!(ids, vec!["b", "a"]);
    set_session_title(&mut store, "a", "Weekly").unwrap();
    let snapshot = snapshot_from_record(&get_session(&store, "a").unwrap());
    assert_eq!(snapshot.title.as_deref(), Some("Weekly"));
    assert_eq!(snapshot.microphone.unwrap().id, "m");
    assert!(snapshot.output.is_none());
    let error = set_session_title(&mut store, "z", "x").unwrap_err();
    assert_eq!(error.to_string(), "Session z not found");
    assert_eq!(source_from_str("system").unwrap(), AudioSource::System);
    assert_eq!(
        source_from_str("line").unwrap_err().to_string(),
        "invalid audio source 'line'"
    );
}

#[test]
fn migrates() {
    assert_eq!(migrations(false, false, false), vec![1, 2]);
    assert_eq!(migrations(true, false, false), vec![1, 2]);
    assert_eq!(migrations(true, true, false), vec![2]);
    assert!(migrations(true, true, true).is_empty());
}
