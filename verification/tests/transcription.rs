//! Providers, their limits and the life of a job.

use voxtype_meeting_service::audio::AudioSource;
use voxtype_meeting_service::config::{Config, ProviderKind};
use voxtype_meeting_service::encode::encode_flac_i16_mono_16k;
use voxtype_meeting_service::error::AppError;
use voxtype_meeting_service::storage::jobs::get_job;
use voxtype_meeting_service::storage::sessions::{insert_run, insert_running_session};
use voxtype_meeting_service::storage::types::JobState;
use voxtype_meeting_service::storage::{persist_recorded_chunk, PersistChunk, Store};
use voxtype_meeting_service::timeutil::{parse_rfc3339, UtcTime};
use voxtype_meeting_service::transcript::regenerate_session_transcripts;
use voxtype_meeting_service::transcription::bounded::{
    check_audio_file_size, check_file_size, group_to_kill, join_output, limit_transcript,
    must_reap, push_capped, read_capped, read_capped_file, wait_failure, FileFacts, OutputOutcome,
    ReadOutcome, WaitOutcome, AUDIO_MAX_BYTES, CONFIG_MAX_BYTES, TRANSCRIPT_MAX_BYTES,
};
use voxtype_meeting_service::transcription::fake::FakeTranscriptionProvider;
use voxtype_meeting_service::transcription::retry::retry_delay;
use voxtype_meeting_service::transcription::voxtype::{
    apply_language_override, check_snapshot, is_language_assignment, parse_output,
    read_meeting_language, session_dir_from_chunk, snapshot_config, voxtype_transcribe_args,
    ConfigFile, ProgramOutput, VoxtypeProvider,
};
use voxtype_meeting_service::transcription::whisper_cpp::{
    answer_text, exit_failure, parse_whisper_json, retries_as_wav, WhisperCppProvider,
    WhisperFiles,
};
use voxtype_meeting_service::transcription::worker::{
    begin_job, deletes_audio, end_job, job_chunk, job_event, schedule_retry, worker_limit, JobEnd,
    JobStart,
};
use voxtype_meeting_service::transcription::{
    provider_for_job, provider_from_kind, AudioChunkRef, Provider,
};
use voxtype_meeting_service::tree::Tree;

const NOW: &str = "2026-08-17T12:00:00.000Z";

fn now() -> UtcTime {
    parse_rfc3339(NOW).unwrap()
}

fn config() -> Config {
    Config::default("/home/xa")
}

#[test]
fn audio_size_cap_rejects_oversize_file() {
    let small = Ok(FileFacts { is_file: true, bytes: 64 });
    check_audio_file_size("/chunk.flac", &small).unwrap();
    let large = Ok(FileFacts { is_file: true, bytes: AUDIO_MAX_BYTES + 1 });
    let error = check_audio_file_size("/chunk.flac", &large).unwrap_err();
    assert!(error.to_string().contains("exceeds"), "{error:?}");
}

#[test]
fn transcript_cap_rejects_oversize_text() {
    let error = limit_transcript("x".repeat(TRANSCRIPT_MAX_BYTES + 1)).unwrap_err();
    assert!(error.to_string().contains("exceeds"), "{error:?}");
}

#[test]
fn transcripts_that_fit_are_kept() {
    let text = "x".repeat(TRANSCRIPT_MAX_BYTES);
    assert_eq!(limit_transcript(text.clone()).unwrap(), text);
}

#[test]
fn runaway_output_is_refused() {
    let pieces = vec![vec![b'x'; 10], vec![b'x'; 7]];
    assert!(matches!(read_capped(&pieces, 16), ReadOutcome::Overflow));
    assert!(matches!(read_capped(&pieces, 17), ReadOutcome::Bytes(b) if b.len() == 17));
    let error = join_output(OutputOutcome::Read(ReadOutcome::Overflow)).unwrap_err();
    assert!(error.to_string().contains("exceeds"), "{error:?}");
    assert!(must_reap(&OutputOutcome::Read(ReadOutcome::Overflow)));
    assert!(!must_reap(&OutputOutcome::Read(ReadOutcome::Bytes(vec![]))));
    assert!(join_output(OutputOutcome::Failed("io".to_string())).is_err());
    assert!(join_output(OutputOutcome::ReaderFailed).is_err());
    assert_eq!(
        join_output(OutputOutcome::Read(ReadOutcome::Bytes(vec![1]))).unwrap(),
        vec![1]
    );
    let mut buf = vec![0; 3];
    assert!(push_capped(&mut buf, &[1], 4));
    assert!(!push_capped(&mut buf, &[1], 4));
}

#[test]
fn oversize_files_are_refused() {
    let error = check_file_size("/out.json", &Ok(64), 16).unwrap_err();
    assert!(error.to_string().contains("exceeds"), "{error:?}");
    assert!(check_file_size("/out.json", &Ok(16), 16).is_ok());
    let error = read_capped_file("/out.json", Ok(ReadOutcome::Overflow), 16).unwrap_err();
    assert!(error.to_string().contains("exceeds"), "{error:?}");
    assert!(read_capped_file("/out.json", Err("io".to_string()), 16).is_err());
    let error = wait_failure(&WaitOutcome::TimedOut).unwrap();
    assert!(error.to_string().contains("timed out"), "{error:?}");
    assert!(wait_failure(&WaitOutcome::Exited).is_none());
    assert!(wait_failure(&WaitOutcome::Failed("x".to_string())).is_some());
    assert_eq!(group_to_kill(0), None);
    assert!(group_to_kill(12).is_some());
}

#[test]
fn factory_builds_local_kinds() {
    let config = config();
    let voxtype = provider_from_kind(ProviderKind::Voxtype, &config).unwrap();
    assert_eq!(voxtype.name(), ProviderKind::Voxtype);
    let whisper = provider_from_kind(ProviderKind::WhisperCpp, &config).unwrap();
    assert_eq!(whisper.name(), ProviderKind::WhisperCpp);
    match provider_from_kind(ProviderKind::Openai, &config) {
        Err(error) => assert!(
            error.to_string().contains("OpenAI remote provider has been removed"),
            "{error:?}"
        ),
        Ok(_) => panic!("OpenAI provider should be unavailable"),
    }
}

#[test]
fn whisper_factory_rejects_multiple_live_languages() {
    let mut config = config();
    config.transcription.languages = vec!["fr".to_string(), "en".to_string()];
    let error = provider_from_kind(ProviderKind::WhisperCpp, &config)
        .err()
        .expect("whisper.cpp must reject multiple languages");
    assert!(
        error.to_string().contains("whisper.cpp accepts at most one language"),
        "{error:?}"
    );
}

#[test]
fn a_job_keeps_its_model() {
    let mut later = config();
    later.transcription.model = "other".to_string();
    for config in [config(), later] {
        match provider_for_job(ProviderKind::Voxtype, Some("whisper:small"), &config).unwrap() {
            Provider::Voxtype(p) => assert_eq!(p.model, "whisper:small"),
            other => panic!("unexpected {other:?}"),
        }
    }
    match provider_for_job(ProviderKind::WhisperCpp, Some(""), &config()).unwrap() {
        Provider::WhisperCpp(p) => {
            assert!(p.model.ends_with("ggml-large-v3-turbo.bin"));
            assert_eq!(p.language, "auto");
        }
        other => panic!("unexpected {other:?}"),
    }
}

#[test]
fn retry_delay_table() {
    assert_eq!(retry_delay(1), 5);
    assert_eq!(retry_delay(2), 15);
    assert_eq!(retry_delay(3), 30);
    assert_eq!(retry_delay(4), 60);
    assert_eq!(retry_delay(5), 300);
    assert_eq!(retry_delay(99), 300);
}

#[test]
fn extracts_final_transcript_block() {
    let output = "Loading audio file\nProcessing 1 samples\n\nHi there.\nHow are you?\n";
    assert_eq!(parse_output(output), "Hi there.\nHow are you?");
}

#[test]
fn language_override_replaces_existing_assignment() {
    let source = "# keep me\nengine = \"whisper\"\n[whisper]\nmodel = \"base.en\"\nlanguage = \"auto\"\ntranslate = false\n";
    let updated = apply_language_override(source, "whisper", "en");
    assert!(updated.contains("# keep me"));
    assert!(updated.contains("model = \"base.en\""));
    assert!(updated.contains("language = \"en\""));
    assert!(!updated.contains("language = \"auto\""));
    assert!(updated.contains("translate = false"));
}

#[test]
fn language_override_again_changes_nothing() {
    for source in [
        "",
        "[whisper]",
        "engine = \"whisper\"\r\n[whisper]\r\n  LANGUAGE= 'x'\r\n[other]\r\n",
        "[whisper]\nmodel = \"m\"\n\n[other]\nlanguage = \"de\"",
        "# nothing\n\n",
    ] {
        let once = apply_language_override(source, "whisper", "fr");
        assert_eq!(apply_language_override(&once, "whisper", "fr"), once, "{source}");
        assert_eq!(once.ends_with('\n'), source.ends_with('\n'), "{source}");
    }
    assert_eq!(
        apply_language_override("[a]\nx\n[whisper]\ny\n[b]\nz\n", "whisper", "fr"),
        "[a]\nx\n[whisper]\ny\nlanguage = \"fr\"\n[b]\nz\n"
    );
}

#[test]
fn language_override_inserts_when_missing() {
    let source = "engine = \"sensevoice\"\n[sensevoice]\nmodel = \"sensevoice-small\"\n";
    let updated = apply_language_override(source, "sensevoice", "ja");
    assert!(updated.contains("[sensevoice]"));
    assert!(updated.contains("language = \"ja\""));
    assert!(updated.contains("model = \"sensevoice-small\""));
}

#[test]
fn snapshot_rejects_oversized_config() {
    let error = snapshot_config("/c.toml", ConfigFile::TooLarge, None).unwrap_err();
    assert!(error.to_string().contains("exceeds"), "{error:?}");
    assert!(CONFIG_MAX_BYTES > 0);
}

#[test]
fn snapshot_writes_overridden_language() {
    let file = ConfigFile::Bytes(
        b"engine = \"whisper\"\n[whisper]\nmodel = \"small\"\nlanguage = \"auto\"\n".to_vec(),
    );
    let snapshot = snapshot_config("/c.toml", file, Some("fr")).unwrap();
    assert_eq!(snapshot.label, "whisper:small");
    assert!(snapshot.contents.contains("language = \"fr\""));
    assert!(!snapshot.contents.contains("language = \"auto\""));
    assert_eq!(snapshot.language.unwrap().trim(), "fr");
}

#[test]
fn configurations_that_cannot_be_frozen() {
    for file in [
        ConfigFile::Unreadable("io".to_string()),
        ConfigFile::Bytes(vec![0xff, 0xfe]),
        ConfigFile::Bytes(b"engine = ".to_vec()),
        ConfigFile::Bytes(b"engine = \"openai\"\n".to_vec()),
    ] {
        let shown = format!("{file:?}");
        assert!(snapshot_config("/c.toml", file, None).is_err(), "{shown}");
    }
}

#[test]
fn a_missing_configuration_has_defaults() {
    let snapshot = snapshot_config("/c.toml", ConfigFile::Missing, None).unwrap();
    assert_eq!(snapshot.label, "whisper:base.en");
    assert_eq!(
        snapshot.contents,
        "engine = \"whisper\"\n[whisper]\nmodel = \"base.en\"\nlanguage = \"auto\"\n"
    );
    assert_eq!(snapshot.language, None);
}

#[test]
fn language_override_skips_commented_language_lines() {
    let source = concat_lines(&[
        "engine = \"whisper\"",
        "[whisper]",
        "# Language for transcription",
        "# Use \"en\" for English, \"auto\" for auto-detection",
        "language = \"en\"",
        "translate = false",
    ]);
    let updated = apply_language_override(&source, "whisper", "fr");
    assert!(updated.contains("language = \"fr\""));
    assert!(!updated.contains("language = \"en\""));
    assert!(updated.contains("# Language for transcription"));
}

fn concat_lines(lines: &[&str]) -> String {
    lines.iter().map(|line| format!("{line}\n")).collect()
}

#[test]
fn transcribe_args_pass_global_language_before_subcommand() {
    let args = voxtype_transcribe_args(
        "/tmp/voxtype-config.toml",
        "/tmp/utterance.wav",
        Some("fr"),
    );
    assert_eq!(
        args,
        vec![
            "-c",
            "/tmp/voxtype-config.toml",
            "--language",
            "fr",
            "transcribe",
            "/tmp/utterance.wav",
        ]
    );
}

#[test]
fn voxtype_is_asked_beside_the_session() {
    assert_eq!(session_dir_from_chunk("/d/s1/audio/mic/1.flac").unwrap(), "/d/s1");
    assert!(session_dir_from_chunk("1.flac").is_err());
    assert_eq!(read_meeting_language(Some(&b" fr \n".to_vec())).as_deref(), Some("fr"));
    assert_eq!(read_meeting_language(None), None);
    assert!(is_language_assignment("language = \"fr\"") && !is_language_assignment("languages = 1"));
    assert!(check_snapshot("/c", true).is_ok() && check_snapshot("/c", false).is_err());
    let provider = VoxtypeProvider::new("whisper:small".to_string());
    let good = ProgramOutput {
        success: true,
        status: "0".to_string(),
        stdout: b"Loading\n\nHello.\n".to_vec(),
        stderr: vec![],
    };
    let result = provider.result_of(&good).unwrap();
    assert_eq!((result.text.as_str(), result.model.as_str()), ("Hello.", "whisper:small"));
    assert_eq!(result.provider, ProviderKind::Voxtype);
    let bad = ProgramOutput {
        success: false,
        status: "exit status: 1".to_string(),
        stdout: vec![],
        stderr: b"no model\n".to_vec(),
    };
    let error = provider.result_of(&bad).unwrap_err();
    assert!(error.to_string().contains("no model"), "{error:?}");
}

#[test]
fn parse_transcription_field() {
    let text = parse_whisper_json(r#"{"transcription":"hello world"}"#).unwrap();
    assert_eq!(text, "hello world");
}

#[test]
fn other_answers_of_whisper() {
    let segments = r#"{"segments":[{"text":" hello"},{"id":1},{"text":" world "}]}"#;
    assert_eq!(parse_whisper_json(segments).unwrap(), "hello world");
    let nested = r#"{"result":{"segments":[{"text":"a"}]},"segments":[{"text":"b"}]}"#;
    assert_eq!(parse_whisper_json(nested).unwrap(), "a");
    assert_eq!(parse_whisper_json(r#"{"transcription":[],"text":" hi "}"#).unwrap(), "hi");
    assert!(parse_whisper_json(r#"{"transcription":[{"text":"hello"}]}"#).is_err());
    assert!(parse_whisper_json("not json").is_err());
    let error = parse_whisper_json("{}").unwrap_err();
    assert_eq!(
        error.to_string(),
        "whisper-cli JSON did not contain transcription text"
    );
    let written = br#"{"text":"hi"}"#.to_vec();
    assert_eq!(answer_text("/o.json", &written).unwrap(), "hi");
    assert!(answer_text("/o.json", &vec![0xff]).is_err());
}

fn whisper_files() -> WhisperFiles {
    WhisperFiles {
        executable_exists: true,
        executable_mode: Ok(0o755),
        model_is_file: true,
        audio_is_file: true,
        audio: Ok(FileFacts { is_file: true, bytes: 10 }),
    }
}

#[test]
fn missing_executable_errors() {
    let provider = WhisperCppProvider::new(
        "/no/such/whisper-cli".to_string(),
        "/no/such/model.bin".to_string(),
        "auto".to_string(),
    );
    let files = WhisperFiles { executable_exists: false, ..whisper_files() };
    let error = provider.verify_inputs("/no/such.flac", &files).unwrap_err();
    assert!(error.to_string().contains("whisper-cli executable not found"));
}

#[test]
fn whisper_inputs_are_checked() {
    let provider =
        WhisperCppProvider::new("/w".to_string(), "/m".to_string(), "auto".to_string());
    assert!(provider.verify_inputs("/a.flac", &whisper_files()).is_ok());
    for files in [
        WhisperFiles { executable_mode: Ok(0o644), ..whisper_files() },
        WhisperFiles { executable_mode: Err("io".to_string()), ..whisper_files() },
        WhisperFiles { model_is_file: false, ..whisper_files() },
        WhisperFiles { audio_is_file: false, ..whisper_files() },
        WhisperFiles {
            audio: Ok(FileFacts { is_file: true, bytes: AUDIO_MAX_BYTES + 1 }),
            ..whisper_files()
        },
    ] {
        assert!(provider.verify_inputs("/a.flac", &files).is_err(), "{files:?}");
    }
    let args = provider.args("/a.flac", "/tmp/out");
    assert!(args.windows(2).any(|w| w[0] == "-of" && w[1] == "/tmp/out"), "{args:?}");
    assert!(args.windows(2).any(|w| w[0] == "-l" && w[1] == "auto"), "{args:?}");
    assert!(args.windows(2).any(|w| w[0] == "-f" && w[1] == "/a.flac"), "{args:?}");
}

#[test]
fn a_refused_flac_is_tried_as_wav() {
    let provider =
        WhisperCppProvider::new("/w".to_string(), "/m".to_string(), "auto".to_string());
    let refused = Err(exit_failure("exit status: 1", &b"unsupported flac".to_vec()));
    assert!(retries_as_wav(&refused));
    let result = provider.result_of(refused, Some(Ok("from wav".to_string()))).unwrap();
    assert_eq!(result.text, "from wav");
    assert_eq!(result.provider, ProviderKind::WhisperCpp);
    let fine = Ok("from flac".to_string());
    assert!(!retries_as_wav(&fine));
    assert_eq!(provider.result_of(fine, None).unwrap().text, "from flac");
}

/// A store with one job for one turn.
fn store_with_job() -> (Store, Vec<u8>) {
    let mut store = Store::new();
    let config = config();
    insert_running_session(&mut store, "s", None, None, None, &NOW.to_string()).unwrap();
    insert_run(&mut store, "s", config.transcription.provider, "m", "r", &NOW.to_string()).unwrap();
    let samples = vec![0i16; 16_000];
    let chunk = PersistChunk {
        session_id: "s",
        run_id: "r",
        provider: config.transcription.provider,
        model: "m",
        source: AudioSource::Mic,
        started_at: now(),
        ended_at: now().plus_millis(1_000),
        samples: &samples,
    };
    persist_recorded_chunk(
        &mut store,
        &chunk,
        1,
        "/d/s/audio/mic/1.flac",
        "c",
        "j",
        &NOW.to_string(),
    )
    .unwrap();
    (store, encode_flac_i16_mono_16k(&samples).unwrap())
}

#[test]
fn fake_pipeline_persists_then_transcribes() {
    let (mut store, audio) = store_with_job();
    let mut provider = FakeTranscriptionProvider::always("hello from fake".to_string());
    assert_eq!(job_chunk(&store, "j").unwrap().id, "c");
    let outcome = provider.transcribe();
    let end = end_job(&mut store, "j", &outcome, Some(&audio), "e", &NOW.to_string(), now());
    assert_eq!(end.unwrap(), JobEnd::Stored { inserted: true });
    let written = regenerate_session_transcripts(&mut store, "s", &vec![], true).unwrap();
    assert!(written.markdown.contains("hello from fake"));
    assert!(written.jsonl.contains("hello from fake"));
    assert!(written.jsonl.contains("\"source\":\"mic\""));
}

#[test]
fn failed_transcription_keeps_audio_and_pending_job() {
    let (mut store, _) = store_with_job();
    let mut provider = FakeTranscriptionProvider::fail_then_succeed(1, "nope".to_string());
    let outcome = provider.transcribe();
    assert!(outcome.as_ref().unwrap_err().to_string().contains("fake provider failure"));
    let end = end_job(&mut store, "j", &outcome, None, "e", &NOW.to_string(), now()).unwrap();
    assert_eq!(end, JobEnd::PutOff);
    assert!(!deletes_audio(end, false));
    let job = get_job(&store, "j").unwrap();
    assert_eq!(job.state, JobState::Pending);
    assert_eq!(job.attempt_count, 1);
    assert!(job.last_error.is_some());
    assert_eq!(job.next_retry_at.as_deref(), Some("2026-08-17T12:00:05.000Z"));
    assert_eq!(provider.transcribe().unwrap().text, "nope");
}

#[test]
fn a_job_that_failed_can_still_succeed() {
    let (mut store, audio) = store_with_job();
    let mut provider = FakeTranscriptionProvider::fail_then_succeed(1, "hello".to_string());
    let outcome = provider.transcribe();
    end_job(&mut store, "j", &outcome, Some(&audio), "e1", &NOW.to_string(), now()).unwrap();
    assert!(store.events.is_empty());
    assert_eq!(store.chunks.len(), 1);
    let outcome = provider.transcribe();
    let end = end_job(&mut store, "j", &outcome, Some(&audio), "e2", &NOW.to_string(), now());
    assert_eq!(end.unwrap(), JobEnd::Stored { inserted: true });
    let job = get_job(&store, "j").unwrap();
    assert_eq!((job.state, job.last_error), (JobState::Completed, None));
    assert_eq!(store.events.len(), 1);
    assert!(store.events[0].is_canonical);
    let written = regenerate_session_transcripts(&mut store, "s", &vec![], true).unwrap();
    assert!(written.markdown.contains("hello"));
    assert!(written.jsonl.contains("hello"));
}

#[test]
fn the_beginning_of_a_job() {
    let (mut store, _) = store_with_job();
    match begin_job(&mut store, &config(), "j", now()).unwrap() {
        JobStart::Transcribe { provider, chunk, session_id } => {
            assert_eq!(provider.name(), ProviderKind::Voxtype);
            assert_eq!(chunk.file_path, "/d/s/audio/mic/1.flac");
            assert_eq!(session_id, "s");
        }
        other => panic!("unexpected {other:?}"),
    }
    store.jobs[0].provider = ProviderKind::Openai;
    let start = begin_job(&mut store, &config(), "j", now()).unwrap();
    assert!(!matches!(start, JobStart::Transcribe { .. }));
    assert_eq!(get_job(&store, "j").unwrap().attempt_count, 1);
    assert!(begin_job(&mut store, &config(), "nope", now()).is_err());
    let mut lost = Store::new();
    assert!(schedule_retry(&mut lost, "j", "x", now()).is_err());
    store.chunks.clear();
    assert_eq!(
        begin_job(&mut store, &config(), "j", now()).unwrap_err().to_string(),
        "audio chunk c missing for job j"
    );
    assert_eq!(job_chunk(&store, "j").unwrap_err().to_string(), "audio chunk c missing");
}

#[test]
fn audio_goes_only_after_its_transcript() {
    assert!(deletes_audio(JobEnd::Stored { inserted: true }, false));
    assert!(!deletes_audio(JobEnd::Stored { inserted: true }, true));
    let mut many = config();
    many.transcription.max_concurrent_jobs = 4;
    assert_eq!((worker_limit(&config()), worker_limit(&many)), (1, 4));
    assert_eq!(job_event("s").session_id.as_deref(), Some("s"));
}

#[test]
fn chunks_are_handed_to_providers() {
    let (store, _) = store_with_job();
    let chunk = AudioChunkRef::from_record(&store.chunks[0]).unwrap();
    assert_eq!(chunk.started_at, now());
    let mut bad = store.chunks[0].clone();
    bad.started_at = "never".to_string();
    assert!(AudioChunkRef::from_record(&bad).is_err());
    let error: AppError = AppError::transcription("x");
    assert_eq!(error.to_string(), "x");
    assert!(matches!(Tree::Null, Tree::Null));
}

#[test]
fn later_settings_do_not_change_the_model_of_a_job() {
    let mut later = config();
    later.transcription.model = "another".to_string();
    later.transcription.whisper_cpp.model = "/another.bin".to_string();
    for settings in [&config(), &later] {
        match provider_for_job(ProviderKind::Voxtype, Some("frozen"), settings).unwrap() {
            Provider::Voxtype(p) => assert_eq!(p.model, "frozen"),
            other => panic!("unexpected {other:?}"),
        }
        match provider_for_job(ProviderKind::WhisperCpp, Some("/frozen.bin"), settings).unwrap() {
            Provider::WhisperCpp(p) => assert_eq!(p.model, "/frozen.bin"),
            other => panic!("unexpected {other:?}"),
        }
    }
}
