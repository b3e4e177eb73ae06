//! Turns, sources and sessions while they are recorded.

use voxtype_meeting_service::audio::{AudioDevice, AudioSource, DeviceRole, PcmFrame};
use voxtype_meeting_service::capture::chunker::Chunker;
use voxtype_meeting_service::capture::source_task::{
    configured_device, device_event, device_switched, follows_default, server_event,
    source_enabled, Resolved, SourceAction, SourceEvent, SourceStage, SourceTask, Spool,
};
use voxtype_meeting_service::capture::{
    disk_verdict, finalize_session, interrupt_session, mark_disk_stop, mark_ended, mark_started,
    no_audio_server, session_model, source_dir, warn_if_transcription_unready, DiskVerdict,
    SessionDevices, SessionStep,
};
use voxtype_meeting_service::config::{CaptureSource, Config, ProviderKind};
use voxtype_meeting_service::error::AppError;
use voxtype_meeting_service::runtime::{AudioServerHealth, RuntimeStatus, SourceUiState};
use voxtype_meeting_service::storage::sessions::{get_session, insert_running_session};
use voxtype_meeting_service::storage::types::SessionState;
use voxtype_meeting_service::storage::Store;
use voxtype_meeting_service::timeutil::UtcTime;

fn samples_for(ms: usize) -> usize {
    16_000 * ms / 1000
}

fn frame_of(source: AudioSource, ms: usize, amplitude: i16, at_ms: i64) -> PcmFrame {
    PcmFrame {
        source,
        samples: vec![amplitude; samples_for(ms)],
        captured_at: UtcTime {
            secs: at_ms / 1000,
            nanos: (at_ms % 1000) as u32 * 1_000_000,
        },
    }
}

fn frame(ms: usize, amplitude: i16, at_ms: i64) -> PcmFrame {
    frame_of(AudioSource::Mic, ms, amplitude, at_ms)
}

fn config() -> Config {
    Config::default("/home/xa")
}

fn mic() -> AudioDevice {
    AudioDevice {
        id: "mic-a".to_string(),
        description: "A".to_string(),
        role: DeviceRole::Microphone,
    }
}

fn sink() -> AudioDevice {
    AudioDevice {
        id: "sink-b".to_string(),
        description: "B".to_string(),
        role: DeviceRole::OutputSink,
    }
}

fn monitor() -> AudioDevice {
    AudioDevice {
        id: "sink-b.monitor".to_string(),
        description: "B".to_string(),
        role: DeviceRole::MonitorSource,
    }
}

#[test]
fn splits_after_turn_silence() {
    let mut c = Chunker::new(AudioSource::Mic);
    assert!(c.push(&frame(200, 0, 0)).is_empty());
    assert!(c.push(&frame(500, 2000, 200)).is_empty());
    let done = c.push(&frame(700, 0, 700));
    assert_eq!(done.len(), 1);
    assert_eq!(done[0].sequence, 1);
}

#[test]
fn silence_never_creates_a_turn() {
    let mut c = Chunker::new(AudioSource::System);
    assert!(c.push(&frame(1000, 0, 0)).is_empty());
    assert!(c.flush().is_none());
}

#[test]
fn pause_flushes_partial_speech() {
    let mut c = Chunker::new(AudioSource::Mic);
    c.push(&frame(300, 2000, 0));
    assert_eq!(c.flush().unwrap().duration_ms(), 300);
}

#[test]
fn a_turn_takes_the_pre_roll_along_and_drops_late_silence() {
    let mut c = Chunker::starting_at(AudioSource::Mic, 7);
    assert!(c.push(&frame(100, 0, 0)).is_empty());
    assert!(c.push(&frame(500, 2000, 100)).is_empty());
    let done = c.push(&frame(700, 0, 600));
    assert_eq!(done.len(), 1);
    assert_eq!(done[0].sequence, 7);
    assert_eq!(done[0].started_at, UtcTime { secs: 0, nanos: 0 });
    assert!(done[0].duration_ms() < 100 + 500 + 700);
    assert!(done[0].duration_ms() >= 600);
    c.push(&frame(500, 2000, 2000));
    assert_eq!(c.flush().unwrap().sequence, 8);
    assert_eq!(Chunker::starting_at(AudioSource::Mic, 0).flush().map(|t| t.sequence), None);
}

#[test]
fn a_long_turn_is_cut() {
    let mut c = Chunker::new(AudioSource::Mic);
    let mut turns = Vec::new();
    for i in 0..31 {
        turns.extend(c.push(&frame(1000, 2000, i * 1000)));
    }
    assert_eq!(turns.len(), 1);
    assert_eq!(turns[0].duration_ms(), 30_000);
}

#[test]
fn too_little_speech_is_no_turn() {
    let mut c = Chunker::new(AudioSource::Mic);
    c.push(&frame(20, 2000, 0));
    assert!(c.flush().is_none());
}

#[test]
fn what_comes_while_paused_is_not_kept() {
    let mut spool = Spool::new(AudioSource::Mic, 1);
    assert!(spool.frame(&frame(300, 2000, 0), false).is_none());
    assert!(spool.frame(&frame(300, 3000, 300), true).is_none());
    assert!(spool.frame(&frame(5_000, 3000, 600), true).is_none());
    assert!(spool.frame(&frame(300, 2500, 6_000), false).is_none());
    assert!(spool.frame(&frame(300, 2500, 6_300), false).is_none());
    let turn = spool.finish(false).unwrap();
    assert_eq!((turn.sequence, turn.duration_ms()), (1, 600));
    assert_eq!(turn.started_at, UtcTime { secs: 6, nanos: 0 });
    assert!(turn.samples.iter().all(|s| *s == 2500));
}

#[test]
fn speech_that_runs_into_a_pause_is_dropped() {
    let mut spool = Spool::new(AudioSource::System, 4);
    assert!(spool.frame(&frame(300, 2000, 0), false).is_none());
    assert!(spool.frame(&frame(20, 2000, 300), true).is_none());
    assert!(spool.finish(false).is_none());
    assert!(spool.frame(&frame(300, 2000, 1_000), false).is_none());
    assert!(spool.finish(true).is_none());
    assert!(spool.frame(&frame(300, 2000, 2_000), false).is_none());
    assert_eq!(spool.finish(false).unwrap().sequence, 4);
}

#[test]
fn a_spool_without_numbers_left_takes_nothing() {
    let spool = Spool::new(AudioSource::Mic, 1);
    assert!(spool.can_finish());
    assert!(spool.fits(&frame(300, 2000, 0), false));
    assert!(spool.fits(&frame(300, 2000, 0), true));
    let full = Spool::new(AudioSource::Mic, u64::MAX);
    assert!(!full.can_finish());
    assert!(!full.fits(&frame(300, 2000, 0), false));
    assert!(full.fits(&frame(300, 2000, 0), true));
    let chunker = Chunker::starting_at(AudioSource::Mic, u64::MAX);
    assert!(!chunker.can_number());
    assert!(!chunker.fits(&frame(300, 2000, 0)));
    assert!(Chunker::new(AudioSource::Mic).fits(&frame(300, 2000, 0)));
}

#[test]
fn sources_follow_the_settings() {
    let mut c = config();
    assert!(source_enabled(&c, AudioSource::Mic) && source_enabled(&c, AudioSource::System));
    c.audio.source = CaptureSource::Mic;
    assert!(source_enabled(&c, AudioSource::Mic) && !source_enabled(&c, AudioSource::System));
    c.audio.system_output = "hw:2".to_string();
    assert_eq!(configured_device(&c, AudioSource::System), "hw:2");
    assert!(device_switched(&c, AudioSource::System, "default"));
    assert!(!device_switched(&c, AudioSource::Mic, "default"));
    assert!(follows_default("") && follows_default("default") && !follows_default("hw:2"));
    assert_eq!(source_dir("/s/1", AudioSource::System), "/s/1/audio/system");
    assert_eq!(device_event(AudioSource::Mic).message.as_deref(), Some("mic"));
    assert_eq!(server_event().event, "audio_server_state_changed");
}

#[test]
fn a_source_that_is_not_captured_is_idle() {
    let mut status = RuntimeStatus::new(ProviderKind::Voxtype);
    status.system_state = SourceUiState::Capturing;
    let mut task = SourceTask::new(AudioSource::System);
    assert!(task.step(&mut status, SourceEvent::Began { enabled: false }).is_empty());
    assert!(matches!(task.stage, SourceStage::Over));
    assert_eq!(status.system_state, SourceUiState::Idle);
}

fn attempt(task: &mut SourceTask, status: &mut RuntimeStatus, name: &str) {
    let actions = task.step(
        status,
        SourceEvent::Attempt { stopping: false, configured: name.to_string() },
    );
    assert!(matches!(&actions[..], [SourceAction::Resolve(n)] if n == name));
}

#[test]
fn a_failed_source_is_tried_again_and_the_other_goes_on() {
    let mut status = RuntimeStatus::new(ProviderKind::Voxtype);
    let mut system = SourceTask::new(AudioSource::System);
    let mut micro = SourceTask::new(AudioSource::Mic);
    micro.step(&mut status, SourceEvent::Began { enabled: true });
    attempt(&mut micro, &mut status, "default");
    let actions = micro.step(&mut status, SourceEvent::Resolved(Ok(Resolved::Microphone(mic()))));
    assert!(matches!(
        &actions[..],
        [SourceAction::TellDevice, SourceAction::Capture { device_id, follow_default: true }] if device_id == "mic-a"
    ));
    system.step(&mut status, SourceEvent::Began { enabled: true });
    attempt(&mut system, &mut status, "sink-b");
    let actions = system.step(&mut status, SourceEvent::Resolved(Err(AppError::audio("gone"))));
    assert!(matches!(&actions[..], [SourceAction::TellDevice]));
    assert_eq!(status.system_state, SourceUiState::Unavailable);
    assert!(matches!(
        &system.step(&mut status, SourceEvent::Told)[..],
        [SourceAction::Wait]
    ));
    assert_eq!(status.system_state, SourceUiState::Reconnecting);
    assert_eq!(status.microphone_state, SourceUiState::Capturing);
    assert_eq!(status.microphone, Some(mic()));
    system.step(&mut status, SourceEvent::Waited);
    attempt(&mut system, &mut status, "sink-b");
    let actions = system.step(
        &mut status,
        SourceEvent::Resolved(Ok(Resolved::Output { sink: sink(), monitor: monitor() })),
    );
    assert!(matches!(
        &actions[..],
        [SourceAction::TellDevice, SourceAction::Capture { device_id, follow_default: false }] if device_id == "sink-b.monitor"
    ));
    assert_eq!(status.system_state, SourceUiState::Capturing);
    assert_eq!((status.output, status.monitor), (Some(sink()), Some(monitor())));
}

#[test]
fn an_audio_server_that_goes_away_is_noted() {
    let mut status = RuntimeStatus::new(ProviderKind::Voxtype);
    let mut task = SourceTask::new(AudioSource::Mic);
    attempt(&mut task, &mut status, "default");
    task.step(&mut status, SourceEvent::Resolved(Ok(Resolved::Microphone(mic()))));
    assert_eq!(status.audio_server, AudioServerHealth::Available);
    let actions = task.step(
        &mut status,
        SourceEvent::Ended { result: Err(AppError::audio("Audio SERVER down")), stopping: false },
    );
    assert!(matches!(
        &actions[..],
        [SourceAction::TellServer, SourceAction::TellDevice, SourceAction::Wait]
    ));
    assert_eq!(status.audio_server, AudioServerHealth::Unavailable);
    task.step(&mut status, SourceEvent::Waited);
    attempt(&mut task, &mut status, "default");
    task.step(&mut status, SourceEvent::Resolved(Ok(Resolved::Microphone(mic()))));
    assert_eq!(status.audio_server, AudioServerHealth::Available);
    assert!(task
        .step(&mut status, SourceEvent::Ended { result: Ok(()), stopping: false })
        .is_empty());
    assert!(matches!(task.stage, SourceStage::Ready));
    let actions = task.step(
        &mut status,
        SourceEvent::Attempt { stopping: true, configured: "default".to_string() },
    );
    assert!(actions.is_empty() && matches!(task.stage, SourceStage::Over));
}

#[test]
fn a_stream_that_fails_alone_blames_no_server() {
    let mut status = RuntimeStatus::new(ProviderKind::Voxtype);
    let mut task = SourceTask::new(AudioSource::Mic);
    attempt(&mut task, &mut status, "default");
    task.step(&mut status, SourceEvent::Resolved(Ok(Resolved::Microphone(mic()))));
    let actions = task.step(
        &mut status,
        SourceEvent::Ended { result: Err(AppError::audio("device busy")), stopping: false },
    );
    assert!(matches!(&actions[..], [SourceAction::TellDevice, SourceAction::Wait]));
    assert_eq!(status.audio_server, AudioServerHealth::Available);
}

#[test]
fn sessions_go_step_by_step() {
    let mut steps = vec![SessionStep::MakeDirs];
    while *steps.last().unwrap() != SessionStep::Done {
        steps.push(steps.last().unwrap().next(true, true, true));
    }
    assert_eq!(
        steps,
        vec![
            SessionStep::MakeDirs,
            SessionStep::MarkRetained,
            SessionStep::InsertSession,
            SessionStep::ChooseModel,
            SessionStep::InsertRun,
            SessionStep::WriteSnapshot,
            SessionStep::Show,
            SessionStep::Capture,
            SessionStep::AwaitSources,
            SessionStep::Finalize,
            SessionStep::Clear,
            SessionStep::ResetJobs,
            SessionStep::AwaitWorker,
            SessionStep::ResetJobsAgain,
            SessionStep::Done,
        ]
    );
    assert_eq!(SessionStep::MakeDirs.next(true, false, true), SessionStep::InsertSession);
    assert_eq!(SessionStep::Clear.next(true, false, false), SessionStep::Done);
    assert_eq!(SessionStep::InsertRun.next(false, false, false), SessionStep::Failed);
    assert_eq!(SessionStep::Capture.next(false, false, false), SessionStep::AwaitSources);
    assert_eq!(SessionStep::Failed.next(true, false, false), SessionStep::Failed);
}

#[test]
fn missing_tools_are_warned_of() {
    let mut c = config();
    assert!(warn_if_transcription_unready(&c, true, false, false).is_empty());
    assert_eq!(
        warn_if_transcription_unready(&c, false, true, true),
        vec!["voxtype is unavailable; captured turns will remain queued"]
    );
    c.transcription.provider = ProviderKind::WhisperCpp;
    assert_eq!(warn_if_transcription_unready(&c, false, false, false).len(), 2);
    assert!(warn_if_transcription_unready(&c, false, true, true).is_empty());
}

#[test]
fn the_model_of_a_session() {
    let mut c = config();
    assert_eq!(session_model(&c, "whisper:small".to_string()), "whisper:small");
    c.transcription.provider = ProviderKind::WhisperCpp;
    c.transcription.whisper_cpp.model = "/m.bin".to_string();
    assert_eq!(session_model(&c, "whisper:small".to_string()), "/m.bin");
}

#[test]
fn what_is_shown_of_a_session() {
    let now = "2026-08-17T12:00:00.000Z".to_string();
    let mut store = Store::new();
    let session = insert_running_session(&mut store, "s", None, None, None, &now).unwrap();
    let mut status = RuntimeStatus::new(ProviderKind::WhisperCpp);
    status.capture_paused = true;
    status.capture_stop_reason = Some("old".to_string());
    mark_started(
        &mut status,
        &session,
        SessionDevices { microphone: Some(mic()), output: None, monitor: None },
        ProviderKind::Voxtype,
    );
    assert_eq!(status.session_id.as_deref(), Some("s"));
    assert_eq!(status.session_started_at.as_deref(), Some(now.as_str()));
    assert!(status.capture_active && !status.capture_paused);
    assert_eq!(status.capture_stop_reason, None);
    assert_eq!(status.provider, ProviderKind::Voxtype);
    assert_eq!(status.system_state, SourceUiState::Capturing);
    mark_disk_stop(&mut status, "full".to_string());
    assert!(!status.capture_active);
    mark_ended(&mut status);
    assert_eq!(status.session_id, None);
    assert_eq!(status.capture_stop_reason.as_deref(), Some("full"));
    assert_eq!(status.microphone, Some(mic()));
    assert_eq!(status.microphone_state, SourceUiState::Idle);
}

#[test]
fn a_session_ends_complete_or_interrupted() {
    let now = "2026-08-17T12:00:00.000Z".to_string();
    let later = "2026-08-17T13:00:00.000Z".to_string();
    let mut store = Store::new();
    for id in ["a", "b", "c"] {
        insert_running_session(&mut store, id, None, None, None, &now).unwrap();
    }
    let a = finalize_session(&mut store, "a", false, &later).unwrap();
    assert_eq!(a.state, SessionState::Completed);
    assert_eq!(a.ended_at.as_deref(), Some(later.as_str()));
    assert_eq!(get_session(&store, "a").unwrap().state, SessionState::Completed);
    let b = finalize_session(&mut store, "b", true, &later).unwrap();
    assert_eq!(b.state, SessionState::Interrupted);
    let c = interrupt_session(&mut store, "c", &now).unwrap();
    assert_eq!(c.state, SessionState::Interrupted);
    let again = finalize_session(&mut store, "c", false, &later).unwrap();
    assert_eq!(again.state, SessionState::Interrupted);
    assert_eq!(again.ended_at.as_deref(), Some(now.as_str()));
    assert!(finalize_session(&mut store, "d", false, &later).is_none());
    assert!(interrupt_session(&mut store, "d", &later).is_none());
}

#[test]
fn capture_stops_when_the_disk_is_full() {
    let mb = 1024 * 1024;
    assert!(matches!(disk_verdict(&Ok(2048 * mb), "/d", 1024), DiskVerdict::Continue));
    assert!(matches!(
        disk_verdict(&Err(AppError::other("?")), "/d", 1024),
        DiskVerdict::Unknown
    ));
    match disk_verdict(&Ok(10 * mb), "/d", 1024) {
        DiskVerdict::Stop(e) => assert!(e.to_string().contains("/d"), "{e:?}"),
        other => panic!("unexpected {other:?}"),
    }
    assert_eq!(
        no_audio_server().to_string(),
        "stopped before PulseAudio/pipewire-pulse became available"
    );
}
