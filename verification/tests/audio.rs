//! Sources, devices, raw buffers and speech.

use voxtype_meeting_service::audio::convert::{
    decode_i16_raw, decode_samples, frames_of_samples, to_i16_mono_16k, Converted, PcmFormat,
    TARGET_RATE,
};
use voxtype_meeting_service::audio::devices::{print_devices, print_group, DeviceLists};
use voxtype_meeting_service::audio::fake::FakeAudioBackend;
use voxtype_meeting_service::audio::pulse::{
    as_monitor, capture_target, collect, command_error, connect_error, connect_step, drain_step,
    listed_source, map_format, microphone_name, monitor_name, no_answer, output_name,
    reply_server_down, server_identity, server_lost, sink_by_name, sink_device, source_by_name,
    source_device, start_capture_step, stream_broken, stream_error, stream_name, Collect, Collected,
    CommandFault, CommandKind, ConnectFault, Defaults, DeviceInfo, DrainStep, NoAnswer, Peeked,
    Progress, PulseThread, Question, SampleFormat, SampleSpec, SetupStep, StreamFault, Streams,
    ThreadAction, ThreadEvent, ThreadStage,
};
use voxtype_meeting_service::audio::speech::{
    align_chunk_times, align_chunk_times_16k, duration_ms, speech_range_ms,
};
use voxtype_meeting_service::audio::{
    capture_should_stop, AudioDevice, AudioEvent, AudioSource, DeviceRole,
};
use voxtype_meeting_service::error::AppError;
use voxtype_meeting_service::timeutil::parse_rfc3339;
use voxtype_meeting_service::timeutil::UtcTime;

fn device(id: &str, description: &str, role: DeviceRole) -> AudioDevice {
    AudioDevice { id: id.to_string(), description: description.to_string(), role }
}

fn sine(len: usize, freq: f32, amp: i16) -> Vec<i16> {
    (0..len)
        .map(|i| {
            let t = i as f32 / TARGET_RATE as f32;
            (f32::from(amp) * (2.0 * std::f32::consts::PI * freq * t).sin()) as i16
        })
        .collect()
}

fn millis_between(a: UtcTime, b: UtcTime) -> i64 {
    (b.secs - a.secs) * 1000 + (i64::from(b.nanos) - i64::from(a.nanos)) / 1_000_000
}

#[test]
fn s16le_mono_passthrough() {
    let samples: Vec<i16> = (0..160).map(|i| i * 20).collect();
    let mut bytes = Vec::new();
    for s in &samples {
        bytes.extend_from_slice(&s.to_le_bytes());
    }
    let out = match to_i16_mono_16k(&bytes, PcmFormat::S16Le, 1, TARGET_RATE).unwrap() {
        Converted::Ready(samples) => samples,
        Converted::ToResample { .. } => panic!("a stream in the target form is passed through"),
    };
    assert_eq!(out, samples);
}

#[test]
fn capture_stop_rules() {
    let mic = device("mic-a", "A", DeviceRole::Microphone);
    let sink = device("sink-b", "B", DeviceRole::OutputSink);
    let monitor = device("sink-b.monitor", "B mon", DeviceRole::MonitorSource);

    assert!(capture_should_stop(
        AudioSource::Mic,
        "mic-a",
        true,
        &AudioEvent::AudioServerUnavailable { reason: "down".to_string() }
    ));
    assert!(capture_should_stop(
        AudioSource::Mic,
        "mic-a",
        true,
        &AudioEvent::MicrophoneChanged { device: mic.clone() }
    ));
    assert!(!capture_should_stop(
        AudioSource::Mic,
        "mic-a",
        false,
        &AudioEvent::MicrophoneChanged { device: mic.clone() }
    ));
    assert!(!capture_should_stop(
        AudioSource::System,
        "sink-b.monitor",
        true,
        &AudioEvent::MicrophoneChanged { device: mic }
    ));
    assert!(capture_should_stop(
        AudioSource::System,
        "sink-b.monitor",
        true,
        &AudioEvent::OutputChanged { device: sink, monitor }
    ));
}

#[test]
fn lost_devices_stop_only_their_capture() {
    let lost = AudioEvent::MicrophoneUnavailable {
        device_id: "mic-a".to_string(),
        reason: "gone".to_string(),
    };
    assert!(capture_should_stop(AudioSource::Mic, "mic-a", false, &lost));
    assert!(!capture_should_stop(AudioSource::Mic, "mic-b", false, &lost));
    assert!(!capture_should_stop(AudioSource::System, "mic-a", false, &lost));
    let any = AudioEvent::OutputUnavailable { device_id: String::new(), reason: String::new() };
    assert!(capture_should_stop(AudioSource::System, "sink.monitor", false, &any));
    assert!(!capture_should_stop(AudioSource::Mic, "x", true, &AudioEvent::AudioServerAvailable));
}

#[test]
fn source_names() {
    assert_eq!(AudioSource::Mic.as_str(), "mic");
    assert_eq!(AudioSource::System.as_str(), "system");
    assert_eq!(AudioSource::Mic.display_label(), "MIC");
    assert_eq!(AudioSource::System.display_label(), "SYSTEM");
    assert_eq!(AudioSource::System.audio_subdir(), "system");
}

#[test]
fn device_summaries() {
    assert_eq!(device("a", "", DeviceRole::Microphone).summary(), "a");
    assert_eq!(device("a", "a", DeviceRole::Microphone).summary(), "a");
    assert_eq!(device("a", "Desk", DeviceRole::Microphone).summary(), "a (Desk)");
}

#[test]
fn buffers_are_read_by_format() {
    assert_eq!(decode_i16_raw(&[0x01, 0x80], false).unwrap(), vec![-32767]);
    assert_eq!(decode_i16_raw(&[0x01, 0x80], true).unwrap(), vec![384]);
    assert_eq!(decode_samples(&[0, 128, 255], PcmFormat::U8).unwrap(), vec![-128, 0, 127]);
    assert_eq!(
        decode_samples(&[0xff, 0xff, 0xff, 0x00, 0x00, 0x80], PcmFormat::S24Le).unwrap(),
        vec![-1, -8_388_608]
    );
    assert_eq!(
        decode_samples(&[1, 0, 0, 0, 0, 0, 0, 0x80], PcmFormat::S32Le).unwrap(),
        vec![1, i32::MIN]
    );
}

#[test]
fn uneven_buffers_are_refused() {
    let cases = [
        (PcmFormat::S16Le, "S16 PCM length is not a multiple of 2"),
        (PcmFormat::S24Le, "S24 PCM length is not a multiple of 3"),
        (PcmFormat::S32Le, "S32 PCM length is not a multiple of 4"),
        (PcmFormat::F32Le, "F32 PCM length is not a multiple of 4"),
    ];
    for (format, message) in cases {
        let error = to_i16_mono_16k(&[0, 0, 0, 0, 0], format, 2, 48_000).unwrap_err();
        assert!(error.to_string().contains(message), "{:?}", error);
    }
}

#[test]
fn streams_without_channels_or_rate_are_refused() {
    let error = to_i16_mono_16k(&[], PcmFormat::S16Le, 0, 16_000).unwrap_err();
    assert_eq!(
        error.to_string(),
        "audio conversion failed because the stream has zero channels"
    );
    let error = to_i16_mono_16k(&[], PcmFormat::S16Le, 1, 0).unwrap_err();
    assert_eq!(
        error.to_string(),
        "audio conversion failed because the stream sample rate is 0"
    );
}

#[test]
fn other_streams_are_left_to_resample() {
    match to_i16_mono_16k(&[1, 0, 2, 0], PcmFormat::S16Le, 2, 48_000).unwrap() {
        Converted::ToResample { frames, format, rate } => {
            assert_eq!(frames, vec![vec![1, 2]]);
            assert_eq!(format, PcmFormat::S16Le);
            assert_eq!(rate, 48_000);
        }
        Converted::Ready(_) => panic!("stereo is not passed through"),
    }
}

#[test]
fn only_whole_frames_are_kept() {
    for channels in 1u16..=6 {
        for count in 0usize..40 {
            let bytes: Vec<u8> = (0..count as u8).collect();
            let frames = match to_i16_mono_16k(&bytes, PcmFormat::U8, channels, 16_000).unwrap() {
                Converted::ToResample { frames, .. } => frames,
                Converted::Ready(_) => panic!("bytes are not passed through"),
            };
            assert_eq!(frames.len(), count / channels as usize);
            assert!(frames.iter().all(|frame| frame.len() == channels as usize));
        }
    }
    assert_eq!(
        frames_of_samples(&vec![1, 2, 3, 4, 5, 6, 7], 3),
        vec![vec![1, 2, 3], vec![4, 5, 6]]
    );
}

#[test]
fn silence_has_no_speech_range() {
    assert_eq!(speech_range_ms(&vec![0; TARGET_RATE as usize], TARGET_RATE), None);
}

#[test]
fn speech_from_start_stays_near_zero() {
    let samples = sine(TARGET_RATE as usize, 440.0, 8_000);
    let (start_ms, end_ms) = speech_range_ms(&samples, TARGET_RATE).unwrap();
    assert!(start_ms <= 50, "start_ms={start_ms}");
    assert!(end_ms >= 900, "end_ms={end_ms}");
}

#[test]
fn silence_then_tone_shifts_start() {
    let mut samples = vec![0i16; TARGET_RATE as usize];
    samples.extend(sine(TARGET_RATE as usize / 5, 440.0, 8_000));
    let (start_ms, end_ms) = speech_range_ms(&samples, TARGET_RATE).unwrap();
    assert!(
        (900..=1_050).contains(&start_ms),
        "expected onset near 1s after 50ms pad, got {start_ms}"
    );
    assert!(end_ms > start_ms);
    assert!(end_ms <= 1_200);
}

#[test]
fn silence_before_speech_moves_it() {
    let mut samples = vec![0i16; 3_200];
    samples.extend(sine(8_000, 440.0, 8_000));
    samples.extend(vec![0i16; 5_000]);
    let (start, end) = speech_range_ms(&samples, TARGET_RATE).unwrap();
    assert!(start > 0);
    for windows in [1usize, 7, 50] {
        let mut later = vec![0i16; 320 * windows];
        later.extend(samples.iter());
        let moved = 20 * windows as u64;
        assert_eq!(
            speech_range_ms(&later, TARGET_RATE),
            Some((start + moved, end + moved))
        );
    }
}

#[test]
fn align_clamps_to_chunk_and_is_idempotent_on_pcm() {
    let start = parse_rfc3339("2026-08-17T18:45:39Z").unwrap();
    let mut samples = vec![0i16; TARGET_RATE as usize];
    samples.extend(sine(TARGET_RATE as usize / 5, 440.0, 8_000));
    let end = start.plus_millis(1_200);
    let (aligned_start, aligned_end) = align_chunk_times(start, end, &samples, TARGET_RATE);
    let offset = millis_between(start, aligned_start);
    assert!((900..=1_050).contains(&offset), "aligned offset {offset}ms");
    assert!(aligned_end.at_most(end));
    assert!(start.at_most(aligned_start));
    let again = align_chunk_times(start, end, &samples, TARGET_RATE);
    assert_eq!((aligned_start, aligned_end), again);
    assert_eq!(align_chunk_times_16k(start, end, &samples), again);
}

#[test]
fn silence_keeps_the_times_of_a_chunk() {
    let start = parse_rfc3339("2026-08-17T18:45:39Z").unwrap();
    let end = start.plus_millis(1_000);
    assert_eq!(align_chunk_times_16k(start, end, &vec![0; 16_000]), (start, end));
}

#[test]
fn durations_are_rounded_down() {
    assert_eq!(duration_ms(16_000, 16_000), 1_000);
    assert_eq!(duration_ms(15, 16_000), 0);
    assert_eq!(duration_ms(17, 16_000), 1);
}

#[test]
fn device_groups_mark_one() {
    let mic = device("mic-a", "Desk", DeviceRole::Microphone);
    let sink = device("sink-b", "Speakers", DeviceRole::OutputSink);
    assert_eq!(print_group(&vec![], "mic-a", "default"), "  (none)\n");
    assert_eq!(
        print_group(&vec![mic.clone(), sink.clone()], "mic-a", "default"),
        "  * mic-a  Desk  [mic]  (default)\n    sink-b  Speakers  [sink]\n"
    );
    let monitor = device("sink-b.monitor", "", DeviceRole::MonitorSource);
    let text = print_devices(&DeviceLists {
        inputs: vec![mic.clone()],
        outputs: vec![sink.clone()],
        monitors: vec![monitor.clone()],
        microphone: mic,
        output: sink,
        monitor,
    });
    assert_eq!(
        text,
        "Microphones:\n  * mic-a  Desk  [mic]  (default)\n\nOutput sinks:\n  * sink-b  Speakers  [sink]  (default)\n\nMonitor sources:\n  * sink-b.monitor    [monitor]  (selected for SYSTEM)\n\nDefault microphone: mic-a (Desk)\nDefault output: sink-b (Speakers)\nSelected monitor: sink-b.monitor\n"
    );
}

#[test]
fn a_pretended_server_answers_while_it_is_there() {
    let mut fake = FakeAudioBackend::continuous(160);
    assert_eq!(fake.samples_per_frame, 160);
    assert_eq!(FakeAudioBackend::new(3, 80).samples_per_frame, 80);
    assert_eq!(fake.current_microphone().unwrap().id, "fake-mic");
    assert_eq!(fake.current_output_sink().unwrap().id, "fake-sink");
    assert_eq!(fake.current_output_monitor().unwrap().id, "fake-sink.monitor");
    assert_eq!(fake.server_identity().unwrap(), "FakeAudio");
    assert_eq!(fake.resolve_microphone("default").unwrap().id, "fake-mic");
    assert_eq!(
        fake.resolve_microphone("hw:1").unwrap_err().to_string(),
        "microphone source hw:1 was not found"
    );
    assert_eq!(fake.resolve_output("fake-sink").unwrap().1.id, "fake-sink.monitor");
    assert_eq!(
        fake.resolve_output("hw:2").unwrap_err().to_string(),
        "output sink hw:2 was not found"
    );
    assert!(matches!(
        fake.set_server_available(false),
        AudioEvent::AudioServerUnavailable { .. }
    ));
    for error in [
        fake.current_microphone().unwrap_err(),
        fake.resolve_microphone("default").unwrap_err(),
        fake.resolve_output("default").unwrap_err(),
        fake.begin_capture(AudioSource::Mic, "fake-mic").unwrap_err(),
        fake.before_frame(AudioSource::Mic, "fake-mic", false).unwrap_err(),
    ] {
        assert_eq!(error.to_string(), "fake audio server unavailable");
    }
    assert!(fake.server_identity().is_err());
    assert!(matches!(fake.set_server_available(true), AudioEvent::AudioServerAvailable));
}

#[test]
fn a_pretended_source_can_fail() {
    let mut fake = FakeAudioBackend::continuous(160);
    fake.begin_capture(AudioSource::System, "fake-sink.monitor").unwrap();
    assert_eq!(
        fake.last_capture_device(AudioSource::System).as_deref(),
        Some("fake-sink.monitor")
    );
    assert_eq!(fake.last_capture_device(AudioSource::Mic), None);
    assert!(fake.before_frame(AudioSource::System, "fake-sink.monitor", false).unwrap());
    fake.frame_emitted(AudioSource::System);
    assert_eq!(fake.frames_emitted(AudioSource::System), 1);
    assert_eq!(fake.frames_emitted(AudioSource::Mic), 0);
    assert!(!fake.before_frame(AudioSource::System, "fake-sink.monitor", true).unwrap());
    match fake.hide_output() {
        AudioEvent::OutputUnavailable { device_id, reason } => {
            assert_eq!(device_id, "fake-sink.monitor");
            assert_eq!(reason, "fake output disappeared");
        }
        other => panic!("unexpected {other:?}"),
    }
    assert_eq!(
        fake.before_frame(AudioSource::System, "fake-sink.monitor", false)
            .unwrap_err()
            .to_string(),
        "system capture unavailable because source fake-sink.monitor failed"
    );
    assert!(fake.before_frame(AudioSource::Mic, "fake-mic", false).unwrap());
    fake.fail_source(AudioSource::System, false);
    assert!(fake.before_frame(AudioSource::System, "fake-sink.monitor", false).unwrap());
    let other = device("mic-b", "B", DeviceRole::Microphone);
    assert!(matches!(
        fake.set_microphone(other.clone()),
        AudioEvent::MicrophoneChanged { .. }
    ));
    assert_eq!(fake.current_microphone().unwrap(), other);
    let sink = device("sink-b", "B", DeviceRole::OutputSink);
    let monitor = device("sink-b.monitor", "B", DeviceRole::MonitorSource);
    assert!(matches!(
        fake.set_output(sink.clone(), monitor.clone()),
        AudioEvent::OutputChanged { .. }
    ));
    assert_eq!(fake.resolve_output("default").unwrap(), (sink, monitor));
}

fn info(name: Option<&str>, description: Option<&str>, is_monitor: bool) -> DeviceInfo {
    DeviceInfo {
        name: name.map(str::to_string),
        description: description.map(str::to_string),
        is_monitor,
    }
}

#[test]
fn devices_of_the_server() {
    assert_eq!(source_device(&info(None, Some("x"), false)), None);
    assert_eq!(
        source_device(&info(Some("m"), None, false)),
        Some(device("m", "m", DeviceRole::Microphone))
    );
    assert_eq!(
        source_device(&info(Some("m"), Some("M"), true)),
        Some(device("m", "M", DeviceRole::MonitorSource))
    );
    assert_eq!(
        sink_device(&info(Some("s"), Some("S"), false)),
        Some(device("s", "S", DeviceRole::OutputSink))
    );
    assert_eq!(listed_source(&info(Some("m"), None, true), false), None);
    assert!(listed_source(&info(Some("m"), None, true), true).is_some());
    let monitor = as_monitor(device("m", "M", DeviceRole::Microphone));
    assert_eq!(monitor.role, DeviceRole::MonitorSource);
    assert_eq!(map_format(SampleFormat::S24In32Le), Some(PcmFormat::S24_32Le));
    assert_eq!(map_format(SampleFormat::F32Be), None);
}

#[test]
fn lists_of_devices_are_collected() {
    let mut items = Vec::new();
    let mic = device("m", "M", DeviceRole::Microphone);
    assert!(matches!(collect(&mut items, Collect::Item(mic.clone())), Collected::More));
    assert!(matches!(collect(&mut items, Collect::Nothing { expired: false }), Collected::More));
    assert!(matches!(collect(&mut items, Collect::End), Collected::Done));
    assert_eq!(items, vec![mic.clone()]);
    for (event, message) in [
        (Collect::Error, "PulseAudio introspection failed while listing devices"),
        (Collect::Nothing { expired: true }, "timed out waiting for PulseAudio device list"),
        (Collect::Closed, "PulseAudio introspection channel closed unexpectedly"),
    ] {
        match collect(&mut items, event) {
            Collected::Failed(e) => assert_eq!(e.to_string(), message),
            other => panic!("unexpected {other:?}"),
        }
    }
    assert_eq!(source_by_name(items, "m").unwrap(), mic);
    assert_eq!(
        source_by_name(vec![], "m").unwrap_err().to_string(),
        "microphone source m was not found"
    );
    assert_eq!(
        sink_by_name(vec![], "s").unwrap_err().to_string(),
        "output sink s was not found"
    );
}

#[test]
fn names_to_look_for() {
    let some = Some("alsa".to_string());
    assert_eq!(microphone_name("default", &some).unwrap(), "alsa");
    assert_eq!(microphone_name("", &some).unwrap(), "alsa");
    assert_eq!(microphone_name("hw:1", &None).unwrap(), "hw:1");
    assert_eq!(
        microphone_name("default", &None).unwrap_err().to_string(),
        "PulseAudio has no default microphone (default source is unset)"
    );
    assert_eq!(output_name("", &some).unwrap(), "alsa");
    assert_eq!(
        output_name("default", &None).unwrap_err().to_string(),
        "PulseAudio has no default output sink"
    );
    assert_eq!(monitor_name(&some, &None).unwrap(), "alsa");
    assert_eq!(
        monitor_name(&None, &None).unwrap_err().to_string(),
        "output sink unknown has no monitor source"
    );
    assert_eq!(
        monitor_name(&None, &some).unwrap_err().to_string(),
        "output sink alsa has no monitor source"
    );
    assert_eq!(server_identity(&None, &None), "unknown");
    assert_eq!(server_identity(&some, &Some("1.2".to_string())), "alsa 1.2");
    assert_eq!(server_identity(&some, &Some(String::new())), "alsa");
    assert_eq!(
        no_answer(&Question::Monitor("s".to_string()), NoAnswer::Expired).to_string(),
        "timed out looking up monitor source for sink s"
    );
    assert_eq!(
        no_answer(&Question::Monitor("s".to_string()), NoAnswer::Refused).to_string(),
        "failed to look up monitor source for sink s"
    );
    assert_eq!(
        no_answer(&Question::Monitor("s".to_string()), NoAnswer::Closed).to_string(),
        "monitor lookup channel closed for sink s"
    );
    assert_eq!(
        no_answer(&Question::Defaults, NoAnswer::Expired).to_string(),
        "timed out waiting for PulseAudio server info"
    );
    assert_eq!(
        no_answer(&Question::Identity, NoAnswer::Closed).to_string(),
        "PulseAudio server identity channel closed unexpectedly"
    );
}

fn defaults(mic: Option<&str>, sink: Option<&str>) -> Defaults {
    Defaults {
        microphone: mic.map(|id| device(id, "M", DeviceRole::Microphone)),
        sink: sink.map(|id| device(id, "S", DeviceRole::OutputSink)),
        monitor: sink.map(|id| device(&format!("{id}.monitor"), "S", DeviceRole::MonitorSource)),
    }
}

#[test]
fn changed_defaults_are_told() {
    let mut known = Defaults::unknown();
    assert!(known.refresh_devices(defaults(Some("m"), Some("s"))).is_empty());
    assert!(known.refresh_devices(defaults(Some("m"), Some("s"))).is_empty());
    let told = known.refresh_devices(defaults(Some("n"), Some("t")));
    assert_eq!(told.len(), 2);
    assert!(matches!(&told[0], AudioEvent::MicrophoneChanged { device } if device.id == "n"));
    assert!(matches!(
        &told[1],
        AudioEvent::OutputChanged { device, monitor } if device.id == "t" && monitor.id == "t.monitor"
    ));
    let told = known.refresh_devices(defaults(None, Some("t")));
    assert_eq!(told.len(), 1);
    assert!(matches!(
        &told[0],
        AudioEvent::MicrophoneUnavailable { reason, .. } if reason == "microphone source n disappeared"
    ));
    let told = known.refresh_devices(defaults(Some("n"), None));
    assert_eq!(told.len(), 2);
    assert!(matches!(&told[0], AudioEvent::MicrophoneAvailable { .. }));
    assert!(matches!(
        &told[1],
        AudioEvent::OutputUnavailable { reason, .. } if reason == "output sink t disappeared"
    ));
    let told = known.refresh_devices(defaults(Some("n"), Some("t")));
    assert!(matches!(&told[0], AudioEvent::OutputAvailable { .. }));
}

#[test]
fn streams_are_set_up_or_given_up() {
    assert_eq!(stream_name(AudioSource::Mic), "voxtype-meeting-service-mic");
    assert_eq!(
        capture_target(Some("m".to_string()), Err(AppError::audio("none"))).unwrap(),
        "m"
    );
    assert_eq!(
        capture_target(None, Ok(device("d", "D", DeviceRole::Microphone))).unwrap(),
        "d"
    );
    assert!(capture_target(None, Err(AppError::audio("none"))).is_err());
    assert!(matches!(
        start_capture_step(AudioSource::Mic, "m", Progress::Ready, true),
        SetupStep::Go
    ));
    assert!(matches!(
        start_capture_step(AudioSource::Mic, "m", Progress::Pending, false),
        SetupStep::Wait
    ));
    match start_capture_step(AudioSource::System, "s", Progress::Pending, true) {
        SetupStep::GiveUp(e) => assert_eq!(
            e.to_string(),
            "timed out connecting system audio capture to source s"
        ),
        other => panic!("unexpected {other:?}"),
    }
    match start_capture_step(AudioSource::Mic, "m", Progress::Broken, false) {
        SetupStep::GiveUp(e) => assert_eq!(
            e.to_string(),
            "microphone capture unavailable because source m failed to enter the ready state"
        ),
        other => panic!("unexpected {other:?}"),
    }
    assert_eq!(
        stream_error(AudioSource::Mic, "m", &StreamFault::NotMade).to_string(),
        "could not create PulseAudio record stream for mic"
    );
    assert_eq!(
        stream_error(AudioSource::Mic, "m", &StreamFault::NotConnected("no".to_string()))
            .to_string(),
        "microphone capture unavailable because source m could not be connected: no"
    );
    let mut streams = Streams::none();
    assert!(!streams.is_read(AudioSource::Mic));
    streams.begin(AudioSource::Mic, "m".to_string());
    assert!(streams.is_read(AudioSource::Mic) && !streams.is_read(AudioSource::System));
    streams.stop_capture(AudioSource::Mic);
    assert!(!streams.is_read(AudioSource::Mic));
}

#[test]
fn a_broken_stream_is_told_and_ends_its_capture() {
    for source in [AudioSource::Mic, AudioSource::System] {
        let event = stream_broken(source, "d");
        assert!(capture_should_stop(source, "d", false, &event));
    }
    match stream_broken(AudioSource::System, "d") {
        AudioEvent::OutputUnavailable { reason, .. } => assert_eq!(
            reason,
            "system audio capture unavailable because monitor source d disappeared"
        ),
        other => panic!("unexpected {other:?}"),
    }
}

#[test]
fn streams_are_read_until_they_are_empty() {
    let spec = SampleSpec { format: SampleFormat::S16Le, channels: 2, rate: 44_100 };
    assert_eq!(
        drain_step(Peeked::Data(Some(spec))),
        DrainStep::Convert { format: PcmFormat::S16Le, channels: 2, rate: 44_100 }
    );
    let odd = SampleSpec { format: SampleFormat::ALaw, channels: 2, rate: 44_100 };
    assert_eq!(drain_step(Peeked::Data(Some(odd))), DrainStep::Skip);
    assert_eq!(drain_step(Peeked::Data(None)), DrainStep::Skip);
    assert_eq!(drain_step(Peeked::Hole), DrainStep::Skip);
    assert_eq!(drain_step(Peeked::Empty), DrainStep::Stop);
    assert_eq!(drain_step(Peeked::Failed), DrainStep::Stop);
}

#[test]
fn connections_are_set_up_or_given_up() {
    assert!(matches!(connect_step(Progress::Ready, true), SetupStep::Go));
    assert!(matches!(connect_step(Progress::Pending, false), SetupStep::Wait));
    assert!(matches!(connect_step(Progress::Broken, false), SetupStep::GiveUp(_)));
    match connect_step(Progress::Pending, true) {
        SetupStep::GiveUp(e) => assert_eq!(
            e.to_string(),
            "timed out after 5s waiting for PulseAudio/pipewire-pulse to become ready"
        ),
        other => panic!("unexpected {other:?}"),
    }
    let why = "why".to_string();
    for (fault, message) in [
        (ConnectFault::NoThread(why.clone()), "could not start PulseAudio thread: why"),
        (ConnectFault::NoProperties, "could not create PulseAudio property list"),
        (ConnectFault::NoMainloop, "could not create PulseAudio threaded mainloop"),
        (ConnectFault::NoContext, "could not create PulseAudio context"),
        (
            ConnectFault::NotConnected(why.clone()),
            "PulseAudio connect failed: why. Is pipewire-pulse or PulseAudio running?",
        ),
        (ConnectFault::NotStarted(why), "could not start PulseAudio mainloop: why"),
        (
            ConnectFault::Broken,
            "PulseAudio connection failed or terminated before becoming ready",
        ),
    ] {
        assert_eq!(connect_error(&fault).to_string(), message);
    }
    assert_eq!(
        command_error(CommandFault::NoThread).to_string(),
        "PulseAudio thread is not running"
    );
    assert_eq!(
        command_error(CommandFault::Expired).to_string(),
        "timed out waiting for a PulseAudio introspection result"
    );
    assert_eq!(
        command_error(CommandFault::Dropped).to_string(),
        "PulseAudio thread disconnected while waiting for a result"
    );
}

#[test]
fn commands_without_a_server() {
    assert!(reply_server_down(CommandKind::Question).unwrap().is_err());
    assert_eq!(
        reply_server_down(CommandKind::StartCapture).unwrap().unwrap_err().to_string(),
        "PulseAudio/pipewire-pulse is unavailable; retrying connection"
    );
    assert!(reply_server_down(CommandKind::StopCapture).unwrap().is_ok());
    assert!(reply_server_down(CommandKind::Shutdown).is_none());
}

#[test]
fn the_thread_waits_for_a_lost_server() {
    let mut thread = PulseThread::new();
    assert!(matches!(
        thread.step(ThreadEvent::Connected(Ok(())))[..],
        [ThreadAction::AnnounceReady]
    ));
    assert!(matches!(
        thread.step(ThreadEvent::Command { kind: CommandKind::Question, ready: true })[..],
        [ThreadAction::Handle]
    ));
    assert!(matches!(
        thread.step(ThreadEvent::Quiet { broken: false, ready: true, changed: true })[..],
        [ThreadAction::Refresh]
    ));
    assert!(thread
        .step(ThreadEvent::Quiet { broken: false, ready: true, changed: false })
        .is_empty());
    assert!(matches!(
        thread.step(ThreadEvent::Quiet { broken: true, ready: true, changed: true })[..],
        [ThreadAction::TearDown, ThreadAction::TellUnavailable]
    ));
    assert_eq!(thread.stage, ThreadStage::Waiting);
    assert!(matches!(
        thread.step(ThreadEvent::Command { kind: CommandKind::StartCapture, ready: false })[..],
        [ThreadAction::ReplyDown]
    ));
    assert!(thread.step(ThreadEvent::Waited).is_empty());
    assert!(matches!(
        thread.step(ThreadEvent::Connected(Err(AppError::audio("no"))))[..],
        [ThreadAction::TellUnavailable]
    ));
    thread.step(ThreadEvent::Waited);
    assert!(matches!(
        thread.step(ThreadEvent::Connected(Ok(())))[..],
        [ThreadAction::TellAvailable]
    ));
    assert!(matches!(
        thread.step(ThreadEvent::Command { kind: CommandKind::Shutdown, ready: true })[..],
        [ThreadAction::TearDown]
    ));
    assert_eq!(thread.stage, ThreadStage::Over);
    assert!(thread.step(ThreadEvent::Connected(Ok(()))).is_empty());
    assert!(matches!(
        server_lost(),
        AudioEvent::AudioServerUnavailable { reason } if reason == "PulseAudio/pipewire-pulse connection was lost"
    ));
}

#[test]
fn a_first_connection_that_fails_ends_the_thread() {
    let mut thread = PulseThread::new();
    match thread.step(ThreadEvent::Connected(Err(AppError::audio("no server")))).pop() {
        Some(ThreadAction::AnnounceFailed(e)) => assert_eq!(e.to_string(), "no server"),
        other => panic!("unexpected {other:?}"),
    }
    assert_eq!(thread.stage, ThreadStage::Over);
}
