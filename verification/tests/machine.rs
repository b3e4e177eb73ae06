//! The machine: free space, its distribution, and the checks of an installation.

use voxtype_meeting_service::audio::{AudioDevice, DeviceRole};
use voxtype_meeting_service::config::{Config, ConfigSource, ProviderKind, RawConfig};
use voxtype_meeting_service::disk::{
    assert_enough_space, capture_allowed, disk_stop_error, format_bytes, stored_audio_bytes,
    StoredFile,
};
use voxtype_meeting_service::distro::{
    distribution_from_id_like, unquote, DistroInfo, LinuxDistribution,
};
use voxtype_meeting_service::doctor::{
    check_config, check_database, check_data_dir, check_device, check_disk, check_distro, check_id,
    check_openai, check_server_identity, check_systemd, check_ui_runtime, check_whisper,
    check_whisper_model, collect_checks, diagnostics_payload, missing_device, report, verdict,
    AudioFacts, CheckStatus, Facts, Program, UiProbe,
};
use voxtype_meeting_service::error::AppError;
use voxtype_meeting_service::paths::PathResolver;
use voxtype_meeting_service::service::{
    start_step, status_answer, status_report, stop_step, systemctl_error, unit_exists,
    unit_is_active, StartAction, StartEvent, StopAction, StopEvent, UNIT,
};
use voxtype_meeting_service::control::protocol::Response;

fn defaults() -> RawConfig {
    RawConfig {
        general: Default::default(),
        audio: Default::default(),
        transcription: Default::default(),
        transcript: Default::default(),
    }
}

fn paths() -> PathResolver {
    PathResolver::from_parts("/home/xa".to_string(), None, None, None, 1000)
}

#[test]
fn threshold_logic() {
    let mb = 1024u64 * 1024;
    assert!(capture_allowed(2000 * mb, 1024));
    assert!(capture_allowed(1024 * mb, 1024));
    assert!(!capture_allowed(500 * mb, 1024));
    assert!(!capture_allowed(0, 1024));
}

#[test]
fn formats_sizes() {
    assert_eq!(format_bytes(512), "512 B");
    assert!(format_bytes(2 * 1024 * 1024).contains("MB"));
}

#[test]
fn sizes_are_shown_as_with_floating_point() {
    let unit = 1024u64;
    let mut sizes = vec![0, 1, 1023, 1024, 1025, 1075, 1076, 1536, unit * unit - 1, unit * unit];
    sizes.extend([unit * unit * unit - 1, unit * unit * unit, u64::MAX, u64::MAX / 3]);
    let mut n: u64 = 1;
    for _ in 0..400 {
        n = n.wrapping_mul(6364136223846793005).wrapping_add(1442695040888963407);
        sizes.push(n >> (n % 60));
    }
    for bytes in sizes {
        let value = bytes as f64;
        let (kb, mb, gb) = (1024.0, 1024.0 * 1024.0, 1024.0 * 1024.0 * 1024.0);
        let expected = if value >= gb {
            format!("{:.1} GB", value / gb)
        } else if value >= mb {
            format!("{:.1} MB", value / mb)
        } else if value >= kb {
            format!("{:.1} KB", value / kb)
        } else {
            format!("{bytes} B")
        };
        assert_eq!(format_bytes(bytes), expected, "{bytes}");
    }
}

#[test]
fn too_little_space_is_an_error() {
    let mb = 1024u64 * 1024;
    assert!(assert_enough_space(1024 * mb, "/d", 1024).is_ok());
    let error = assert_enough_space(12 * mb, "/d", 1024).unwrap_err();
    assert_eq!(error.to_string(), disk_stop_error(12 * mb, "/d", 1024).to_string());
    assert!(error.to_string().contains("/d"), "{error:?}");
    let files = vec![
        StoredFile { name: "a.flac".to_string(), bytes: 10 },
        StoredFile { name: "a.txt".to_string(), bytes: 5 },
    ];
    assert_eq!(stored_audio_bytes(&files), 10);
}

#[test]
fn linuxmint() {
    let info = DistroInfo::from_os_release(
        r#"
NAME="Linux Mint"
ID=linuxmint
ID_LIKE="ubuntu debian"
PRETTY_NAME="Linux Mint 22.3"
"#,
    );
    assert_eq!(info.distribution, LinuxDistribution::LinuxMint);
    assert_eq!(info.pretty_name(), "Linux Mint 22.3");
}

#[test]
fn id_like_arch() {
    let info = DistroInfo::from_os_release(
        r#"
ID=manjaro
ID_LIKE=arch
PRETTY_NAME="Manjaro Linux"
"#,
    );
    assert_eq!(info.distribution, LinuxDistribution::Arch);
}

#[test]
fn unknown() {
    let info = DistroInfo::from_os_release("this is not os-release");
    assert_eq!(info.distribution, LinuxDistribution::Unknown);
    let empty = DistroInfo::from_os_release("");
    assert_eq!(empty.distribution, LinuxDistribution::Unknown);
}

#[test]
fn ubuntu_id() {
    let info = DistroInfo::from_os_release("ID=ubuntu\nPRETTY_NAME=\"Ubuntu 24.04\"\n");
    assert_eq!(info.distribution, LinuxDistribution::Ubuntu);
}

#[test]
fn related_distributions() {
    assert_eq!(distribution_from_id_like(Some("ubuntu debian")), LinuxDistribution::Ubuntu);
    assert_eq!(distribution_from_id_like(None), LinuxDistribution::Unknown);
    assert_eq!(unquote("\"a b\""), "a b");
    assert_eq!(unquote("'a'"), "a");
    assert_eq!(unquote("\"a"), "\"a");
}

#[test]
fn distro_mint_passes() {
    let info = DistroInfo::from_os_release("ID=linuxmint\nPRETTY_NAME=\"Linux Mint 22.3\"\n");
    assert_eq!(check_distro(&info).status, CheckStatus::Pass);
}

#[test]
fn invalid_config_fails() {
    let mut raw = defaults();
    raw.audio.source = "invalid".to_string();
    let (_config, check) =
        check_config(Some(ConfigSource::Parsed(raw)), &paths().config_file(), "/home/xa");
    assert_eq!(check.status, CheckStatus::Fail);
}

#[test]
fn missing_config_warns() {
    let (_config, check) = check_config(None, &paths().config_file(), "/home/xa");
    assert_eq!(check.status, CheckStatus::Warn);
}

#[test]
fn other_distributions_are_warned_of() {
    for (id, detail) in [
        ("ubuntu", "X is not the V1 supported distro (Linux Mint)"),
        ("arch", "X is a future target; V1 is Linux Mint only"),
        ("plan9", "unknown distribution (X)"),
    ] {
        let info = DistroInfo::from_os_release(&format!("ID={id}\nPRETTY_NAME=X\n"));
        let check = check_distro(&info);
        assert_eq!((check.status, check.detail.as_str()), (CheckStatus::Warn, detail));
    }
}

#[test]
fn free_space_has_two_thresholds() {
    let mb = 1024 * 1024;
    let config = Some(Config::default("/"));
    let low = check_disk(&Ok(1000 * mb), &config);
    assert_eq!(low.status, CheckStatus::Fail);
    assert_eq!(low.detail, "1000 MB free; minimum_free_space_mb is 1024");
    let near = check_disk(&Ok(2047 * mb), &config);
    assert_eq!(near.status, CheckStatus::Warn);
    assert_eq!(near.detail, "2047 MB free; below 2× threshold 1024 MB");
    let plenty = check_disk(&Ok(2048 * mb), &None);
    assert_eq!(plenty.status, CheckStatus::Pass);
    assert_eq!(plenty.detail, "2048 MB free (threshold 1024 MB)");
    assert_eq!(check_disk(&Err(AppError::other("?")), &None).status, CheckStatus::Fail);
}

#[test]
fn whisper_is_checked_only_where_it_is_used() {
    let mut config = Config::default("/");
    let voxtype = Some(config);
    assert_eq!(check_whisper(&voxtype, &Program::Missing).status, CheckStatus::Pass);
    assert_eq!(check_whisper_model(&voxtype, false).status, CheckStatus::Pass);
    assert_eq!(check_whisper(&None, &Program::Runnable).status, CheckStatus::Warn);
    assert_eq!(check_whisper_model(&None, true).status, CheckStatus::Warn);
    config = Config::default("/");
    config.transcription.provider = ProviderKind::WhisperCpp;
    config.transcription.whisper_cpp.executable = "/w".to_string();
    config.transcription.whisper_cpp.model = "/m".to_string();
    let whisper = Some(config);
    assert_eq!(check_whisper(&whisper, &Program::Missing).detail, "not found at /w");
    assert_eq!(check_whisper(&whisper, &Program::Runnable).detail, "/w");
    let refused = check_whisper(&whisper, &Program::NotRunnable);
    assert_eq!(refused.status, CheckStatus::Fail);
    assert_eq!(refused.detail, "/w exists but is not executable");
    assert_eq!(check_whisper(&whisper, &Program::Unknown("io".to_string())).detail, "io");
    assert_eq!(check_whisper_model(&whisper, true).detail, "/m");
    assert_eq!(check_whisper_model(&whisper, false).detail, "missing at /m");
}

#[test]
fn the_key_is_needed_only_for_the_removed_provider() {
    assert_eq!(check_openai(&None, true).detail, "OPENAI_API_KEY is set");
    assert_eq!(check_openai(&None, false).status, CheckStatus::Warn);
    assert_eq!(
        check_openai(&Some(Config::default("/")), false).detail,
        "not required for whisper_cpp"
    );
}

#[test]
fn outside_findings_become_checks() {
    assert_eq!(check_server_identity(&Ok("PipeWire".to_string())).detail, "PipeWire");
    assert_eq!(
        check_server_identity(&Err(AppError::audio("no"))).detail,
        "undetectable identity (no)"
    );
    let mic = AudioDevice {
        id: "m".to_string(),
        description: "M".to_string(),
        role: DeviceRole::Microphone,
    };
    assert_eq!(check_device("Default microphone", &Ok(mic)).detail, "m (M)");
    assert_eq!(
        check_device("Default microphone", &Err(AppError::audio("no"))).status,
        CheckStatus::Fail
    );
    assert_eq!(missing_device("Default microphone").detail, "missing");
    assert_eq!(check_data_dir("/d", &Ok(())).detail, "writable /d");
    assert_eq!(check_data_dir("/d", &Err("ro".to_string())).status, CheckStatus::Fail);
    assert_eq!(check_database("/d.db", &Ok(())).detail, "writable /d.db");
    assert_eq!(
        check_database("/d.db", &Err(AppError::Database("locked".to_string()))).detail,
        "database error: locked"
    );
    assert_eq!(check_systemd(&Ok(())).status, CheckStatus::Pass);
    assert_eq!(check_systemd(&Err(AppError::other("no"))).status, CheckStatus::Warn);
    assert_eq!(check_ui_runtime(&UiProbe::Works).status, CheckStatus::Pass);
    assert_eq!(
        check_ui_runtime(&UiProbe::Fails(b" no gi \n".to_vec())).detail,
        "GTK 3 / XApp import failed: no gi"
    );
    assert_eq!(
        check_ui_runtime(&UiProbe::NoInterpreter("nope".to_string())).detail,
        "python3 is not available: nope"
    );
    assert_eq!(check_id("Database"), "database");
    assert_eq!(check_id("something"), "other");
}

fn facts(audio: voxtype_meeting_service::error::Result<AudioFacts>) -> Facts {
    Facts {
        audio,
        data_dir: Ok(()),
        database: Ok(()),
        free_bytes: Ok(1 << 40),
        systemd: Ok(()),
        openai_key_is_set: false,
        whisper: Program::Missing,
        whisper_model_is_file: false,
        ui: UiProbe::Works,
    }
}

#[test]
fn a_report_on_all_checks() {
    let distro = DistroInfo::from_os_release("ID=linuxmint\nPRETTY_NAME=\"Linux Mint 22.3\"\n");
    let down = facts(Err(AppError::audio("no server")));
    let checks = collect_checks(&paths(), &distro, None, &down);
    assert_eq!(checks.len(), 15);
    let text = report(&distro, &checks);
    assert!(text.starts_with("Distribution: Linux Mint 22.3\nLinux distribution           PASS  Linux Mint 22.3\n"));
    assert!(text.contains("PulseAudio connectivity      FAIL  no server\n"));
    assert_eq!(
        verdict(&checks).unwrap_err().to_string(),
        "doctor found one or more FAIL checks"
    );
    let mic = AudioDevice {
        id: "m".to_string(),
        description: String::new(),
        role: DeviceRole::Microphone,
    };
    let up = facts(Ok(AudioFacts {
        identity: Ok("PipeWire".to_string()),
        microphone: Ok(mic.clone()),
        output_sink: Ok(mic.clone()),
        output_monitor: Ok(mic),
    }));
    let checks = collect_checks(&paths(), &distro, None, &up);
    assert!(verdict(&checks).is_ok());
    assert_eq!(diagnostics_payload(&checks).len(), 15);
}

#[test]
fn starting_the_unit() {
    assert_eq!(unit_is_active(Some(&b"active\n".to_vec())), Some(true));
    assert_eq!(unit_is_active(Some(&b"inactive\n".to_vec())), Some(false));
    assert_eq!(unit_is_active(None), None);
    assert!(unit_exists(Some(true)) && !unit_exists(Some(false)) && !unit_exists(None));
    let running = start_step(&StartEvent::Active(Some(true))).unwrap();
    assert_eq!(running.message().as_deref(), Some("Service already running."));
    assert_eq!(start_step(&StartEvent::Active(None)).unwrap(), StartAction::AskInstalled);
    assert_eq!(start_step(&StartEvent::Installed(true)).unwrap(), StartAction::Run);
    let error = start_step(&StartEvent::Installed(false)).unwrap_err();
    assert!(error.to_string().contains("is not installed. Copy systemd/"), "{error:?}");
    let started = start_step(&StartEvent::Ran { success: true, stderr: vec![] }).unwrap();
    assert_eq!(started.message(), Some(format!("Started {UNIT}.")));
    let failed = StartEvent::Ran { success: false, stderr: b" boom \n".to_vec() };
    assert_eq!(
        start_step(&failed).unwrap_err().to_string(),
        "systemctl --user start voxtype-meeting-service.service failed: boom"
    );
    assert_eq!(
        systemctl_error(&vec!["cat".to_string(), UNIT.to_string()], "no").to_string(),
        "could not run systemctl --user cat voxtype-meeting-service.service: no"
    );
}

#[test]
fn stopping_the_unit() {
    let asked = |answered, socket_exists| StopEvent::Asked { answered, socket_exists };
    assert_eq!(stop_step(&asked(true, true)).unwrap(), StopAction::WaitAndSay);
    assert_eq!(stop_step(&asked(false, true)).unwrap(), StopAction::AskActive { warn: true });
    assert_eq!(stop_step(&asked(false, false)).unwrap(), StopAction::AskActive { warn: false });
    assert_eq!(stop_step(&StopEvent::Active(Some(true))).unwrap(), StopAction::Run);
    assert_eq!(stop_step(&StopEvent::Active(Some(false))).unwrap(), StopAction::SayNotRunning);
    let ran = StopEvent::Ran { success: false, stderr: b"busy".to_vec() };
    assert_eq!(
        stop_step(&ran).unwrap_err().to_string(),
        "systemctl --user stop voxtype-meeting-service.service failed: busy"
    );
    assert!(status_answer(None).unwrap().is_none());
    assert_eq!(
        status_answer(Some(Response::error("nope"))).unwrap_err().to_string(),
        "nope"
    );
    assert!(status_answer(Some(Response::stop())).unwrap().is_none());
    assert_eq!(status_report(Some(true), None), "Service: running\nNo active session.\n");
    assert_eq!(status_report(None, None), "Service: stopped\nNo active session.\n");
}
