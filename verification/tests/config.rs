//! Settings.

use voxtype_meeting_service::config::{
    apply_patch, check_whisper_files, escape_toml, normalize_languages, to_toml, validation_field,
    whisper_cli_language, AudioPatch, CaptureSource, Config, ConfigPatch, ConfigSource,
    GeneralPatch, ProviderKind, RawConfig, TranscriptionPatch, WhisperPatch, DEFAULT_CONFIG_TOML,
};
use voxtype_meeting_service::error::Result;

fn defaults() -> RawConfig {
    RawConfig {
        general: Default::default(),
        audio: Default::default(),
        transcription: Default::default(),
        transcript: Default::default(),
    }
}

fn text(table: Option<&toml::Value>, key: &str, into: &mut String) {
    if let Some(value) = table.and_then(|t| t.get(key)) {
        *into = value.as_str().unwrap().to_string();
    }
}

fn flag(table: Option<&toml::Value>, key: &str, into: &mut bool) {
    if let Some(value) = table.and_then(|t| t.get(key)) {
        *into = value.as_bool().unwrap();
    }
}

fn number(table: Option<&toml::Value>, key: &str) -> Option<i64> {
    table.and_then(|t| t.get(key)).map(|value| value.as_integer().unwrap())
}

fn raw(contents: &str) -> RawConfig {
    let file: toml::Value = toml::from_str(contents).unwrap();
    let mut raw = defaults();
    if let Some(mb) = number(file.get("general"), "minimum_free_space_mb") {
        raw.general.minimum_free_space_mb = mb as u64;
    }
    let audio = file.get("audio");
    text(audio, "microphone", &mut raw.audio.microphone);
    text(audio, "system_output", &mut raw.audio.system_output);
    text(audio, "source", &mut raw.audio.source);
    flag(audio, "retain_audio", &mut raw.audio.retain_audio);
    let transcription = file.get("transcription");
    text(transcription, "provider", &mut raw.transcription.provider);
    text(transcription, "model", &mut raw.transcription.model);
    if let Some(jobs) = number(transcription, "max_concurrent_jobs") {
        raw.transcription.max_concurrent_jobs = jobs as u32;
    }
    if let Some(languages) = transcription.and_then(|t| t.get("languages")) {
        raw.transcription.languages = Some(
            languages
                .as_array()
                .unwrap()
                .iter()
                .map(|code| code.as_str().unwrap().to_string())
                .collect(),
        );
    }
    let whisper = transcription.and_then(|t| t.get("whisper_cpp"));
    text(whisper, "executable", &mut raw.transcription.whisper_cpp.executable);
    text(whisper, "model", &mut raw.transcription.whisper_cpp.model);
    flag(
        file.get("transcript"),
        "omit_single_source_headers",
        &mut raw.transcript.omit_single_source_headers,
    );
    raw
}

fn parse_toml_with_home(contents: &str, home: &str) -> Result<Config> {
    raw(contents).into_config(home)
}

#[test]
fn parse_default_toml() {
    let config = parse_toml_with_home(DEFAULT_CONFIG_TOML, "/home/xa").expect("default");
    assert_eq!(config.general.minimum_free_space_mb, 1024);
    assert_eq!(config.audio.microphone, "default");
    assert_eq!(config.audio.system_output, "default");
    assert_eq!(config.audio.source, CaptureSource::Both);
    assert!(!config.audio.retain_audio);
    assert_eq!(config.transcription.provider, ProviderKind::Voxtype);
    assert_eq!(config.transcription.model, "configured");
    assert_eq!(config.transcription.max_concurrent_jobs, 1);
    assert!(config.transcription.languages.is_empty());
    assert!(config.transcript.omit_single_source_headers);
    assert_eq!(
        config.transcription.whisper_cpp.executable,
        "/usr/local/bin/whisper-cli"
    );
    assert_eq!(
        config.transcription.whisper_cpp.model,
        "/home/xa/.local/share/voxtype-meeting-service/models/ggml-large-v3-turbo.bin"
    );
}

#[test]
fn reject_invalid_source() {
    let toml = r#"
[audio]
source = "mixed"
"#;
    let error = parse_toml_with_home(toml, "/home/xa").unwrap_err();
    assert!(error.to_string().contains("invalid audio.source 'mixed'"), "{error:?}");
}

#[test]
fn reject_provider() {
    let toml = r#"
[transcription]
provider = "foo"
"#;
    let error = parse_toml_with_home(toml, "/home/xa").unwrap_err();
    assert!(
        error
            .to_string()
            .contains("invalid transcription.provider 'foo'; expected voxtype or whisper_cpp"),
        "{error:?}"
    );
}

#[test]
fn expand_tilde() {
    let toml = r#"
[transcription]
provider = "whisper_cpp"

[transcription.whisper_cpp]
executable = "~/bin/whisper-cli"
model = "~/models/x.bin"
"#;
    let config = parse_toml_with_home(toml, "/home/xa").expect("parse");
    assert_eq!(config.transcription.whisper_cpp.executable, "/home/xa/bin/whisper-cli");
    assert_eq!(config.transcription.whisper_cpp.model, "/home/xa/models/x.bin");
}

#[test]
fn reject_removed_openai_provider() {
    let toml = r#"
[transcription]
provider = "openai"
"#;
    let error = parse_toml_with_home(toml, "/home/xa").unwrap_err();
    assert!(
        error.to_string().contains("OpenAI remote provider has been removed"),
        "{error:?}"
    );
    assert_eq!(ProviderKind::parse_stored("openai").unwrap(), ProviderKind::Openai);
}

#[test]
fn languages_auto_is_empty() {
    let toml = r#"
[transcription]
languages = ["auto"]
"#;
    let config = parse_toml_with_home(toml, "/home/xa").expect("parse");
    assert!(config.transcription.languages.is_empty());
}

#[test]
fn whisper_rejects_multiple_languages() {
    let toml = r#"
[transcription]
provider = "whisper_cpp"
languages = ["fr", "en"]
"#;
    let error = parse_toml_with_home(toml, "/home/xa").unwrap_err();
    assert!(
        error.to_string().contains("whisper.cpp accepts at most one language"),
        "{error:?}"
    );
}

#[test]
fn whisper_accepts_single_language() {
    let toml = r#"
[transcription]
provider = "whisper_cpp"
languages = ["FR"]
"#;
    let config = parse_toml_with_home(toml, "/home/xa").expect("parse");
    assert_eq!(config.transcription.languages, vec!["fr"]);
    assert_eq!(whisper_cli_language(&config.transcription.languages).unwrap(), "fr");
}

#[test]
fn empty_languages_array_is_auto() {
    let toml = r#"
[transcription]
languages = []
"#;
    let config = parse_toml_with_home(toml, "/home/xa").expect("parse");
    assert!(config.transcription.languages.is_empty());
    assert_eq!(whisper_cli_language(&config.transcription.languages).unwrap(), "auto");
}

#[test]
fn reject_mixed_auto_and_codes() {
    let toml = r#"
[transcription]
languages = ["auto", "fr"]
"#;
    let error = parse_toml_with_home(toml, "/home/xa").unwrap_err();
    assert!(error.to_string().contains("cannot be mixed"), "{error:?}");
}

#[test]
fn reject_invalid_language_code() {
    let toml = r#"
[transcription]
languages = ["fr/en"]
"#;
    let error = parse_toml_with_home(toml, "/home/xa").unwrap_err();
    assert!(error.to_string().contains("invalid language code"), "{error:?}");
}

#[test]
fn omit_single_source_headers_can_be_disabled() {
    let toml = r#"
[transcript]
omit_single_source_headers = false
"#;
    let config = parse_toml_with_home(toml, "/home/xa").expect("parse");
    assert!(!config.transcript.omit_single_source_headers);
}

#[test]
fn apply_patch_rejects_jobs_outside_range() {
    let base = Config::default("/home/xa");
    let patch = ConfigPatch {
        transcription: Some(TranscriptionPatch {
            max_concurrent_jobs: Some(9),
            ..Default::default()
        }),
        ..Default::default()
    };
    let error = apply_patch(&base, patch, "/home/xa").unwrap_err();
    assert!(error.to_string().contains("max_concurrent_jobs"));
    assert_eq!(
        validation_field(&error.to_string()),
        Some("transcription.max_concurrent_jobs")
    );
}

#[test]
fn apply_patch_keeps_languages_when_omitted() {
    let mut base = Config::default("/home/xa");
    base.transcription.languages = vec!["fr".to_string()];
    base.transcript.omit_single_source_headers = false;
    let patch = ConfigPatch {
        audio: Some(AudioPatch {
            microphone: Some("hw:1".to_string()),
            system_output: None,
            source: None,
            retain_audio: None,
        }),
        ..Default::default()
    };
    let next = apply_patch(&base, patch, "/home/xa").unwrap();
    assert_eq!(next.audio.microphone, "hw:1");
    assert_eq!(next.transcription.languages, vec!["fr"]);
    assert!(!next.transcript.omit_single_source_headers);
}

#[test]
fn the_default_file_holds_the_built_in_settings() {
    assert_eq!(
        parse_toml_with_home(DEFAULT_CONFIG_TOML, "/home/xa").unwrap(),
        Config::default("/home/xa")
    );
    assert_eq!(raw("").into_config("/home/xa").unwrap(), Config::default("/home/xa"));
}

#[test]
fn written_settings_are_read_back() {
    let mut config = Config::default("/home/xa");
    config.general.minimum_free_space_mb = 777;
    config.audio.microphone = "a \"quoted\" \\ name".to_string();
    config.audio.source = CaptureSource::System;
    config.audio.retain_audio = true;
    config.transcription.model = "small".to_string();
    config.transcription.max_concurrent_jobs = 3;
    config.transcription.languages = vec!["fr".to_string(), "pt-br".to_string()];
    config.transcription.whisper_cpp.executable = "/opt/whisper".to_string();
    config.transcript.omit_single_source_headers = false;
    assert_eq!(parse_toml_with_home(&to_toml(&config), "/home/xa").unwrap(), config);
    assert_eq!(escape_toml("a\"b\\c"), "a\\\"b\\\\c");
}

#[test]
fn settings_are_written_section_by_section() {
    let mut config = Config::default("/home/xa");
    config.audio.system_output = "tab\there".to_string();
    config.transcription.languages = vec!["fr".to_string(), "en".to_string()];
    let text = to_toml(&config);
    assert_eq!(
        text,
        "# Voxtype Meeting Service configuration\n\
         # See docs/architecture.md for the full schema.\n\
         \n\
         [general]\n\
         minimum_free_space_mb = 1024\n\
         \n\
         [audio]\n\
         microphone = \"default\"\n\
         system_output = \"tab\there\"\n\
         source = \"both\"\n\
         retain_audio = false\n\
         \n\
         [transcription]\n\
         provider = \"voxtype\"\n\
         model = \"configured\"\n\
         max_concurrent_jobs = 1\n\
         languages = [\"fr\", \"en\"]\n\
         \n\
         [transcription.whisper_cpp]\n\
         executable = \"/usr/local/bin/whisper-cli\"\n\
         model = \"/home/xa/.local/share/voxtype-meeting-service/models/ggml-large-v3-turbo.bin\"\n\
         \n\
         [transcript]\n\
         omit_single_source_headers = true\n"
    );
    assert_eq!(parse_toml_with_home(&text, "/home/xa").unwrap(), config);
    config.transcription.languages = Vec::new();
    let text = to_toml(&config);
    assert!(!text.contains("languages"));
    assert_eq!(parse_toml_with_home(&text, "/home/xa").unwrap(), config);
    config.general.minimum_free_space_mb = i64::MAX as u64;
    assert_eq!(parse_toml_with_home(&to_toml(&config), "/home/xa").unwrap(), config);
    config.general.minimum_free_space_mb = i64::MAX as u64 + 1;
    assert!(to_toml(&config).parse::<toml::Value>().is_err());
    config.general.minimum_free_space_mb = 1;
    config.audio.microphone = "two\nlines".to_string();
    assert!(to_toml(&config).parse::<toml::Value>().is_err());
}

#[test]
fn zero_limits_are_refused() {
    let mut zero = raw("");
    zero.general.minimum_free_space_mb = 0;
    assert_eq!(
        zero.into_config("/").unwrap_err().to_string(),
        "minimum_free_space_mb must be greater than 0"
    );
    let mut zero = raw("");
    zero.transcription.max_concurrent_jobs = 0;
    assert_eq!(
        zero.into_config("/").unwrap_err().to_string(),
        "max_concurrent_jobs must be greater than 0"
    );
}

#[test]
fn configuration_files_that_fail() {
    let path = "/c/config.toml";
    let unreadable = ConfigSource::Unreadable("denied".to_string());
    assert_eq!(
        Config::load(unreadable, path, "/home/xa").unwrap_err().to_string(),
        "could not read configuration file /c/config.toml: denied"
    );
    let unparsable = ConfigSource::Unparsable("bad".to_string());
    assert_eq!(
        Config::load(unparsable, path, "/home/xa").unwrap_err().to_string(),
        "invalid configuration file /c/config.toml: could not parse configuration TOML: bad"
    );
    let mut bad = raw("");
    bad.transcription.provider = "foo".to_string();
    assert_eq!(
        Config::load(ConfigSource::Parsed(bad), path, "/home/xa").unwrap_err().to_string(),
        "invalid configuration file /c/config.toml: invalid transcription.provider 'foo'; expected voxtype or whisper_cpp"
    );
    assert_eq!(
        Config::load_or_default(None, path, "/home/xa").unwrap(),
        Config::default("/home/xa")
    );
    assert!(Config::load_or_default(Some(ConfigSource::Parsed(raw(""))), path, "/").is_ok());
}

fn patch_error(patch: ConfigPatch) -> String {
    apply_patch(&Config::default("/home/xa"), patch, "/home/xa").unwrap_err().to_string()
}

#[test]
fn patches_that_are_refused() {
    let little = ConfigPatch {
        general: Some(GeneralPatch { minimum_free_space_mb: Some(255) }),
        ..Default::default()
    };
    assert_eq!(patch_error(little), "minimum_free_space_mb must be at least 256");
    let blank = ConfigPatch {
        transcription: Some(TranscriptionPatch {
            model: Some("  ".to_string()),
            ..Default::default()
        }),
        ..Default::default()
    };
    assert_eq!(patch_error(blank), "model must not be empty");
    let source = ConfigPatch {
        audio: Some(AudioPatch { source: Some("mixed".to_string()), ..Default::default() }),
        ..Default::default()
    };
    assert!(patch_error(source).contains("invalid audio.source 'mixed'"));
    assert_eq!(
        validation_field("whisper-cli was not found at /x"),
        Some("transcription.whisper_cpp.executable")
    );
    assert_eq!(
        validation_field("whisper.cpp model was not found at /x"),
        Some("transcription.whisper_cpp.model")
    );
    assert_eq!(
        validation_field("minimum_free_space_mb must be at least 256"),
        Some("general.minimum_free_space_mb")
    );
    assert_eq!(validation_field("model must not be empty"), Some("transcription.model"));
    assert_eq!(validation_field("invalid transcription.provider"), Some("transcription.provider"));
    assert_eq!(validation_field("something else"), None);
}

#[test]
fn an_empty_patch_changes_nothing() {
    let base = Config::default("/home/xa");
    assert_eq!(apply_patch(&base, ConfigPatch::default(), "/home/xa").unwrap(), base);
}

#[test]
fn whisper_needs_its_files() {
    let patch = ConfigPatch {
        transcription: Some(TranscriptionPatch {
            provider: Some("whisper_cpp".to_string()),
            whisper_cpp: Some(WhisperPatch {
                executable: Some("~/w".to_string()),
                model: Some("/m".to_string()),
            }),
            ..Default::default()
        }),
        ..Default::default()
    };
    let config = apply_patch(&Config::default("/home/xa"), patch, "/home/xa").unwrap();
    assert_eq!(
        check_whisper_files(&config, false, true).unwrap_err().to_string(),
        "whisper-cli was not found at /home/xa/w"
    );
    assert_eq!(
        check_whisper_files(&config, true, false).unwrap_err().to_string(),
        "whisper.cpp model was not found at /m"
    );
    assert!(check_whisper_files(&config, true, true).is_ok());
    assert!(check_whisper_files(&Config::default("/"), false, false).is_ok());
    assert_eq!(config.model_for_provider(ProviderKind::WhisperCpp), "/m");
    assert_eq!(config.model_for_provider(ProviderKind::Voxtype), "configured");
}

#[test]
fn languages_are_brought_into_form() {
    let codes = normalize_languages(Some(vec![" EN ".to_string(), "Fr".to_string()])).unwrap();
    assert_eq!(codes, vec!["en", "fr"]);
    assert!(normalize_languages(None).unwrap().is_empty());
    assert_eq!(normalize_languages(Some(codes.clone())).unwrap(), codes);
    assert_eq!(ProviderKind::parse("whisper_cpp").unwrap().as_str(), "whisper_cpp");
    assert!(CaptureSource::Mic.includes_mic() && !CaptureSource::Mic.includes_system());
    assert_eq!(CaptureSource::parse("system").unwrap().as_str(), "system");
}
