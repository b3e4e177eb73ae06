//! Checks of the installation.

use crate::audio::AudioDevice;
use crate::config::{default_settings, Config, ConfigSource, ProviderKind, Settings};
use crate::distro::{DistroInfo, LinuxDistribution};
use crate::error::{fails, shown, AppError, ErrorKind, Result};
use crate::paths::PathResolver;
use crate::text;
use crate::tree::{fields_model, items_model, object_value, put, text_value, Tree, TreeModel};
use vstd::prelude::*;

verus! {

#[derive(Clone, Copy, Debug, PartialEq, Eq, Structural)]
pub enum CheckStatus {
    Pass,
    Warn,
    Fail,
}

impl CheckStatus {
    pub open spec fn text(self) -> Seq<char> {
        match self {
            CheckStatus::Pass => "PASS"@,
            CheckStatus::Warn => "WARN"@,
            CheckStatus::Fail => "FAIL"@,
        }
    }

    pub fn label(self) -> (r: &'static str)
        ensures
            r@ == self.text(),
    {
        match self {
            CheckStatus::Pass => "PASS",
            CheckStatus::Warn => "WARN",
            CheckStatus::Fail => "FAIL",
        }
    }
}

/// What was checked and what came of it.
#[derive(Debug)]
pub struct Check {
    pub name: &'static str,
    pub status: CheckStatus,
    pub detail: String,
}

/// The name of a check, what came of it and why.
pub type Finding = (Seq<char>, CheckStatus, Seq<char>);

impl View for Check {
    type V = Finding;

    open spec fn view(&self) -> Finding {
        (self.name@, self.status, self.detail@)
    }
}

fn check(name: &'static str, status: CheckStatus, detail: &str) -> (r: Check)
    ensures
        r@ == (name@, status, detail@),
{
    Check { name, status, detail: detail.to_owned() }
}

/// The identifier of a check.
pub open spec fn id_of(name: Seq<char>) -> Seq<char> {
    if name == "PulseAudio connectivity"@ {
        "audio_server"@
    } else if name == "Default microphone"@ {
        "microphone"@
    } else if name == "Default output sink"@ {
        "system_output"@
    } else if name == "Default output monitor"@ {
        "system_monitor"@
    } else if name == "OpenAI API key"@ {
        "openai"@
    } else if name == "whisper-cli"@ {
        "whisper_cpp"@
    } else if name == "whisper model"@ {
        "local_model"@
    } else if name == "Database"@ {
        "database"@
    } else if name == "Data directory"@ {
        "data_directory"@
    } else if name == "Free disk space"@ {
        "free_disk"@
    } else if name == "Desktop UI runtime"@ {
        "ui_runtime"@
    } else if name == "systemd user session"@ {
        "systemd"@
    } else if name == "Linux distribution"@ {
        "distribution"@
    } else if name == "Configuration"@ {
        "configuration"@
    } else if name == "Audio server identity"@ {
        "audio_server_identity"@
    } else {
        "other"@
    }
}

pub fn check_id(name: &str) -> (r: &'static str)
    ensures
        r@ == id_of(name@),
{
    if text::same(name, "PulseAudio connectivity") {
        "audio_server"
    } else if text::same(name, "Default microphone") {
        "microphone"
    } else if text::same(name, "Default output sink") {
        "system_output"
    } else if text::same(name, "Default output monitor") {
        "system_monitor"
    } else if text::same(name, "OpenAI API key") {
        "openai"
    } else if text::same(name, "whisper-cli") {
        "whisper_cpp"
    } else if text::same(name, "whisper model") {
        "local_model"
    } else if text::same(name, "Database") {
        "database"
    } else if text::same(name, "Data directory") {
        "data_directory"
    } else if text::same(name, "Free disk space") {
        "free_disk"
    } else if text::same(name, "Desktop UI runtime") {
        "ui_runtime"
    } else if text::same(name, "systemd user session") {
        "systemd"
    } else if text::same(name, "Linux distribution") {
        "distribution"
    } else if text::same(name, "Configuration") {
        "configuration"
    } else if text::same(name, "Audio server identity") {
        "audio_server_identity"
    } else {
        "other"
    }
}

/// A check as a tree.
pub open spec fn check_model(
    id: Seq<char>,
    name: Seq<char>,
    status: CheckStatus,
    detail: Seq<char>,
) -> TreeModel {
    TreeModel::Object(
        seq![
            ("id"@, TreeModel::Text(id)),
            ("name"@, TreeModel::Text(name)),
            ("status"@, TreeModel::Text(status.text())),
            ("detail"@, TreeModel::Text(detail)),
        ],
    )
}

pub fn check_tree(id: &str, name: &str, status: CheckStatus, detail: &str) -> (r: Tree)
    ensures
        r@ == check_model(id@, name@, status, detail@),
{
    let mut f: Vec<(String, Tree)> = Vec::new();
    put(&mut f, "id", text_value(id));
    put(&mut f, "name", text_value(name));
    put(&mut f, "status", text_value(status.label()));
    put(&mut f, "detail", text_value(detail));
    assert(fields_model(f@) =~= check_model(id@, name@, status, detail@)->Object_0);
    object_value(f)
}

pub open spec fn check_models(checks: Seq<Check>) -> Seq<TreeModel> {
    Seq::new(
        checks.len(),
        |i: int|
            check_model(
                id_of(checks[i].name@),
                checks[i].name@,
                checks[i].status,
                checks[i].detail@,
            ),
    )
}

/// The checks as the desktop shows them.
pub fn diagnostics_payload(checks: &Vec<Check>) -> (r: Vec<Tree>)
    ensures
        items_model(r@) == check_models(checks@),
{
    let mut items: Vec<Tree> = Vec::new();
    let mut i: usize = 0;
    while i < checks.len()
        invariant
            i <= checks@.len(),
            items_model(items@) =~= check_models(checks@).take(i as int),
        decreases checks.len() - i,
    {
        let c = &checks[i];
        let ghost before = items_model(items@);
        items.push(check_tree(check_id(c.name), c.name, c.status, c.detail.as_str()));
        i += 1;
        assert(items_model(items@) =~= before.push(check_models(checks@)[i - 1]));
    }
    assert(check_models(checks@).take(i as int) =~= check_models(checks@));
    items
}

/// The distribution that is supported passes; others get a warning.
pub open spec fn distro_finding(distro: DistroInfo) -> Finding {
    let name = distro.shown_name();
    match distro.distribution {
        LinuxDistribution::LinuxMint => ("Linux distribution"@, CheckStatus::Pass, name),
        LinuxDistribution::Ubuntu | LinuxDistribution::Debian => (
            "Linux distribution"@,
            CheckStatus::Warn,
            name + " is not the V1 supported distro (Linux Mint)"@,
        ),
        LinuxDistribution::Arch => (
            "Linux distribution"@,
            CheckStatus::Warn,
            name + " is a future target; V1 is Linux Mint only"@,
        ),
        LinuxDistribution::Unknown => (
            "Linux distribution"@,
            CheckStatus::Warn,
            "unknown distribution ("@ + name + ")"@,
        ),
    }
}

pub fn check_distro(distro: &DistroInfo) -> (r: Check)
    ensures
        r@ == distro_finding(*distro),
{
    let name = distro.pretty_name();
    match distro.distribution {
        LinuxDistribution::LinuxMint => check("Linux distribution", CheckStatus::Pass, name),
        LinuxDistribution::Ubuntu | LinuxDistribution::Debian => {
            let detail = text::concat2(name, " is not the V1 supported distro (Linux Mint)");
            check("Linux distribution", CheckStatus::Warn, detail.as_str())
        },
        LinuxDistribution::Arch => {
            let detail = text::concat2(name, " is a future target; V1 is Linux Mint only");
            check("Linux distribution", CheckStatus::Warn, detail.as_str())
        },
        LinuxDistribution::Unknown => {
            let detail = text::concat3("unknown distribution (", name, ")");
            check("Linux distribution", CheckStatus::Warn, detail.as_str())
        },
    }
}

/// What is found of the configuration file at `path`.
pub open spec fn config_finding(path: Seq<char>, source: Option<ConfigSource>) -> Finding {
    match source {
        None => (
            "Configuration"@,
            CheckStatus::Warn,
            "config.toml missing; using built-in defaults"@,
        ),
        Some(source) => match source.error(path) {
            Some(message) => (
                "Configuration"@,
                CheckStatus::Fail,
                shown((ErrorKind::Config, message)),
            ),
            None => ("Configuration"@, CheckStatus::Pass, path),
        },
    }
}

/// The settings that hold, where the configuration file is not refused.
pub open spec fn config_found(
    path: Seq<char>,
    source: Option<ConfigSource>,
    home: Seq<char>,
) -> Option<Settings> {
    match source {
        None => Some(default_settings(home)),
        Some(source) => match source {
            ConfigSource::Parsed(raw) => if raw.error() is None {
                Some(raw.settings(home))
            } else {
                None
            },
            _ => None,
        },
    }
}

/// The settings of a configuration, where there is one.
pub open spec fn settings_of(config: Option<Config>) -> Option<Settings> {
    match config {
        Some(c) => Some(c@),
        None => None,
    }
}

/// The settings of the configuration file at `path`, where there is one, or the built-in
/// ones, and what is found of them.
pub fn check_config(source: Option<ConfigSource>, path: &str, home: &str) -> (r: (
    Option<Config>,
    Check,
))
    ensures
        settings_of(r.0) == config_found(path@, source, home@),
        r.1@ == config_finding(path@, source),
{
    match source {
        None => (
            Some(Config::default(home)),
            check(
                "Configuration",
                CheckStatus::Warn,
                "config.toml missing; using built-in defaults",
            ),
        ),
        Some(source) => match Config::load(source, path, home) {
            Ok(config) => (Some(config), check("Configuration", CheckStatus::Pass, path)),
            Err(e) => {
                let detail = e.to_string();
                (None, check("Configuration", CheckStatus::Fail, detail.as_str()))
            },
        },
    }
}

/// What is found of the name of the audio server.
pub open spec fn identity_finding(identity: Result<String>) -> Finding {
    match identity {
        Ok(name) => ("Audio server identity"@, CheckStatus::Pass, name@),
        Err(e) => (
            "Audio server identity"@,
            CheckStatus::Warn,
            "undetectable identity ("@ + shown(e@) + ")"@,
        ),
    }
}

pub fn check_server_identity(identity: &Result<String>) -> (r: Check)
    ensures
        r@ == identity_finding(*identity),
{
    match identity {
        Ok(name) => check("Audio server identity", CheckStatus::Pass, name.as_str()),
        Err(e) => {
            let reason = e.to_string();
            let detail = text::concat3("undetectable identity (", reason.as_str(), ")");
            check("Audio server identity", CheckStatus::Warn, detail.as_str())
        },
    }
}

/// What is found of a device.
pub open spec fn device_finding(name: Seq<char>, device: Result<AudioDevice>) -> Finding {
    match device {
        Ok(device) => (name, CheckStatus::Pass, device.summary_text()),
        Err(e) => (name, CheckStatus::Fail, shown(e@)),
    }
}

pub fn check_device(name: &'static str, result: &Result<AudioDevice>) -> (r: Check)
    ensures
        r@ == device_finding(name@, *result),
{
    match result {
        Ok(device) => {
            let detail = device.summary();
            check(name, CheckStatus::Pass, detail.as_str())
        },
        Err(e) => {
            let detail = e.to_string();
            check(name, CheckStatus::Fail, detail.as_str())
        },
    }
}

pub fn missing_device(name: &'static str) -> (r: Check)
    ensures
        r@ == (name@, CheckStatus::Fail, "missing"@),
{
    check(name, CheckStatus::Fail, "missing")
}

/// What is found of the data directory. `probe` is what came of writing to it.
pub open spec fn data_dir_finding(
    dir: Seq<char>,
    probe: std::result::Result<(), String>,
) -> Finding {
    match probe {
        Ok(_) => ("Data directory"@, CheckStatus::Pass, "writable "@ + dir),
        Err(reason) => ("Data directory"@, CheckStatus::Fail, reason@),
    }
}

pub fn check_data_dir(dir: &str, probe: &std::result::Result<(), String>) -> (r: Check)
    ensures
        r@ == data_dir_finding(dir@, *probe),
{
    match probe {
        Ok(_) => {
            let detail = text::concat2("writable ", dir);
            check("Data directory", CheckStatus::Pass, detail.as_str())
        },
        Err(reason) => check("Data directory", CheckStatus::Fail, reason.as_str()),
    }
}

/// What is found of the database. `probe` is what came of opening and writing to it.
pub open spec fn database_finding(path: Seq<char>, probe: Result<()>) -> Finding {
    match probe {
        Ok(_) => ("Database"@, CheckStatus::Pass, "writable "@ + path),
        Err(e) => ("Database"@, CheckStatus::Fail, shown(e@)),
    }
}

pub fn check_database(path: &str, probe: &Result<()>) -> (r: Check)
    ensures
        r@ == database_finding(path@, *probe),
{
    match probe {
        Ok(_) => {
            let detail = text::concat2("writable ", path);
            check("Database", CheckStatus::Pass, detail.as_str())
        },
        Err(e) => {
            let detail = e.to_string();
            check("Database", CheckStatus::Fail, detail.as_str())
        },
    }
}

/// How much space has to be free, in megabytes.
pub open spec fn least_space(settings: Option<Settings>) -> u64 {
    match settings {
        Some(s) => s.minimum_free_space_mb,
        None => 1024,
    }
}

/// What is found of the space that is free: less than the least fails, less than twice
/// the least gets a warning.
pub open spec fn disk_finding(free: Result<u64>, settings: Option<Settings>) -> Finding {
    let least = least_space(settings);
    match free {
        Err(e) => ("Free disk space"@, CheckStatus::Fail, shown(e@)),
        Ok(bytes) => {
            let mb = bytes as nat / 1_048_576;
            if mb < least {
                (
                    "Free disk space"@,
                    CheckStatus::Fail,
                    text::decimal(mb) + " MB free; minimum_free_space_mb is "@ + text::decimal(
                        least as nat,
                    ),
                )
            } else if mb < 2 * least {
                (
                    "Free disk space"@,
                    CheckStatus::Warn,
                    text::decimal(mb) + " MB free; below 2× threshold "@ + text::decimal(
                        least as nat,
                    ) + " MB"@,
                )
            } else {
                (
                    "Free disk space"@,
                    CheckStatus::Pass,
                    text::decimal(mb) + " MB free (threshold "@ + text::decimal(least as nat)
                        + " MB)"@,
                )
            }
        },
    }
}

pub fn check_disk(free: &Result<u64>, config: &Option<Config>) -> (r: Check)
    ensures
        r@ == disk_finding(*free, settings_of(*config)),
{
    let least = match config {
        Some(c) => c.general.minimum_free_space_mb,
        None => 1024,
    };
    match free {
        Err(e) => {
            let detail = e.to_string();
            check("Free disk space", CheckStatus::Fail, detail.as_str())
        },
        Ok(bytes) => {
            let mb: u64 = *bytes / 1_048_576;
            let have = text::decimal_of(mb);
            let want = text::decimal_of(least);
            if mb < least {
                let detail = text::concat3(
                    have.as_str(),
                    " MB free; minimum_free_space_mb is ",
                    want.as_str(),
                );
                check("Free disk space", CheckStatus::Fail, detail.as_str())
            } else if mb - least < least {
                let detail = text::concat4(
                    have.as_str(),
                    " MB free; below 2× threshold ",
                    want.as_str(),
                    " MB",
                );
                check("Free disk space", CheckStatus::Warn, detail.as_str())
            } else {
                let detail = text::concat4(
                    have.as_str(),
                    " MB free (threshold ",
                    want.as_str(),
                    " MB)",
                );
                check("Free disk space", CheckStatus::Pass, detail.as_str())
            }
        },
    }
}

/// What is found of systemd. `answer` is what came of asking it for the service.
pub open spec fn systemd_finding(answer: Result<()>) -> Finding {
    match answer {
        Ok(_) => ("systemd user session"@, CheckStatus::Pass, "systemctl --user is available"@),
        Err(e) => ("systemd user session"@, CheckStatus::Warn, shown(e@)),
    }
}

pub fn check_systemd(answer: &Result<()>) -> (r: Check)
    ensures
        r@ == systemd_finding(*answer),
{
    match answer {
        Ok(_) => check("systemd user session", CheckStatus::Pass, "systemctl --user is available"),
        Err(e) => {
            let detail = e.to_string();
            check("systemd user session", CheckStatus::Warn, detail.as_str())
        },
    }
}

/// Whether the settings may need a key of the OpenAI service.
pub open spec fn may_need_key(settings: Option<Settings>) -> bool {
    match settings {
        Some(s) => s.provider == ProviderKind::Openai,
        None => true,
    }
}

/// What is found of the key of the OpenAI service.
pub open spec fn key_finding(settings: Option<Settings>, key_is_set: bool) -> Finding {
    if !may_need_key(settings) {
        ("OpenAI API key"@, CheckStatus::Pass, "not required for whisper_cpp"@)
    } else if key_is_set {
        ("OpenAI API key"@, CheckStatus::Pass, "OPENAI_API_KEY is set"@)
    } else {
        (
            "OpenAI API key"@,
            CheckStatus::Warn,
            "OPENAI_API_KEY is missing; capture still works, OpenAI jobs stay pending"@,
        )
    }
}

pub fn check_openai(config: &Option<Config>, key_is_set: bool) -> (r: Check)
    ensures
        r@ == key_finding(settings_of(*config), key_is_set),
{
    let needed = match config {
        Some(c) => c.transcription.provider == ProviderKind::Openai,
        None => true,
    };
    if !needed {
        check("OpenAI API key", CheckStatus::Pass, "not required for whisper_cpp")
    } else if key_is_set {
        check("OpenAI API key", CheckStatus::Pass, "OPENAI_API_KEY is set")
    } else {
        check(
            "OpenAI API key",
            CheckStatus::Warn,
            "OPENAI_API_KEY is missing; capture still works, OpenAI jobs stay pending",
        )
    }
}

/// What is known of a program.
#[derive(Debug)]
pub enum Program {
    Missing,
    Runnable,
    NotRunnable,
    /// Its file could not be looked at; why.
    Unknown(String),
}

/// What is found of the whisper.cpp program.
pub open spec fn whisper_finding(settings: Option<Settings>, program: Program) -> Finding {
    match settings {
        None => ("whisper-cli"@, CheckStatus::Warn, "configuration unavailable"@),
        Some(s) => if s.provider != ProviderKind::WhisperCpp {
            ("whisper-cli"@, CheckStatus::Pass, "N/A (provider is openai)"@)
        } else {
            match program {
                Program::Missing => (
                    "whisper-cli"@,
                    CheckStatus::Warn,
                    "not found at "@ + s.whisper_executable,
                ),
                Program::Runnable => ("whisper-cli"@, CheckStatus::Pass, s.whisper_executable),
                Program::NotRunnable => (
                    "whisper-cli"@,
                    CheckStatus::Fail,
                    s.whisper_executable + " exists but is not executable"@,
                ),
                Program::Unknown(reason) => ("whisper-cli"@, CheckStatus::Fail, reason@),
            }
        },
    }
}

pub fn check_whisper(config: &Option<Config>, program: &Program) -> (r: Check)
    ensures
        r@ == whisper_finding(settings_of(*config), *program),
{
    let config = match config {
        Some(c) => c,
        None => {
            return check("whisper-cli", CheckStatus::Warn, "configuration unavailable");
        },
    };
    if config.transcription.provider != ProviderKind::WhisperCpp {
        return check("whisper-cli", CheckStatus::Pass, "N/A (provider is openai)");
    }
    let path = config.transcription.whisper_cpp.executable.as_str();
    match program {
        Program::Missing => {
            let detail = text::concat2("not found at ", path);
            check("whisper-cli", CheckStatus::Warn, detail.as_str())
        },
        Program::Runnable => check("whisper-cli", CheckStatus::Pass, path),
        Program::NotRunnable => {
            let detail = text::concat2(path, " exists but is not executable");
            check("whisper-cli", CheckStatus::Fail, detail.as_str())
        },
        Program::Unknown(reason) => check("whisper-cli", CheckStatus::Fail, reason.as_str()),
    }
}

/// What is found of the whisper.cpp model.
pub open spec fn model_finding(settings: Option<Settings>, is_file: bool) -> Finding {
    match settings {
        None => ("whisper model"@, CheckStatus::Warn, "configuration unavailable"@),
        Some(s) => if s.provider != ProviderKind::WhisperCpp {
            ("whisper model"@, CheckStatus::Pass, "N/A (provider is openai)"@)
        } else if is_file {
            ("whisper model"@, CheckStatus::Pass, s.whisper_model)
        } else {
            ("whisper model"@, CheckStatus::Warn, "missing at "@ + s.whisper_model)
        },
    }
}

pub fn check_whisper_model(config: &Option<Config>, is_file: bool) -> (r: Check)
    ensures
        r@ == model_finding(settings_of(*config), is_file),
{
    let config = match config {
        Some(c) => c,
        None => {
            return check("whisper model", CheckStatus::Warn, "configuration unavailable");
        },
    };
    if config.transcription.provider != ProviderKind::WhisperCpp {
        return check("whisper model", CheckStatus::Pass, "N/A (provider is openai)");
    }
    let path = config.transcription.whisper_cpp.model.as_str();
    if is_file {
        check("whisper model", CheckStatus::Pass, path)
    } else {
        let detail = text::concat2("missing at ", path);
        check("whisper model", CheckStatus::Warn, detail.as_str())
    }
}

/// What came of loading the libraries of the desktop program.
#[derive(Debug)]
pub enum UiProbe {
    Works,
    /// The libraries are not there; what the interpreter wrote.
    Fails(Vec<u8>),
    /// The interpreter could not be run; why.
    NoInterpreter(String),
}

/// What is found of the libraries of the desktop program.
pub open spec fn ui_finding(probe: UiProbe) -> Finding {
    match probe {
        UiProbe::Works => (
            "Desktop UI runtime"@,
            CheckStatus::Pass,
            "python3, GTK 3, and XApp are available"@,
        ),
        UiProbe::Fails(stderr) => (
            "Desktop UI runtime"@,
            CheckStatus::Warn,
            "GTK 3 / XApp import failed: "@ + text::trimmed(text::lossy(stderr@)),
        ),
        UiProbe::NoInterpreter(reason) => (
            "Desktop UI runtime"@,
            CheckStatus::Warn,
            "python3 is not available: "@ + reason@,
        ),
    }
}

pub fn check_ui_runtime(probe: &UiProbe) -> (r: Check)
    ensures
        r@ == ui_finding(*probe),
{
    match probe {
        UiProbe::Works => check(
            "Desktop UI runtime",
            CheckStatus::Pass,
            "python3, GTK 3, and XApp are available",
        ),
        UiProbe::Fails(stderr) => {
            let said = text::lossy_text(stderr);
            let said = text::trim(said.as_str());
            let detail = text::concat2("GTK 3 / XApp import failed: ", said.as_str());
            check("Desktop UI runtime", CheckStatus::Warn, detail.as_str())
        },
        UiProbe::NoInterpreter(reason) => {
            let detail = text::concat2("python3 is not available: ", reason.as_str());
            check("Desktop UI runtime", CheckStatus::Warn, detail.as_str())
        },
    }
}

/// What the audio server says.
#[derive(Debug)]
pub struct AudioFacts {
    pub identity: Result<String>,
    pub microphone: Result<AudioDevice>,
    pub output_sink: Result<AudioDevice>,
    pub output_monitor: Result<AudioDevice>,
}

/// What is known of the machine.
#[derive(Debug)]
pub struct Facts {
    /// What came of connecting to the audio server.
    pub audio: Result<AudioFacts>,
    /// What came of writing to the data directory.
    pub data_dir: std::result::Result<(), String>,
    /// What came of opening and writing to the database.
    pub database: Result<()>,
    pub free_bytes: Result<u64>,
    /// What came of asking systemd for the service.
    pub systemd: Result<()>,
    pub openai_key_is_set: bool,
    /// What is known of the whisper.cpp program that the settings name.
    pub whisper: Program,
    pub whisper_model_is_file: bool,
    pub ui: UiProbe,
}

/// What is found of the audio server and its devices.
pub open spec fn audio_findings(audio: Result<AudioFacts>) -> Seq<Finding> {
    match audio {
        Ok(facts) => seq![
            ("PulseAudio connectivity"@, CheckStatus::Pass, "context ready"@),
            identity_finding(facts.identity),
            device_finding("Default microphone"@, facts.microphone),
            device_finding("Default output sink"@, facts.output_sink),
            device_finding("Default output monitor"@, facts.output_monitor),
        ],
        Err(e) => seq![
            ("PulseAudio connectivity"@, CheckStatus::Fail, shown(e@)),
            (
                "Audio server identity"@,
                CheckStatus::Warn,
                "undetectable because the audio server is not connected"@,
            ),
            ("Default microphone"@, CheckStatus::Fail, "missing"@),
            ("Default output sink"@, CheckStatus::Fail, "missing"@),
            ("Default output monitor"@, CheckStatus::Fail, "missing"@),
        ],
    }
}

/// All that is found, in the order in which it is shown.
pub open spec fn findings(
    roots: crate::paths::Roots,
    distro: DistroInfo,
    source: Option<ConfigSource>,
    facts: Facts,
) -> Seq<Finding> {
    let path = crate::paths::joined_path(roots.config_dir(), "config.toml"@);
    let settings = config_found(path, source, roots.home);
    seq![distro_finding(distro), config_finding(path, source)] + audio_findings(facts.audio) + seq![
        data_dir_finding(roots.data_dir(), facts.data_dir),
        database_finding(
            crate::paths::joined_path(roots.data_dir(), "voxtype-meeting-service.db"@),
            facts.database,
        ),
        disk_finding(facts.free_bytes, settings),
        systemd_finding(facts.systemd),
        key_finding(settings, facts.openai_key_is_set),
        whisper_finding(settings, facts.whisper),
        model_finding(settings, facts.whisper_model_is_file),
        ui_finding(facts.ui),
    ]
}

/// What checks found.
pub open spec fn found(checks: Seq<Check>) -> Seq<Finding> {
    Seq::new(checks.len(), |i: int| checks[i]@)
}

fn audio_checks(audio: &Result<AudioFacts>) -> (r: Vec<Check>)
    ensures
        found(r@) == audio_findings(*audio),
{
    let mut checks: Vec<Check> = Vec::new();
    match audio {
        Ok(facts) => {
            checks.push(check("PulseAudio connectivity", CheckStatus::Pass, "context ready"));
            checks.push(check_server_identity(&facts.identity));
            checks.push(check_device("Default microphone", &facts.microphone));
            checks.push(check_device("Default output sink", &facts.output_sink));
            checks.push(check_device("Default output monitor", &facts.output_monitor));
        },
        Err(e) => {
            let reason = e.to_string();
            checks.push(check("PulseAudio connectivity", CheckStatus::Fail, reason.as_str()));
            checks.push(
                check(
                    "Audio server identity",
                    CheckStatus::Warn,
                    "undetectable because the audio server is not connected",
                ),
            );
            checks.push(missing_device("Default microphone"));
            checks.push(missing_device("Default output sink"));
            checks.push(missing_device("Default output monitor"));
        },
    }
    assert(found(checks@) =~= audio_findings(*audio));
    checks
}

/// All checks, in the order in which they are shown.
pub fn collect_checks(
    paths: &PathResolver,
    distro: &DistroInfo,
    source: Option<ConfigSource>,
    facts: &Facts,
) -> (r: Vec<Check>)
    ensures
        found(r@) == findings(paths@, *distro, source, *facts),
{
    let (config, config_check) = check_config(source, paths.config_file().as_str(), paths.home());
    let mut checks: Vec<Check> = Vec::new();
    checks.push(check_distro(distro));
    checks.push(config_check);
    let ghost first = found(checks@);
    let mut audio = audio_checks(&facts.audio);
    let ghost middle = found(audio@);
    checks.append(&mut audio);
    assert(found(checks@) =~= first + middle);
    let ghost before = checks@;
    checks.push(check_data_dir(paths.data_dir().as_str(), &facts.data_dir));
    checks.push(check_database(paths.db_path().as_str(), &facts.database));
    checks.push(check_disk(&facts.free_bytes, &config));
    checks.push(check_systemd(&facts.systemd));
    checks.push(check_openai(&config, facts.openai_key_is_set));
    checks.push(check_whisper(&config, &facts.whisper));
    checks.push(check_whisper_model(&config, facts.whisper_model_is_file));
    checks.push(check_ui_runtime(&facts.ui));
    proof {
        let all = findings(paths@, *distro, source, *facts);
        assert(first =~= all.take(2));
        assert forall|i: int| 0 <= i < before.len() implies found(checks@)[i] == (first
            + middle)[i] by {
            assert(checks@[i] == before[i]);
            assert(found(before)[i] == (first + middle)[i]);
        }
        assert(found(checks@) =~= all);
    }
    checks
}

/// A text filled up with spaces on the right.
pub open spec fn padded(s: Seq<char>, width: int) -> Seq<char> {
    s + Seq::new(
        (if s.len() < width {
            width - s.len()
        } else {
            0
        }) as nat,
        |i: int| ' ',
    )
}

fn pad(s: &str, width: usize) -> (r: String)
    ensures
        r@ == padded(s@, width as int),
{
    let count = text::chars_of(s).len();
    let mut r = s.to_owned();
    let mut n: usize = count;
    while n < width
        invariant
            count == s@.len(),
            count <= n,
            n <= width || n == count,
            r@ =~= s@ + Seq::new((n - count) as nat, |i: int| ' '),
        decreases width - n,
    {
        r.push(' ');
        n += 1;
    }
    assert(r@ =~= padded(s@, width as int));
    r
}

/// One check as a line of the report.
pub open spec fn check_line(f: Finding) -> Seq<char> {
    padded(f.0, 28) + " "@ + f.1.text() + "  "@ + f.2 + "\n"@
}

/// The report on what was found.
pub open spec fn report_text(distro: Seq<char>, found: Seq<Finding>) -> Seq<char>
    decreases found.len(),
{
    if found.len() == 0 {
        "Distribution: "@ + distro + "\n"@
    } else {
        report_text(distro, found.drop_last()) + check_line(found.last())
    }
}

/// The report on the checks.
pub fn report(distro: &DistroInfo, checks: &Vec<Check>) -> (r: String)
    ensures
        r@ == report_text(distro.shown_name(), found(checks@)),
{
    let ghost name = distro.shown_name();
    let mut r = text::concat3("Distribution: ", distro.pretty_name(), "\n");
    let mut i: usize = 0;
    assert(found(checks@).take(0) =~= Seq::empty());
    while i < checks.len()
        invariant
            i <= checks@.len(),
            r@ == report_text(name, found(checks@).take(i as int)),
        decreases checks.len() - i,
    {
        let c = &checks[i];
        let ghost before = r@;
        let name28 = pad(c.name, 28);
        let line = text::concat5(
            name28.as_str(),
            " ",
            c.status.label(),
            "  ",
            c.detail.as_str(),
        );
        r.append(line.as_str());
        r.append("\n");
        i += 1;
        proof {
            let upto = found(checks@).take(i as int);
            assert(upto.drop_last() =~= found(checks@).take(i - 1));
            assert(upto.last() == c@);
            assert(r@ =~= before + check_line(c@));
        }
    }
    assert(found(checks@).take(i as int) =~= found(checks@));
    r
}

/// Whether a check failed.
pub open spec fn some_failed(found: Seq<Finding>) -> bool {
    exists|i: int| 0 <= i < found.len() && (#[trigger] found[i]).1 == CheckStatus::Fail
}

/// Whether the installation passes: no check failed.
pub fn verdict(checks: &Vec<Check>) -> (r: Result<()>)
    ensures
        if some_failed(found(checks@)) {
            fails(r, ErrorKind::Other, "doctor found one or more FAIL checks"@)
        } else {
            r is Ok
        },
{
    let mut i: usize = 0;
    while i < checks.len()
        invariant
            i <= checks@.len(),
            forall|k: int| 0 <= k < i ==> (#[trigger] found(checks@)[k]).1 != CheckStatus::Fail,
        decreases checks.len() - i,
    {
        if checks[i].status == CheckStatus::Fail {
            assert(found(checks@)[i as int].1 == CheckStatus::Fail);
            return Err(AppError::other("doctor found one or more FAIL checks"));
        }
        i += 1;
    }
    Ok(())
}

/// Without a connection to the audio server the installation does not pass.
pub proof fn law_no_audio_server_fails(
    roots: crate::paths::Roots,
    distro: DistroInfo,
    source: Option<ConfigSource>,
    facts: Facts,
)
    requires
        facts.audio is Err,
    ensures
        some_failed(findings(roots, distro, source, facts)),
{
    let all = findings(roots, distro, source, facts);
    assert(all[2] == audio_findings(facts.audio)[0]);
}

/// Which state of the disk, the settings, the devices and the programs fails, and which gets
/// a warning.
pub proof fn law_how_serious_findings_are(
    bytes: u64,
    settings: Option<Settings>,
    path: Seq<char>,
    source: Option<ConfigSource>,
    name: Seq<char>,
    device: Result<AudioDevice>,
    program: Program,
    is_file: bool,
)
    ensures
        ({
            let least = match settings {
                Some(s) => s.minimum_free_space_mb,
                None => 1024,
            };
            let mb = bytes as nat / 1_048_576;
            let status = disk_finding(Ok(bytes), settings).1;
            &&& status == CheckStatus::Fail <==> mb < least
            &&& status == CheckStatus::Warn <==> least <= mb && mb < 2 * least
            &&& status == CheckStatus::Pass <==> mb >= least && mb >= 2 * least
        }),
        config_finding(path, source).1 == match source {
            None => CheckStatus::Warn,
            Some(s) => if s.error(path) is Some {
                CheckStatus::Fail
            } else {
                CheckStatus::Pass
            },
        },
        device_finding(name, device).1 == (if device is Ok {
            CheckStatus::Pass
        } else {
            CheckStatus::Fail
        }),
        settings matches Some(s) ==> (s.provider == ProviderKind::WhisperCpp ==> {
            &&& whisper_finding(settings, program).1 == match program {
                Program::Runnable => CheckStatus::Pass,
                Program::Missing => CheckStatus::Warn,
                _ => CheckStatus::Fail,
            }
            &&& model_finding(settings, is_file).1 == (if is_file {
                CheckStatus::Pass
            } else {
                CheckStatus::Warn
            })
        }),
        settings matches Some(s) ==> (s.provider != ProviderKind::WhisperCpp ==> whisper_finding(
            settings,
            program,
        ).1 == CheckStatus::Pass && model_finding(settings, is_file).1 == CheckStatus::Pass),
{
}

/// All checks are shown, in this order.
pub proof fn law_what_is_checked(
    roots: crate::paths::Roots,
    distro: DistroInfo,
    source: Option<ConfigSource>,
    facts: Facts,
)
    ensures
        ({
            let f = findings(roots, distro, source, facts);
            &&& f.len() == 15
            &&& f[0].0 == "Linux distribution"@
            &&& f[1].0 == "Configuration"@
            &&& f[2].0 == "PulseAudio connectivity"@
            &&& f[3].0 == "Audio server identity"@
            &&& f[4].0 == "Default microphone"@
            &&& f[5].0 == "Default output sink"@
            &&& f[6].0 == "Default output monitor"@
            &&& f[7].0 == "Data directory"@
            &&& f[8].0 == "Database"@
            &&& f[9].0 == "Free disk space"@
            &&& f[10].0 == "systemd user session"@
            &&& f[11].0 == "OpenAI API key"@
            &&& f[12].0 == "whisper-cli"@
            &&& f[13].0 == "whisper model"@
            &&& f[14].0 == "Desktop UI runtime"@
            &&& f[2].1 == (if facts.audio is Ok {
                CheckStatus::Pass
            } else {
                CheckStatus::Fail
            })
            &&& f[7].1 == (if facts.data_dir is Ok {
                CheckStatus::Pass
            } else {
                CheckStatus::Fail
            })
            &&& f[8].1 == (if facts.database is Ok {
                CheckStatus::Pass
            } else {
                CheckStatus::Fail
            })
        }),
{
}

/// The report has one line for each finding, in their order, behind the distribution.
pub proof fn law_the_report_goes_from_top_to_bottom(distro: Seq<char>, found: Seq<Finding>)
    ensures
        report_text(distro, found) == "Distribution: "@ + distro + "\n"@ + found.map_values(
            |f: Finding| check_line(f),
        ).flatten(),
    decreases found.len(),
{
    let g = |f: Finding| check_line(f);
    let parts = found.map_values(g);
    let head = "Distribution: "@ + distro + "\n"@;
    parts.lemma_flatten_and_flatten_alt_are_equivalent();
    if found.len() > 0 {
        let front = found.drop_last();
        law_the_report_goes_from_top_to_bottom(distro, front);
        let before = front.map_values(g);
        before.lemma_flatten_and_flatten_alt_are_equivalent();
        assert(parts.drop_last() =~= before);
        assert(report_text(distro, found) =~= head + parts.flatten());
    } else {
        assert(head + parts.flatten() =~= head);
    }
}

/// What a line of the report says.
pub proof fn law_what_a_line_of_the_report_says(f: Finding)
    ensures
        f.0.len() >= 28 ==> check_line(f) == f.0 + " "@ + f.1.text() + "  "@ + f.2 + "\n"@,
        check_line(f).take(f.0.len() as int) == f.0,
        CheckStatus::Pass.text() == "PASS"@,
        CheckStatus::Warn.text() == "WARN"@,
        CheckStatus::Fail.text() == "FAIL"@,
{
    assert(check_line(f).take(f.0.len() as int) =~= f.0);
    if f.0.len() >= 28 {
        assert(padded(f.0, 28) =~= f.0);
    }
}

/// The settings that hold are those of the file, or the built-in ones where there is none; a
/// file that is refused gives none.
pub proof fn law_which_settings_hold(
    path: Seq<char>,
    source: Option<ConfigSource>,
    home: Seq<char>,
)
    ensures
        source is None ==> config_found(path, source, home) == Some(default_settings(home)),
        source matches Some(s) ==> {
            &&& config_found(path, source, home) is Some <==> s.error(path) is None
            &&& s matches ConfigSource::Parsed(raw) ==> (raw.error() is None ==> config_found(
                path,
                source,
                home,
            ) == Some(raw.settings(home)))
        },
{
}

/// Which checks go by which identifiers.
pub proof fn law_checks_go_by_their_identifiers()
    ensures
        id_of("PulseAudio connectivity"@) == "audio_server"@,
        id_of("Default microphone"@) == "microphone"@,
        id_of("Default output sink"@) == "system_output"@,
        id_of("Default output monitor"@) == "system_monitor"@,
        id_of("OpenAI API key"@) == "openai"@,
        id_of("whisper-cli"@) == "whisper_cpp"@,
        id_of("whisper model"@) == "local_model"@,
        id_of("Database"@) == "database"@,
        id_of("Data directory"@) == "data_directory"@,
        id_of("Free disk space"@) == "free_disk"@,
        id_of("Desktop UI runtime"@) == "ui_runtime"@,
        id_of("systemd user session"@) == "systemd"@,
        id_of("Linux distribution"@) == "distribution"@,
        id_of("Configuration"@) == "configuration"@,
        id_of("Audio server identity"@) == "audio_server_identity"@,
{
    reveal_strlit("PulseAudio connectivity");
    reveal_strlit("Default microphone");
    reveal_strlit("Default output sink");
    reveal_strlit("Default output monitor");
    reveal_strlit("OpenAI API key");
    reveal_strlit("whisper-cli");
    reveal_strlit("whisper model");
    reveal_strlit("Database");
    reveal_strlit("Data directory");
    reveal_strlit("Free disk space");
    reveal_strlit("Desktop UI runtime");
    reveal_strlit("systemd user session");
    reveal_strlit("Linux distribution");
    reveal_strlit("Configuration");
    reveal_strlit("Audio server identity");
    assert("PulseAudio connectivity"@.len() == 23);
    assert("Default microphone"@.len() == 18);
    assert("Default output sink"@.len() == 19);
    assert("Default output monitor"@.len() == 22);
    assert("OpenAI API key"@.len() == 14);
    assert("whisper-cli"@.len() == 11);
    assert("whisper model"@.len() == 13);
    assert("Database"@.len() == 8);
    assert("Data directory"@.len() == 14);
    assert("Free disk space"@.len() == 15);
    assert("Desktop UI runtime"@.len() == 18);
    assert("systemd user session"@.len() == 20);
    assert("Linux distribution"@.len() == 18);
    assert("Configuration"@.len() == 13);
    assert("Audio server identity"@.len() == 21);
    assert("Default microphone"@[2] == 'f' && "Desktop UI runtime"@[2] == 's');
    assert("Linux distribution"@[2] == 'n');
    assert("OpenAI API key"@[0] == 'O' && "Data directory"@[0] == 'D');
    assert("whisper model"@[0] == 'w' && "Configuration"@[0] == 'C');
}

/// A check is told with what it is, how it came out and why.
pub proof fn law_what_is_told_of_a_check(checks: Seq<Check>, i: int)
    requires
        0 <= i < checks.len(),
    ensures
        check_models(checks).len() == checks.len(),
        check_models(checks)[i] == TreeModel::Object(
            seq![
                ("id"@, TreeModel::Text(id_of(checks[i].name@))),
                ("name"@, TreeModel::Text(checks[i].name@)),
                ("status"@, TreeModel::Text(checks[i].status.text())),
                ("detail"@, TreeModel::Text(checks[i].detail@)),
            ],
        ),
{
}

/// Only Linux Mint passes as a distribution; what is missing of systemd, a key or the desktop
/// is a warning; what the server says of its devices stands at its own check.
pub proof fn law_what_is_found_of_the_machine(
    distro: DistroInfo,
    answer: Result<()>,
    settings: Option<Settings>,
    key: bool,
    probe: UiProbe,
    facts: AudioFacts,
    e: AppError,
)
    ensures
        distro_finding(distro).1 == (if distro.distribution == LinuxDistribution::LinuxMint {
            CheckStatus::Pass
        } else {
            CheckStatus::Warn
        }),
        systemd_finding(answer).1 == (if answer is Ok {
            CheckStatus::Pass
        } else {
            CheckStatus::Warn
        }),
        key_finding(settings, true).1 == CheckStatus::Pass,
        key_finding(settings, false).1 == CheckStatus::Warn <==> (settings matches Some(s)
            ==> s.provider == ProviderKind::Openai),
        ui_finding(probe).1 == (if probe is Works {
            CheckStatus::Pass
        } else {
            CheckStatus::Warn
        }),
        ({
            let f = audio_findings(Ok(facts));
            &&& f.len() == 5
            &&& f[2] == device_finding("Default microphone"@, facts.microphone)
            &&& f[3] == device_finding("Default output sink"@, facts.output_sink)
            &&& f[4] == device_finding("Default output monitor"@, facts.output_monitor)
        }),
        ({
            let f = audio_findings(Err(e));
            &&& f.len() == 5
            &&& f[0].1 == CheckStatus::Fail
            &&& f[1].1 == CheckStatus::Warn
            &&& f[2].1 == CheckStatus::Fail
            &&& f[3].1 == CheckStatus::Fail
            &&& f[4].1 == CheckStatus::Fail
        }),
{
}

/// Names are filled up with spaces to one width.
pub proof fn law_names_are_filled_up(s: Seq<char>, width: int, i: int)
    ensures
        s.len() <= width ==> padded(s, width).len() == width,
        s.len() > width ==> padded(s, width) == s,
        padded(s, width).take(s.len() as int) == s,
        s.len() <= i < padded(s, width).len() ==> padded(s, width)[i] == ' ',
{
    assert(padded(s, width).take(s.len() as int) =~= s);
    if s.len() > width {
        assert(padded(s, width) =~= s);
    }
}

} // verus!
