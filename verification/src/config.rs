//! Settings: their defaults, validation, patches and TOML text.

use crate::document::{
    document_text, field_at, has_inside, is_name, is_plain_document, is_plain_item,
    is_plain_section, is_printable, is_reading, item_model, law_unwritten_fields_are_not_read,
    law_written_fields_are_read, needs_no_escape, toml_escaped, Item, Section, Writer,
};
use crate::error::{fails, AppError, ErrorKind, Result};
use crate::paths::{join, joined_path};
use crate::text;
use crate::text::{is_blank, lowered, text_of, trimmed, views};
use crate::tree::TreeModel;
use vstd::prelude::*;

verus! {

pub const DEFAULT_CONFIG_TOML: &'static str = r#"# Voxtype Meeting Service configuration
# See docs/architecture.md for the full schema.

[general]
minimum_free_space_mb = 1024

[audio]
microphone = "default"
system_output = "default"
source = "both"
retain_audio = false

[transcription]
provider = "voxtype"
model = "configured"
max_concurrent_jobs = 1

[transcription.whisper_cpp]
executable = "/usr/local/bin/whisper-cli"
model = "~/.local/share/voxtype-meeting-service/models/ggml-large-v3-turbo.bin"

[transcript]
# When only one of MIC/SYSTEM has non-empty text, omit `HH:MM:SS [SOURCE]` lines in transcript.md.
omit_single_source_headers = true
"#;

#[derive(Clone, Copy, Debug, PartialEq, Eq, Structural)]
pub enum ProviderKind {
    Voxtype,
    Openai,
    WhisperCpp,
}

/// The provider that a setting names, or the message that refuses it.
pub open spec fn provider_named(value: Seq<char>) -> std::result::Result<ProviderKind, Seq<char>> {
    if value == "voxtype"@ {
        Ok(ProviderKind::Voxtype)
    } else if value == "whisper_cpp"@ {
        Ok(ProviderKind::WhisperCpp)
    } else if value == "openai"@ {
        Err(
            "the OpenAI remote provider has been removed; use provider = \"voxtype\" or \"whisper_cpp\""@,
        )
    } else {
        Err("invalid transcription.provider '"@ + value + "'; expected voxtype or whisper_cpp"@)
    }
}

/// The provider of a stored record; one that can no longer be chosen is still known.
pub open spec fn provider_stored(value: Seq<char>) -> std::result::Result<ProviderKind, Seq<char>> {
    if value == "openai"@ {
        Ok(ProviderKind::Openai)
    } else {
        provider_named(value)
    }
}

impl ProviderKind {
    pub open spec fn name(self) -> Seq<char> {
        match self {
            ProviderKind::Voxtype => "voxtype"@,
            ProviderKind::Openai => "openai"@,
            ProviderKind::WhisperCpp => "whisper_cpp"@,
        }
    }

    pub fn as_str(self) -> (r: &'static str)
        ensures
            r@ == self.name(),
    {
        match self {
            ProviderKind::Voxtype => "voxtype",
            ProviderKind::Openai => "openai",
            ProviderKind::WhisperCpp => "whisper_cpp",
        }
    }

    pub fn parse(value: &str) -> (r: Result<Self>)
        ensures
            match provider_named(value@) {
                Ok(kind) => r matches Ok(k) && k == kind,
                Err(message) => fails(r, ErrorKind::Config, message),
            },
    {
        if text::same(value, "voxtype") {
            Ok(ProviderKind::Voxtype)
        } else if text::same(value, "whisper_cpp") {
            Ok(ProviderKind::WhisperCpp)
        } else if text::same(value, "openai") {
            Err(
                AppError::config(
                    "the OpenAI remote provider has been removed; use provider = \"voxtype\" or \"whisper_cpp\"",
                ),
            )
        } else {
            let message = text::concat3(
                "invalid transcription.provider '",
                value,
                "'; expected voxtype or whisper_cpp",
            );
            Err(AppError::config(message.as_str()))
        }
    }

    pub fn parse_stored(value: &str) -> (r: Result<Self>)
        ensures
            match provider_stored(value@) {
                Ok(kind) => r matches Ok(k) && k == kind,
                Err(message) => fails(r, ErrorKind::Config, message),
            },
    {
        if text::same(value, "openai") {
            Ok(ProviderKind::Openai)
        } else {
            Self::parse(value)
        }
    }
}

#[derive(Clone, Copy, Debug, PartialEq, Eq, Structural)]
pub enum CaptureSource {
    Mic,
    System,
    Both,
}

/// The capture source that a setting names, or the message that refuses it.
pub open spec fn source_named(value: Seq<char>) -> std::result::Result<CaptureSource, Seq<char>> {
    if value == "mic"@ {
        Ok(CaptureSource::Mic)
    } else if value == "system"@ {
        Ok(CaptureSource::System)
    } else if value == "both"@ {
        Ok(CaptureSource::Both)
    } else {
        Err("invalid audio.source '"@ + value + "'"@)
    }
}

impl CaptureSource {
    pub open spec fn name(self) -> Seq<char> {
        match self {
            CaptureSource::Mic => "mic"@,
            CaptureSource::System => "system"@,
            CaptureSource::Both => "both"@,
        }
    }

    pub fn parse(value: &str) -> (r: Result<Self>)
        ensures
            match source_named(value@) {
                Ok(source) => r matches Ok(s) && s == source,
                Err(message) => fails(r, ErrorKind::Config, message),
            },
    {
        if text::same(value, "mic") {
            Ok(CaptureSource::Mic)
        } else if text::same(value, "system") {
            Ok(CaptureSource::System)
        } else if text::same(value, "both") {
            Ok(CaptureSource::Both)
        } else {
            let message = text::concat3("invalid audio.source '", value, "'");
            Err(AppError::config(message.as_str()))
        }
    }

    pub fn includes_mic(self) -> (r: bool)
        ensures
            r == (self != CaptureSource::System),
    {
        match self {
            CaptureSource::Mic | CaptureSource::Both => true,
            CaptureSource::System => false,
        }
    }

    pub fn includes_system(self) -> (r: bool)
        ensures
            r == (self != CaptureSource::Mic),
    {
        match self {
            CaptureSource::System | CaptureSource::Both => true,
            CaptureSource::Mic => false,
        }
    }

    pub fn as_str(self) -> (r: &'static str)
        ensures
            r@ == self.name(),
    {
        match self {
            CaptureSource::Mic => "mic",
            CaptureSource::System => "system",
            CaptureSource::Both => "both",
        }
    }
}

/// The name of a provider is read back as the provider.
pub proof fn law_provider_names_round_trip(kind: ProviderKind)
    ensures
        provider_stored(kind.name()) == Ok::<ProviderKind, Seq<char>>(kind),
        kind != ProviderKind::Openai ==> provider_named(kind.name()) == Ok::<
            ProviderKind,
            Seq<char>,
        >(kind),
{
    reveal_strlit("voxtype");
    reveal_strlit("openai");
    reveal_strlit("whisper_cpp");
    assert("voxtype"@[0] == 'v' && "openai"@[0] == 'o' && "whisper_cpp"@[0] == 'w');
}

/// The name of a capture source is read back as the source.
pub proof fn law_source_names_round_trip(source: CaptureSource)
    ensures
        source_named(source.name()) == Ok::<CaptureSource, Seq<char>>(source),
{
    reveal_strlit("mic");
    reveal_strlit("system");
    reveal_strlit("both");
    assert("mic"@[0] == 'm' && "system"@[0] == 's' && "both"@[0] == 'b');
}

#[derive(Debug, PartialEq, Eq)]
pub struct GeneralConfig {
    pub minimum_free_space_mb: u64,
}

#[derive(Debug, PartialEq, Eq)]
pub struct AudioConfig {
    pub microphone: String,
    pub system_output: String,
    pub source: CaptureSource,
    pub retain_audio: bool,
}

#[derive(Debug, PartialEq, Eq)]
pub struct TranscriptionConfig {
    pub provider: ProviderKind,
    pub model: String,
    pub max_concurrent_jobs: u32,
    /// Expected spoken languages (ISO 639-1, e.g. `fr`, `en`). Empty means auto-detect.
    pub languages: Vec<String>,
    pub whisper_cpp: WhisperCppConfig,
}

#[derive(Debug, PartialEq, Eq)]
pub struct WhisperCppConfig {
    pub executable: String,
    pub model: String,
}

#[derive(Debug, PartialEq, Eq)]
pub struct TranscriptConfig {
    /// Drop `HH:MM:SS [MIC]` / `[SYSTEM]` lines in Markdown when only one source has text.
    pub omit_single_source_headers: bool,
}

#[derive(Debug, PartialEq, Eq)]
pub struct Config {
    pub general: GeneralConfig,
    pub audio: AudioConfig,
    pub transcription: TranscriptionConfig,
    pub transcript: TranscriptConfig,
}

/// The settings as plain values.
#[verifier::ext_equal]
pub struct Settings {
    pub minimum_free_space_mb: u64,
    pub microphone: Seq<char>,
    pub system_output: Seq<char>,
    pub source: CaptureSource,
    pub retain_audio: bool,
    pub provider: ProviderKind,
    pub model: Seq<char>,
    pub max_concurrent_jobs: u32,
    pub languages: Seq<Seq<char>>,
    pub whisper_executable: Seq<char>,
    pub whisper_model: Seq<char>,
    pub omit_single_source_headers: bool,
}

impl View for Config {
    type V = Settings;

    open spec fn view(&self) -> Settings {
        Settings {
            minimum_free_space_mb: self.general.minimum_free_space_mb,
            microphone: self.audio.microphone@,
            system_output: self.audio.system_output@,
            source: self.audio.source,
            retain_audio: self.audio.retain_audio,
            provider: self.transcription.provider,
            model: self.transcription.model@,
            max_concurrent_jobs: self.transcription.max_concurrent_jobs,
            languages: views(self.transcription.languages@),
            whisper_executable: self.transcription.whisper_cpp.executable@,
            whisper_model: self.transcription.whisper_cpp.model@,
            omit_single_source_headers: self.transcript.omit_single_source_headers,
        }
    }
}

/// A copy of a list of strings.
pub fn copied_strings(v: &Vec<String>) -> (r: Vec<String>)
    ensures
        r@ == v@,
{
    let mut r: Vec<String> = Vec::new();
    let mut i: usize = 0;
    while i < v.len()
        invariant
            i <= v.len(),
            r@ == v@.take(i as int),
        decreases v.len() - i,
    {
        r.push(v[i].clone());
        i += 1;
        assert(r@ =~= v@.take(i as int));
    }
    assert(v@.take(i as int) =~= v@);
    r
}

impl Clone for Config {
    fn clone(&self) -> (r: Self)
        ensures
            r@ == self@,
    {
        Config {
            general: GeneralConfig {
                minimum_free_space_mb: self.general.minimum_free_space_mb,
            },
            audio: AudioConfig {
                microphone: self.audio.microphone.clone(),
                system_output: self.audio.system_output.clone(),
                source: self.audio.source,
                retain_audio: self.audio.retain_audio,
            },
            transcription: TranscriptionConfig {
                provider: self.transcription.provider,
                model: self.transcription.model.clone(),
                max_concurrent_jobs: self.transcription.max_concurrent_jobs,
                languages: copied_strings(&self.transcription.languages),
                whisper_cpp: WhisperCppConfig {
                    executable: self.transcription.whisper_cpp.executable.clone(),
                    model: self.transcription.whisper_cpp.model.clone(),
                },
            },
            transcript: TranscriptConfig {
                omit_single_source_headers: self.transcript.omit_single_source_headers,
            },
        }
    }
}

/// Whether a language code is made of ASCII letters, digits and hyphens.
pub open spec fn is_code_char(c: char) -> bool {
    ('0' <= c <= '9') || ('a' <= c <= 'z') || ('A' <= c <= 'Z') || c == '-'
}

pub open spec fn is_code(s: Seq<char>) -> bool {
    s.len() > 0 && forall|i: int| 0 <= i < s.len() ==> is_code_char(#[trigger] s[i])
}

/// The code that a language entry stands for.
pub open spec fn code_of(value: Seq<char>) -> Seq<char> {
    lowered(trimmed(value))
}

/// Why an entry of the languages is refused.
pub open spec fn language_error(value: Seq<char>) -> Option<Seq<char>> {
    if code_of(value).len() == 0 {
        Some(
            "transcription.languages entries must be non-empty language codes such as \"fr\" or \"en\""@,
        )
    } else if !is_code(code_of(value)) {
        Some("invalid language code '"@ + value + "'; use ISO codes such as \"fr\" or \"en\""@)
    } else {
        None
    }
}

/// Why the first refused entry is refused.
pub open spec fn first_language_error(values: Seq<Seq<char>>) -> Option<Seq<char>>
    decreases values.len(),
{
    if values.len() == 0 {
        None
    } else {
        match first_language_error(values.drop_last()) {
            Some(message) => Some(message),
            None => language_error(values.last()),
        }
    }
}

pub open spec fn codes_of(values: Seq<Seq<char>>) -> Seq<Seq<char>> {
    values.map_values(|v: Seq<char>| code_of(v))
}

/// The languages that a setting stands for: none for no setting and for `auto` alone.
pub open spec fn languages_named(raw: Option<Seq<Seq<char>>>) -> std::result::Result<
    Seq<Seq<char>>,
    Seq<char>,
> {
    match raw {
        None => Ok(Seq::empty()),
        Some(values) => match first_language_error(values) {
            Some(message) => Err(message),
            None => if !codes_of(values).contains("auto"@) {
                Ok(codes_of(values))
            } else if values.len() == 1 {
                Ok(Seq::empty())
            } else {
                Err(
                    "\"auto\" cannot be mixed with other language codes; omit languages for auto-detect"@,
                )
            },
        },
    }
}

fn is_language_code(s: &str) -> (r: bool)
    requires
        s@.len() > 0,
    ensures
        r == is_code(s@),
{
    let v = text::chars_of(s);
    let mut i: usize = 0;
    while i < v.len()
        invariant
            v@ == s@,
            i <= v.len(),
            forall|j: int| 0 <= j < i ==> is_code_char(#[trigger] s@[j]),
        decreases v.len() - i,
    {
        let c = v[i];
        if !(('0' <= c && c <= '9') || ('a' <= c && c <= 'z') || ('A' <= c && c <= 'Z') || c == '-') {
            assert(!is_code_char(s@[i as int]));
            return false;
        }
        i += 1;
    }
    true
}

pub open spec fn views_of_option(o: Option<Vec<String>>) -> Option<Seq<Seq<char>>> {
    match o {
        Some(v) => Some(views(v@)),
        None => None,
    }
}

proof fn lemma_language_error_persists(values: Seq<Seq<char>>, i: int)
    requires
        0 <= i <= values.len(),
        first_language_error(values.take(i)) is Some,
    ensures
        first_language_error(values) == first_language_error(values.take(i)),
    decreases values.len() - i,
{
    if i == values.len() {
        assert(values.take(i) =~= values);
    } else {
        assert(values.take(i + 1).drop_last() =~= values.take(i));
        lemma_language_error_persists(values, i + 1);
    }
}

pub fn normalize_languages(raw: Option<Vec<String>>) -> (r: Result<Vec<String>>)
    ensures
        match languages_named(views_of_option(raw)) {
            Ok(codes) => r matches Ok(v) && views(v@) == codes,
            Err(message) => fails(r, ErrorKind::Config, message),
        },
{
    let values = match raw {
        None => {
            let none: Vec<String> = Vec::new();
            assert(views(none@) =~= Seq::empty());
            return Ok(none);
        },
        Some(values) => values,
    };
    let ghost all = views(values@);
    let mut out: Vec<String> = Vec::new();
    let mut auto = false;
    let mut i: usize = 0;
    assert(codes_of(all.take(0)) =~= Seq::empty());
    while i < values.len()
        invariant
            all == views(values@),
            raw is Some,
            views_of_option(raw) == Some(all),
            i <= values.len(),
            first_language_error(all.take(i as int)) is None,
            views(out@) == codes_of(all.take(i as int)),
            auto == codes_of(all.take(i as int)).contains("auto"@),
        decreases values.len() - i,
    {
        let code = text::lowercase(text::trim(values[i].as_str()).as_str());
        let ghost now = all.take(i + 1);
        proof {
            assert(now.drop_last() =~= all.take(i as int));
            assert(now.last() == values@[i as int]@);
        }
        if code.as_str().is_empty() {
            proof {
                lemma_language_error_persists(all, i + 1);
            }
            return Err(
                AppError::config(
                    "transcription.languages entries must be non-empty language codes such as \"fr\" or \"en\"",
                ),
            );
        }
        if !is_language_code(code.as_str()) {
            proof {
                lemma_language_error_persists(all, i + 1);
            }
            let message = text::concat3(
                "invalid language code '",
                values[i].as_str(),
                "'; use ISO codes such as \"fr\" or \"en\"",
            );
            return Err(AppError::config(message.as_str()));
        }
        let is_auto = text::same(code.as_str(), "auto");
        proof {
            let before = codes_of(all.take(i as int));
            assert(codes_of(now) =~= before.push(code@));
            assert(views(out@.push(code)) =~= views(out@).push(code@));
            if is_auto {
                assert(codes_of(now)[i as int] == "auto"@);
            }
            if before.contains("auto"@) {
                let j = before.index_of("auto"@);
                assert(codes_of(now)[j] == "auto"@);
            }
            if codes_of(now).contains("auto"@) && !is_auto {
                let j = codes_of(now).index_of("auto"@);
                assert(before[j] == "auto"@);
            }
        }
        if is_auto {
            auto = true;
        }
        out.push(code);
        i += 1;
    }
    assert(all.take(i as int) =~= all);
    if auto {
        if out.len() == 1 {
            let none: Vec<String> = Vec::new();
            assert(views(none@) =~= Seq::empty());
            return Ok(none);
        }
        return Err(
            AppError::config(
                "\"auto\" cannot be mixed with other language codes; omit languages for auto-detect",
            ),
        );
    }
    Ok(out)
}

/// The language that is handed to whisper.cpp.
pub open spec fn whisper_language(languages: Seq<Seq<char>>) -> std::result::Result<
    Seq<char>,
    Seq<char>,
> {
    if languages.len() == 0 {
        Ok("auto"@)
    } else if languages.len() == 1 {
        Ok(languages[0])
    } else {
        Err(
            "whisper.cpp accepts at most one language code (languages = [\"fr\"]); omit languages or use [] for auto-detect"@,
        )
    }
}

pub fn whisper_cli_language(languages: &Vec<String>) -> (r: Result<String>)
    ensures
        match whisper_language(views(languages@)) {
            Ok(code) => r matches Ok(s) && s@ == code,
            Err(message) => fails(r, ErrorKind::Config, message),
        },
{
    if languages.len() == 0 {
        Ok("auto".to_owned())
    } else if languages.len() == 1 {
        Ok(languages[0].clone())
    } else {
        Err(
            AppError::config(
                "whisper.cpp accepts at most one language code (languages = [\"fr\"]); omit languages or use [] for auto-detect",
            ),
        )
    }
}

/// Why a provider cannot take these languages.
pub open spec fn language_conflict(provider: ProviderKind, languages: Seq<Seq<char>>) -> Option<
    Seq<char>,
> {
    match (provider, whisper_language(languages)) {
        (ProviderKind::WhisperCpp, Err(message)) => Some(message),
        _ => None,
    }
}

pub fn assert_languages_compatible(
    provider: ProviderKind,
    _model: &str,
    languages: &Vec<String>,
) -> (r: Result<()>)
    ensures
        match language_conflict(provider, views(languages@)) {
            None => r is Ok,
            Some(message) => fails(r, ErrorKind::Config, message),
        },
{
    match provider {
        ProviderKind::Voxtype | ProviderKind::Openai => Ok(()),
        ProviderKind::WhisperCpp => match whisper_cli_language(languages) {
            Ok(_) => Ok(()),
            Err(e) => Err(e),
        },
    }
}

/// A path with a leading `~` replaced by the home directory.
pub open spec fn tilde_expanded(path: Seq<char>, home: Seq<char>) -> Seq<char> {
    if path == "~"@ {
        home
    } else if text::has_prefix(path, "~/"@) {
        joined_path(home, path.skip(2))
    } else {
        path
    }
}

pub fn expand_tilde(path: &str, home: &str) -> (r: String)
    ensures
        r@ == tilde_expanded(path@, home@),
{
    if text::same(path, "~") {
        return home.to_owned();
    }
    proof {
        reveal_strlit("~/");
    }
    match text::strip_prefix(path, "~/") {
        Some(rest) => join(home, rest.as_str()),
        None => path.to_owned(),
    }
}

/// Settings as they are written in a file, before they are checked.
#[derive(Debug)]
pub struct RawConfig {
    pub general: RawGeneral,
    pub audio: RawAudio,
    pub transcription: RawTranscription,
    pub transcript: RawTranscript,
}

#[derive(Debug)]
pub struct RawGeneral {
    pub minimum_free_space_mb: u64,
}

#[derive(Debug)]
pub struct RawAudio {
    pub microphone: String,
    pub system_output: String,
    pub source: String,
    pub retain_audio: bool,
}

#[derive(Debug)]
pub struct RawTranscription {
    pub provider: String,
    pub model: String,
    pub max_concurrent_jobs: u32,
    pub languages: Option<Vec<String>>,
    pub whisper_cpp: RawWhisperCpp,
}

#[derive(Debug)]
pub struct RawWhisperCpp {
    pub executable: String,
    pub model: String,
}

#[derive(Debug)]
pub struct RawTranscript {
    pub omit_single_source_headers: bool,
}

pub fn default_minimum_free_space_mb() -> (r: u64)
    ensures
        r == 1024,
{
    1024
}

pub fn default_device() -> (r: String)
    ensures
        r@ == "default"@,
{
    "default".to_owned()
}

pub fn default_source() -> (r: String)
    ensures
        r@ == "both"@,
{
    "both".to_owned()
}

pub fn default_provider() -> (r: String)
    ensures
        r@ == "voxtype"@,
{
    "voxtype".to_owned()
}

pub fn default_model() -> (r: String)
    ensures
        r@ == "configured"@,
{
    "configured".to_owned()
}

pub fn default_max_concurrent_jobs() -> (r: u32)
    ensures
        r == 1,
{
    1
}

pub fn default_whisper_executable() -> (r: String)
    ensures
        r@ == "/usr/local/bin/whisper-cli"@,
{
    "/usr/local/bin/whisper-cli".to_owned()
}

pub fn default_whisper_model() -> (r: String)
    ensures
        r@ == "~/.local/share/voxtype-meeting-service/models/ggml-large-v3-turbo.bin"@,
{
    "~/.local/share/voxtype-meeting-service/models/ggml-large-v3-turbo.bin".to_owned()
}

pub fn default_omit_single_source_headers() -> (r: bool)
    ensures
        r,
{
    true
}

impl Default for RawGeneral {
    fn default() -> (r: Self)
        ensures
            r.minimum_free_space_mb == 1024,
    {
        RawGeneral { minimum_free_space_mb: default_minimum_free_space_mb() }
    }
}

impl Default for RawAudio {
    fn default() -> (r: Self)
        ensures
            r.microphone@ == "default"@,
            r.system_output@ == "default"@,
            r.source@ == "both"@,
            !r.retain_audio,
    {
        RawAudio {
            microphone: default_device(),
            system_output: default_device(),
            source: default_source(),
            retain_audio: false,
        }
    }
}

impl Default for RawWhisperCpp {
    fn default() -> (r: Self)
        ensures
            r.executable@ == "/usr/local/bin/whisper-cli"@,
            r.model@ == "~/.local/share/voxtype-meeting-service/models/ggml-large-v3-turbo.bin"@,
    {
        RawWhisperCpp { executable: default_whisper_executable(), model: default_whisper_model() }
    }
}

impl Default for RawTranscription {
    fn default() -> (r: Self)
        ensures
            r.provider@ == "voxtype"@,
            r.model@ == "configured"@,
            r.max_concurrent_jobs == 1,
            r.languages is None,
            r.whisper_cpp.executable@ == "/usr/local/bin/whisper-cli"@,
            r.whisper_cpp.model@
                == "~/.local/share/voxtype-meeting-service/models/ggml-large-v3-turbo.bin"@,
    {
        RawTranscription {
            provider: default_provider(),
            model: default_model(),
            max_concurrent_jobs: default_max_concurrent_jobs(),
            languages: None,
            whisper_cpp: RawWhisperCpp::default(),
        }
    }
}

impl Default for RawTranscript {
    fn default() -> (r: Self)
        ensures
            r.omit_single_source_headers,
    {
        RawTranscript { omit_single_source_headers: default_omit_single_source_headers() }
    }
}

impl RawConfig {
    /// Why these settings are refused; the first reason counts.
    pub open spec fn error(self) -> Option<Seq<char>> {
        if self.general.minimum_free_space_mb == 0 {
            Some("minimum_free_space_mb must be greater than 0"@)
        } else if self.transcription.max_concurrent_jobs == 0 {
            Some("max_concurrent_jobs must be greater than 0"@)
        } else {
            match (
                provider_named(self.transcription.provider@),
                languages_named(views_of_option(self.transcription.languages)),
                source_named(self.audio.source@),
            ) {
                (Err(message), _, _) => Some(message),
                (_, Err(message), _) => Some(message),
                (Ok(provider), Ok(languages), source) => match language_conflict(
                    provider,
                    languages,
                ) {
                    Some(message) => Some(message),
                    None => match source {
                        Err(message) => Some(message),
                        Ok(_) => None,
                    },
                },
            }
        }
    }

    /// The settings that these stand for, where they are not refused.
    pub open spec fn settings(self, home: Seq<char>) -> Settings {
        Settings {
            minimum_free_space_mb: self.general.minimum_free_space_mb,
            microphone: self.audio.microphone@,
            system_output: self.audio.system_output@,
            source: source_named(self.audio.source@)->Ok_0,
            retain_audio: self.audio.retain_audio,
            provider: provider_named(self.transcription.provider@)->Ok_0,
            model: self.transcription.model@,
            max_concurrent_jobs: self.transcription.max_concurrent_jobs,
            languages: languages_named(views_of_option(self.transcription.languages))->Ok_0,
            whisper_executable: tilde_expanded(self.transcription.whisper_cpp.executable@, home),
            whisper_model: tilde_expanded(self.transcription.whisper_cpp.model@, home),
            omit_single_source_headers: self.transcript.omit_single_source_headers,
        }
    }

    pub fn into_config(self, home: &str) -> (r: Result<Config>)
        ensures
            match self.error() {
                Some(message) => fails(r, ErrorKind::Config, message),
                None => r matches Ok(c) && c@ == self.settings(home@),
            },
    {
        if self.general.minimum_free_space_mb == 0 {
            return Err(AppError::config("minimum_free_space_mb must be greater than 0"));
        }
        if self.transcription.max_concurrent_jobs == 0 {
            return Err(AppError::config("max_concurrent_jobs must be greater than 0"));
        }
        let provider = match ProviderKind::parse(self.transcription.provider.as_str()) {
            Ok(provider) => provider,
            Err(e) => return Err(e),
        };
        let languages = match normalize_languages(self.transcription.languages) {
            Ok(languages) => languages,
            Err(e) => return Err(e),
        };
        match assert_languages_compatible(
            provider,
            self.transcription.model.as_str(),
            &languages,
        ) {
            Ok(()) => {},
            Err(e) => return Err(e),
        }
        let source = match CaptureSource::parse(self.audio.source.as_str()) {
            Ok(source) => source,
            Err(e) => return Err(e),
        };
        Ok(
            Config {
                general: GeneralConfig {
                    minimum_free_space_mb: self.general.minimum_free_space_mb,
                },
                audio: AudioConfig {
                    microphone: self.audio.microphone,
                    system_output: self.audio.system_output,
                    source,
                    retain_audio: self.audio.retain_audio,
                },
                transcription: TranscriptionConfig {
                    provider,
                    model: self.transcription.model,
                    max_concurrent_jobs: self.transcription.max_concurrent_jobs,
                    languages,
                    whisper_cpp: WhisperCppConfig {
                        executable: expand_tilde(
                            self.transcription.whisper_cpp.executable.as_str(),
                            home,
                        ),
                        model: expand_tilde(self.transcription.whisper_cpp.model.as_str(), home),
                    },
                },
                transcript: TranscriptConfig {
                    omit_single_source_headers: self.transcript.omit_single_source_headers,
                },
            },
        )
    }
}

/// What came of reading a configuration file and taking its text as TOML.
#[derive(Debug)]
pub enum ConfigSource {
    /// The file could not be read; why.
    Unreadable(String),
    /// Its text is not TOML of this shape; why.
    Unparsable(String),
    Parsed(RawConfig),
}

impl ConfigSource {
    /// Why a configuration file is refused.
    pub open spec fn error(self, path: Seq<char>) -> Option<Seq<char>> {
        match self {
            ConfigSource::Unreadable(reason) => Some(
                "could not read configuration file "@ + path + ": "@ + reason@,
            ),
            ConfigSource::Unparsable(reason) => Some(
                "invalid configuration file "@ + path + ": "@
                    + "could not parse configuration TOML: "@ + reason@,
            ),
            ConfigSource::Parsed(raw) => match raw.error() {
                Some(message) => Some("invalid configuration file "@ + path + ": "@ + message),
                None => None,
            },
        }
    }
}

impl Config {
    /// The settings of the configuration file at `path`.
    pub fn load(source: ConfigSource, path: &str, home: &str) -> (r: Result<Self>)
        ensures
            match source.error(path@) {
                Some(message) => fails(r, ErrorKind::Config, message),
                None => r matches Ok(c) && source matches ConfigSource::Parsed(raw) && c@
                    == raw.settings(home@),
            },
    {
        match source {
            ConfigSource::Unreadable(reason) => {
                let message = text::concat4(
                    "could not read configuration file ",
                    path,
                    ": ",
                    reason.as_str(),
                );
                Err(AppError::config(message.as_str()))
            },
            ConfigSource::Unparsable(reason) => {
                let message = text::concat5(
                    "invalid configuration file ",
                    path,
                    ": ",
                    "could not parse configuration TOML: ",
                    reason.as_str(),
                );
                Err(AppError::config(message.as_str()))
            },
            ConfigSource::Parsed(raw) => match raw.into_config(home) {
                Ok(config) => Ok(config),
                Err(AppError::Config(reason)) => {
                    let message = text::concat4(
                        "invalid configuration file ",
                        path,
                        ": ",
                        reason.as_str(),
                    );
                    Err(AppError::config(message.as_str()))
                },
                Err(e) => Err(e),
            },
        }
    }

    /// The settings of the configuration file at `path`, or the built-in ones where there
    /// is no such file.
    pub fn load_or_default(source: Option<ConfigSource>, path: &str, home: &str) -> (r: Result<
        Self,
    >)
        ensures
            match source {
                None => r matches Ok(c) && c@ == default_settings(home@),
                Some(source) => match source.error(path@) {
                    Some(message) => fails(r, ErrorKind::Config, message),
                    None => r matches Ok(c) && source matches ConfigSource::Parsed(raw) && c@
                        == raw.settings(home@),
                },
            },
    {
        match source {
            Some(source) => Config::load(source, path, home),
            None => Ok(Config::default(home)),
        }
    }
}

/// The built-in settings.
pub open spec fn default_settings(home: Seq<char>) -> Settings {
    Settings {
        minimum_free_space_mb: 1024,
        microphone: "default"@,
        system_output: "default"@,
        source: CaptureSource::Both,
        retain_audio: false,
        provider: ProviderKind::Voxtype,
        model: "configured"@,
        max_concurrent_jobs: 1,
        languages: Seq::empty(),
        whisper_executable: tilde_expanded("/usr/local/bin/whisper-cli"@, home),
        whisper_model: tilde_expanded(
            "~/.local/share/voxtype-meeting-service/models/ggml-large-v3-turbo.bin"@,
            home,
        ),
        omit_single_source_headers: true,
    }
}

impl Config {
    /// The built-in settings, for a user with this home directory.
    pub fn default(home: &str) -> (r: Config)
        ensures
            r@ == default_settings(home@),
    {
        let languages: Vec<String> = Vec::new();
        assert(views(languages@) =~= Seq::empty());
        Config {
            general: GeneralConfig { minimum_free_space_mb: default_minimum_free_space_mb() },
            audio: AudioConfig {
                microphone: default_device(),
                system_output: default_device(),
                source: CaptureSource::Both,
                retain_audio: false,
            },
            transcription: TranscriptionConfig {
                provider: ProviderKind::Voxtype,
                model: default_model(),
                max_concurrent_jobs: default_max_concurrent_jobs(),
                languages,
                whisper_cpp: WhisperCppConfig {
                    executable: expand_tilde(default_whisper_executable().as_str(), home),
                    model: expand_tilde(default_whisper_model().as_str(), home),
                },
            },
            transcript: TranscriptConfig {
                omit_single_source_headers: default_omit_single_source_headers(),
            },
        }
    }

    pub open spec fn model_text(self, provider: ProviderKind) -> Seq<char> {
        match provider {
            ProviderKind::Voxtype | ProviderKind::Openai => self@.model,
            ProviderKind::WhisperCpp => self@.whisper_model,
        }
    }

    /// The model that jobs of this provider use.
    pub fn model_for_provider(&self, provider: ProviderKind) -> (r: String)
        ensures
            r@ == self.model_text(provider),
    {
        match provider {
            ProviderKind::Voxtype | ProviderKind::Openai => self.transcription.model.clone(),
            ProviderKind::WhisperCpp => self.transcription.whisper_cpp.model.clone(),
        }
    }
}

/// An empty file of settings stands for the built-in settings.
pub proof fn law_defaults_are_accepted(raw: RawConfig, home: Seq<char>)
    requires
        raw.general.minimum_free_space_mb == 1024,
        raw.audio.microphone@ == "default"@,
        raw.audio.system_output@ == "default"@,
        raw.audio.source@ == "both"@,
        !raw.audio.retain_audio,
        raw.transcription.provider@ == "voxtype"@,
        raw.transcription.model@ == "configured"@,
        raw.transcription.max_concurrent_jobs == 1,
        raw.transcription.languages is None,
        raw.transcription.whisper_cpp.executable@ == "/usr/local/bin/whisper-cli"@,
        raw.transcription.whisper_cpp.model@
            == "~/.local/share/voxtype-meeting-service/models/ggml-large-v3-turbo.bin"@,
        raw.transcript.omit_single_source_headers,
    ensures
        raw.error() is None,
        raw.settings(home) == default_settings(home),
{
    law_source_names_round_trip(CaptureSource::Both);
    law_provider_names_round_trip(ProviderKind::Voxtype);
}

/// Whether settings are among those that can be in force: positive limits, languages
/// in their normal form, and a provider that can be chosen and takes them.
pub open spec fn settings_valid(s: Settings) -> bool {
    &&& s.minimum_free_space_mb > 0
    &&& s.max_concurrent_jobs > 0
    &&& s.provider != ProviderKind::Openai
    &&& first_language_error(s.languages) is None
    &&& codes_of(s.languages) == s.languages
    &&& !s.languages.contains("auto"@)
    &&& language_conflict(s.provider, s.languages) is None
}

proof fn lemma_code_is_fixed(v: Seq<char>)
    requires
        language_error(v) is None,
    ensures
        code_of(code_of(v)) == code_of(v),
        language_error(code_of(v)) is None,
{
    let c = code_of(v);
    assert forall|i: int| 0 <= i < c.len() implies !text::is_white(#[trigger] c[i]) && text::lower_char(
        c[i],
    ) == c[i] by {
        assert(is_code_char(c[i]));
        assert(c[i] == text::lower_char(trimmed(v)[i]));
    }
    text::lemma_trimmed_fixed(c);
    assert(lowered(c) =~= c);
}

proof fn lemma_codes_are_fixed(values: Seq<Seq<char>>)
    requires
        first_language_error(values) is None,
    ensures
        first_language_error(codes_of(values)) is None,
        codes_of(codes_of(values)) == codes_of(values),
    decreases values.len(),
{
    if values.len() > 0 {
        lemma_codes_are_fixed(values.drop_last());
        lemma_code_is_fixed(values.last());
        assert(codes_of(values).drop_last() =~= codes_of(values.drop_last()));
        assert(codes_of(values).last() == code_of(values.last()));
        let a = codes_of(codes_of(values));
        assert(a.drop_last() =~= codes_of(codes_of(values.drop_last())));
        assert(a =~= a.drop_last().push(a.last()));
        assert(codes_of(values) =~= codes_of(values).drop_last().push(codes_of(values).last()));
    }
}

/// Languages in their normal form stay as they are when they are read again.
pub proof fn law_normal_languages_are_fixed(raw: Option<Seq<Seq<char>>>)
    ensures
        languages_named(raw) matches Ok(codes) ==> {
            &&& languages_named(Some(codes)) == Ok::<Seq<Seq<char>>, Seq<char>>(codes)
            &&& first_language_error(codes) is None
            &&& codes_of(codes) == codes
            &&& !codes.contains("auto"@)
        },
{
    if let Ok(codes) = languages_named(raw) {
        if codes.len() == 0 {
            assert(codes =~= Seq::empty());
            assert(codes_of(codes) =~= Seq::empty());
        } else {
            lemma_codes_are_fixed(raw->0);
        }
    }
}

/// Settings that were read from a file can be in force.
pub proof fn law_accepted_settings_are_valid(raw: RawConfig, home: Seq<char>)
    requires
        raw.error() is None,
    ensures
        settings_valid(raw.settings(home)),
{
    law_normal_languages_are_fixed(views_of_option(raw.transcription.languages));
}

#[derive(Debug, Default)]
pub struct ConfigPatch {
    pub general: Option<GeneralPatch>,
    pub audio: Option<AudioPatch>,
    pub transcription: Option<TranscriptionPatch>,
    pub transcript: Option<TranscriptPatch>,
}

#[derive(Debug, Default)]
pub struct GeneralPatch {
    pub minimum_free_space_mb: Option<u64>,
}

#[derive(Debug, Default)]
pub struct AudioPatch {
    pub microphone: Option<String>,
    pub system_output: Option<String>,
    pub source: Option<String>,
    pub retain_audio: Option<bool>,
}

#[derive(Debug, Default)]
pub struct TranscriptionPatch {
    pub provider: Option<String>,
    pub model: Option<String>,
    pub max_concurrent_jobs: Option<u32>,
    pub languages: Option<Vec<String>>,
    pub whisper_cpp: Option<WhisperPatch>,
}

#[derive(Debug, Default)]
pub struct WhisperPatch {
    pub executable: Option<String>,
    pub model: Option<String>,
}

#[derive(Debug, Default)]
pub struct TranscriptPatch {
    pub omit_single_source_headers: Option<bool>,
}

/// The values that a patch sets.
pub struct Changes {
    pub minimum_free_space_mb: Option<u64>,
    pub microphone: Option<Seq<char>>,
    pub system_output: Option<Seq<char>>,
    pub source: Option<Seq<char>>,
    pub retain_audio: Option<bool>,
    pub provider: Option<Seq<char>>,
    pub model: Option<Seq<char>>,
    pub max_concurrent_jobs: Option<u32>,
    pub languages: Option<Seq<Seq<char>>>,
    pub whisper_executable: Option<Seq<char>>,
    pub whisper_model: Option<Seq<char>>,
    pub omit_single_source_headers: Option<bool>,
}

impl View for ConfigPatch {
    type V = Changes;

    open spec fn view(&self) -> Changes {
        Changes {
            minimum_free_space_mb: match self.general {
                Some(g) => g.minimum_free_space_mb,
                None => None,
            },
            microphone: match self.audio {
                Some(a) => text_of(a.microphone),
                None => None,
            },
            system_output: match self.audio {
                Some(a) => text_of(a.system_output),
                None => None,
            },
            source: match self.audio {
                Some(a) => text_of(a.source),
                None => None,
            },
            retain_audio: match self.audio {
                Some(a) => a.retain_audio,
                None => None,
            },
            provider: match self.transcription {
                Some(t) => text_of(t.provider),
                None => None,
            },
            model: match self.transcription {
                Some(t) => text_of(t.model),
                None => None,
            },
            max_concurrent_jobs: match self.transcription {
                Some(t) => t.max_concurrent_jobs,
                None => None,
            },
            languages: match self.transcription {
                Some(t) => views_of_option(t.languages),
                None => None,
            },
            whisper_executable: match self.transcription {
                Some(t) => match t.whisper_cpp {
                    Some(w) => text_of(w.executable),
                    None => None,
                },
                None => None,
            },
            whisper_model: match self.transcription {
                Some(t) => match t.whisper_cpp {
                    Some(w) => text_of(w.model),
                    None => None,
                },
                None => None,
            },
            omit_single_source_headers: match self.transcript {
                Some(t) => t.omit_single_source_headers,
                None => None,
            },
        }
    }
}

impl Changes {
    /// The changed settings, where no change is refused.
    pub open spec fn applied(self, base: Settings, home: Seq<char>) -> Settings {
        Settings {
            minimum_free_space_mb: self.minimum_free_space_mb.unwrap_or(base.minimum_free_space_mb),
            microphone: self.microphone.unwrap_or(base.microphone),
            system_output: self.system_output.unwrap_or(base.system_output),
            source: match self.source {
                Some(s) => source_named(s)->Ok_0,
                None => base.source,
            },
            retain_audio: self.retain_audio.unwrap_or(base.retain_audio),
            provider: match self.provider {
                Some(p) => provider_named(p)->Ok_0,
                None => base.provider,
            },
            model: self.model.unwrap_or(base.model),
            max_concurrent_jobs: self.max_concurrent_jobs.unwrap_or(base.max_concurrent_jobs),
            languages: match self.languages {
                Some(l) => languages_named(Some(l))->Ok_0,
                None => base.languages,
            },
            whisper_executable: match self.whisper_executable {
                Some(p) => tilde_expanded(p, home),
                None => base.whisper_executable,
            },
            whisper_model: match self.whisper_model {
                Some(p) => tilde_expanded(p, home),
                None => base.whisper_model,
            },
            omit_single_source_headers: self.omit_single_source_headers.unwrap_or(
                base.omit_single_source_headers,
            ),
        }
    }

    /// Why the changes are refused; the first reason counts.
    pub open spec fn error(self, base: Settings, home: Seq<char>) -> Option<Seq<char>> {
        let next = self.applied(base, home);
        if self.minimum_free_space_mb matches Some(mb) && mb < 256 {
            Some("minimum_free_space_mb must be at least 256"@)
        } else if self.source matches Some(s) && source_named(s) is Err {
            Some(source_named(self.source->0)->Err_0)
        } else if self.provider matches Some(p) && provider_named(p) is Err {
            Some(provider_named(self.provider->0)->Err_0)
        } else if self.model matches Some(m) && is_blank(m) {
            Some("model must not be empty"@)
        } else if self.max_concurrent_jobs matches Some(jobs) && !(1 <= jobs <= 8) {
            Some("max_concurrent_jobs must be between 1 and 8"@)
        } else if self.languages is Some && languages_named(self.languages) is Err {
            Some(languages_named(self.languages)->Err_0)
        } else {
            language_conflict(next.provider, next.languages)
        }
    }
}

fn chosen(change: Option<String>, base: &String) -> (r: String)
    ensures
        r@ == text_of(change).unwrap_or(base@),
{
    match change {
        Some(value) => value,
        None => base.clone(),
    }
}

fn chosen_path(change: Option<String>, base: &String, home: &str) -> (r: String)
    ensures
        r@ == match change {
            Some(path) => tilde_expanded(path@, home@),
            None => base@,
        },
{
    match change {
        Some(path) => expand_tilde(path.as_str(), home),
        None => base.clone(),
    }
}

fn patched_general(base: &GeneralConfig, patch: Option<GeneralPatch>) -> (r: Result<GeneralConfig>)
    ensures
        match patch {
            Some(g) => match g.minimum_free_space_mb {
                Some(mb) => if mb < 256 {
                    fails(r, ErrorKind::Config, "minimum_free_space_mb must be at least 256"@)
                } else {
                    r matches Ok(c) && c.minimum_free_space_mb == mb
                },
                None => r matches Ok(c) && c.minimum_free_space_mb == base.minimum_free_space_mb,
            },
            None => r matches Ok(c) && c.minimum_free_space_mb == base.minimum_free_space_mb,
        },
{
    let change = match patch {
        Some(general) => general.minimum_free_space_mb,
        None => None,
    };
    match change {
        Some(mb) => if mb < 256 {
            Err(AppError::config("minimum_free_space_mb must be at least 256"))
        } else {
            Ok(GeneralConfig { minimum_free_space_mb: mb })
        },
        None => Ok(GeneralConfig { minimum_free_space_mb: base.minimum_free_space_mb }),
    }
}

fn patched_source(base: CaptureSource, change: Option<String>) -> (r: Result<CaptureSource>)
    ensures
        match text_of(change) {
            Some(s) => match source_named(s) {
                Ok(source) => r matches Ok(k) && k == source,
                Err(message) => fails(r, ErrorKind::Config, message),
            },
            None => r matches Ok(k) && k == base,
        },
{
    match change {
        Some(s) => CaptureSource::parse(s.as_str()),
        None => Ok(base),
    }
}

fn patched_audio(base: &AudioConfig, patch: AudioPatch) -> (r: Result<AudioConfig>)
    ensures
        match text_of(patch.source) {
            Some(s) if source_named(s) is Err => fails(
                r,
                ErrorKind::Config,
                source_named(s)->Err_0,
            ),
            _ => {
                &&& r matches Ok(c)
                &&& c.microphone@ == text_of(patch.microphone).unwrap_or(base.microphone@)
                &&& c.system_output@ == text_of(patch.system_output).unwrap_or(base.system_output@)
                &&& c.source == match text_of(patch.source) {
                    Some(s) => source_named(s)->Ok_0,
                    None => base.source,
                }
                &&& c.retain_audio == patch.retain_audio.unwrap_or(base.retain_audio)
            },
        },
{
    match patched_source(base.source, patch.source) {
        Err(e) => Err(e),
        Ok(source) => Ok(
            AudioConfig {
                microphone: chosen(patch.microphone, &base.microphone),
                system_output: chosen(patch.system_output, &base.system_output),
                source,
                retain_audio: patch.retain_audio.unwrap_or(base.retain_audio),
            },
        ),
    }
}

fn patched_provider(base: ProviderKind, change: Option<String>) -> (r: Result<ProviderKind>)
    ensures
        match text_of(change) {
            Some(s) => match provider_named(s) {
                Ok(kind) => r matches Ok(k) && k == kind,
                Err(message) => fails(r, ErrorKind::Config, message),
            },
            None => r matches Ok(k) && k == base,
        },
{
    match change {
        Some(s) => ProviderKind::parse(s.as_str()),
        None => Ok(base),
    }
}

fn patched_model(base: &String, change: Option<String>) -> (r: Result<String>)
    ensures
        match text_of(change) {
            Some(m) if is_blank(m) => fails(r, ErrorKind::Config, "model must not be empty"@),
            _ => r matches Ok(m) && m@ == text_of(change).unwrap_or(base@),
        },
{
    match change {
        Some(model) => if text::blank(model.as_str()) {
            Err(AppError::config("model must not be empty"))
        } else {
            Ok(model)
        },
        None => Ok(base.clone()),
    }
}

fn patched_jobs(base: u32, change: Option<u32>) -> (r: Result<u32>)
    ensures
        match change {
            Some(jobs) if !(1 <= jobs <= 8) => fails(
                r,
                ErrorKind::Config,
                "max_concurrent_jobs must be between 1 and 8"@,
            ),
            _ => r matches Ok(n) && n == change.unwrap_or(base),
        },
{
    match change {
        Some(jobs) => if 1 <= jobs && jobs <= 8 {
            Ok(jobs)
        } else {
            Err(AppError::config("max_concurrent_jobs must be between 1 and 8"))
        },
        None => Ok(base),
    }
}

fn patched_languages(base: &Vec<String>, change: Option<Vec<String>>) -> (r: Result<Vec<String>>)
    ensures
        match views_of_option(change) {
            Some(values) => match languages_named(Some(values)) {
                Ok(codes) => r matches Ok(v) && views(v@) == codes,
                Err(message) => fails(r, ErrorKind::Config, message),
            },
            None => r matches Ok(v) && views(v@) == views(base@),
        },
{
    match change {
        Some(values) => normalize_languages(Some(values)),
        None => Ok(copied_strings(base)),
    }
}

fn patched_transcription(
    base: &TranscriptionConfig,
    patch: TranscriptionPatch,
    home: &str,
) -> (r: Result<TranscriptionConfig>)
    ensures
        match (text_of(patch.provider), text_of(patch.model)) {
            (Some(p), _) if provider_named(p) is Err => fails(
                r,
                ErrorKind::Config,
                provider_named(p)->Err_0,
            ),
            (_, Some(m)) if is_blank(m) => fails(
                r,
                ErrorKind::Config,
                "model must not be empty"@,
            ),
            _ => match (patch.max_concurrent_jobs, languages_named(views_of_option(patch.languages))) {
                (Some(jobs), _) if !(1 <= jobs <= 8) => fails(
                    r,
                    ErrorKind::Config,
                    "max_concurrent_jobs must be between 1 and 8"@,
                ),
                (_, Err(message)) => fails(r, ErrorKind::Config, message),
                (_, Ok(codes)) => {
                    &&& r matches Ok(c)
                    &&& c.provider == match text_of(patch.provider) {
                        Some(p) => provider_named(p)->Ok_0,
                        None => base.provider,
                    }
                    &&& c.model@ == text_of(patch.model).unwrap_or(base.model@)
                    &&& c.max_concurrent_jobs == patch.max_concurrent_jobs.unwrap_or(
                        base.max_concurrent_jobs,
                    )
                    &&& views(c.languages@) == (if patch.languages is Some {
                        codes
                    } else {
                        views(base.languages@)
                    })
                    &&& c.whisper_cpp.executable@ == match patch.whisper_cpp {
                        Some(w) => match text_of(w.executable) {
                            Some(path) => tilde_expanded(path, home@),
                            None => base.whisper_cpp.executable@,
                        },
                        None => base.whisper_cpp.executable@,
                    }
                    &&& c.whisper_cpp.model@ == match patch.whisper_cpp {
                        Some(w) => match text_of(w.model) {
                            Some(path) => tilde_expanded(path, home@),
                            None => base.whisper_cpp.model@,
                        },
                        None => base.whisper_cpp.model@,
                    }
                },
            },
        },
{
    let provider = match patched_provider(base.provider, patch.provider) {
        Ok(provider) => provider,
        Err(e) => return Err(e),
    };
    let model = match patched_model(&base.model, patch.model) {
        Ok(model) => model,
        Err(e) => return Err(e),
    };
    let max_concurrent_jobs = match patched_jobs(
        base.max_concurrent_jobs,
        patch.max_concurrent_jobs,
    ) {
        Ok(jobs) => jobs,
        Err(e) => return Err(e),
    };
    let languages = match patched_languages(&base.languages, patch.languages) {
        Ok(languages) => languages,
        Err(e) => return Err(e),
    };
    let whisper = match patch.whisper_cpp {
        Some(whisper) => whisper,
        None => WhisperPatch { executable: None, model: None },
    };
    Ok(
        TranscriptionConfig {
            provider,
            model,
            max_concurrent_jobs,
            languages,
            whisper_cpp: WhisperCppConfig {
                executable: chosen_path(
                    whisper.executable,
                    &base.whisper_cpp.executable,
                    home,
                ),
                model: chosen_path(whisper.model, &base.whisper_cpp.model, home),
            },
        },
    )
}

/// The settings with the changes of a patch. What the patch leaves out stays.
pub fn apply_patch(base: &Config, patch: ConfigPatch, home: &str) -> (r: Result<Config>)
    ensures
        match patch@.error(base@, home@) {
            Some(message) => fails(r, ErrorKind::Config, message),
            None => r matches Ok(c) && c@ == patch@.applied(base@, home@),
        },
{
    let general = match patched_general(&base.general, patch.general) {
        Ok(general) => general,
        Err(e) => return Err(e),
    };
    let audio_patch = match patch.audio {
        Some(audio) => audio,
        None => AudioPatch {
            microphone: None,
            system_output: None,
            source: None,
            retain_audio: None,
        },
    };
    let audio = match patched_audio(&base.audio, audio_patch) {
        Ok(audio) => audio,
        Err(e) => return Err(e),
    };
    let transcription_patch = match patch.transcription {
        Some(transcription) => transcription,
        None => TranscriptionPatch {
            provider: None,
            model: None,
            max_concurrent_jobs: None,
            languages: None,
            whisper_cpp: None,
        },
    };
    let transcription = match patched_transcription(
        &base.transcription,
        transcription_patch,
        home,
    ) {
        Ok(transcription) => transcription,
        Err(e) => return Err(e),
    };
    let omit = match patch.transcript {
        Some(transcript) => transcript.omit_single_source_headers,
        None => None,
    };
    let next = Config {
        general,
        audio,
        transcription,
        transcript: TranscriptConfig {
            omit_single_source_headers: omit.unwrap_or(
                base.transcript.omit_single_source_headers,
            ),
        },
    };
    assert(next@ =~= patch@.applied(base@, home@));
    match assert_languages_compatible(
        next.transcription.provider,
        next.transcription.model.as_str(),
        &next.transcription.languages,
    ) {
        Ok(()) => Ok(next),
        Err(e) => Err(e),
    }
}

/// Why a whisper.cpp setup cannot be used, given which of its files are there.
pub open spec fn whisper_files_error(
    s: Settings,
    executable_exists: bool,
    model_is_file: bool,
) -> Option<Seq<char>> {
    if s.provider != ProviderKind::WhisperCpp {
        None
    } else if !executable_exists {
        Some("whisper-cli was not found at "@ + s.whisper_executable)
    } else if !model_is_file {
        Some("whisper.cpp model was not found at "@ + s.whisper_model)
    } else {
        None
    }
}

/// Whether the files that the settings name are there, as far as they are needed.
pub fn check_whisper_files(
    config: &Config,
    executable_exists: bool,
    model_is_file: bool,
) -> (r: Result<()>)
    ensures
        match whisper_files_error(config@, executable_exists, model_is_file) {
            None => r is Ok,
            Some(message) => fails(r, ErrorKind::Config, message),
        },
{
    if config.transcription.provider == ProviderKind::WhisperCpp {
        if !executable_exists {
            let message = text::concat2(
                "whisper-cli was not found at ",
                config.transcription.whisper_cpp.executable.as_str(),
            );
            return Err(AppError::config(message.as_str()));
        }
        if !model_is_file {
            let message = text::concat2(
                "whisper.cpp model was not found at ",
                config.transcription.whisper_cpp.model.as_str(),
            );
            return Err(AppError::config(message.as_str()));
        }
    }
    Ok(())
}

/// A patch that sets nothing changes nothing.
pub proof fn law_empty_patch_changes_nothing(changes: Changes, base: Settings, home: Seq<char>)
    requires
        settings_valid(base),
        changes.minimum_free_space_mb is None,
        changes.microphone is None,
        changes.system_output is None,
        changes.source is None,
        changes.retain_audio is None,
        changes.provider is None,
        changes.model is None,
        changes.max_concurrent_jobs is None,
        changes.languages is None,
        changes.whisper_executable is None,
        changes.whisper_model is None,
        changes.omit_single_source_headers is None,
    ensures
        changes.error(base, home) is None,
        changes.applied(base, home) == base,
{
}

/// A patch that is accepted leaves valid settings.
pub proof fn law_patched_settings_are_valid(changes: Changes, base: Settings, home: Seq<char>)
    requires
        settings_valid(base),
        changes.error(base, home) is None,
    ensures
        settings_valid(changes.applied(base, home)),
{
    law_normal_languages_are_fixed(changes.languages);
}

/// Applying a patch twice is applying it once.
pub proof fn law_patching_twice_is_patching_once(changes: Changes, base: Settings, home: Seq<char>)
    requires
        changes.error(base, home) is None,
    ensures
        changes.error(changes.applied(base, home), home) is None,
        changes.applied(changes.applied(base, home), home) == changes.applied(base, home),
{
}

/// The setting that a refusal is about.
pub open spec fn field_of(message: Seq<char>) -> Option<Seq<char>> {
    if text::has_infix(message, "minimum_free_space_mb"@) {
        Some("general.minimum_free_space_mb"@)
    } else if text::has_infix(message, "max_concurrent_jobs"@) {
        Some("transcription.max_concurrent_jobs"@)
    } else if text::has_infix(message, "model must not be empty"@) {
        Some("transcription.model"@)
    } else if text::has_infix(message, "whisper-cli"@) {
        Some("transcription.whisper_cpp.executable"@)
    } else if text::has_infix(message, "whisper.cpp model"@) {
        Some("transcription.whisper_cpp.model"@)
    } else if text::has_infix(message, "provider"@) {
        Some("transcription.provider"@)
    } else {
        None
    }
}

pub fn validation_field(message: &str) -> (r: Option<&'static str>)
    ensures
        match r {
            Some(field) => field_of(message@) == Some(field@),
            None => field_of(message@) is None,
        },
{
    if text::contains(message, "minimum_free_space_mb") {
        Some("general.minimum_free_space_mb")
    } else if text::contains(message, "max_concurrent_jobs") {
        Some("transcription.max_concurrent_jobs")
    } else if text::contains(message, "model must not be empty") {
        Some("transcription.model")
    } else if text::contains(message, "whisper-cli") {
        Some("transcription.whisper_cpp.executable")
    } else if text::contains(message, "whisper.cpp model") {
        Some("transcription.whisper_cpp.model")
    } else if text::contains(message, "provider") {
        Some("transcription.provider")
    } else {
        None
    }
}

pub fn escape_toml(value: &str) -> (r: String)
    ensures
        r@ == toml_escaped(value@),
{
    let v = text::chars_of(value);
    let mut r = String::new();
    let mut i: usize = 0;
    while i < v.len()
        invariant
            i <= v.len(),
            r@ == toml_escaped(v@.take(i as int)),
        decreases v.len() - i,
    {
        let c = v[i];
        let ghost before = r@;
        if c == '\\' || c == '"' {
            r.push('\\');
        }
        r.push(c);
        i += 1;
        proof {
            let now = v@.take(i as int);
            assert(now.drop_last() =~= v@.take(i - 1));
            assert(now.last() == c);
            assert(r@ =~= toml_escaped(now));
        }
    }
    assert(v@.take(i as int) =~= v@);
    r
}

/// What a configuration file says of itself.
pub open spec fn file_comments() -> Seq<Seq<char>> {
    seq![
        "Voxtype Meeting Service configuration"@,
        "See docs/architecture.md for the full schema."@,
    ]
}

pub open spec fn general_section(s: Settings) -> Section {
    Section {
        path: seq!["general"@],
        fields: seq![("minimum_free_space_mb"@, Item::Number(s.minimum_free_space_mb as nat))],
    }
}

pub open spec fn audio_section(s: Settings) -> Section {
    Section {
        path: seq!["audio"@],
        fields: seq![
            ("microphone"@, Item::Text(s.microphone)),
            ("system_output"@, Item::Text(s.system_output)),
            ("source"@, Item::Text(s.source.name())),
            ("retain_audio"@, Item::Flag(s.retain_audio)),
        ],
    }
}

/// The section of the transcription; languages are left out where there are none.
pub open spec fn transcription_section(s: Settings) -> Section {
    let fields = seq![
        ("provider"@, Item::Text(s.provider.name())),
        ("model"@, Item::Text(s.model)),
        ("max_concurrent_jobs"@, Item::Number(s.max_concurrent_jobs as nat)),
    ];
    Section {
        path: seq!["transcription"@],
        fields: if s.languages.len() == 0 {
            fields
        } else {
            fields.push(("languages"@, Item::Texts(s.languages)))
        },
    }
}

pub open spec fn whisper_section(s: Settings) -> Section {
    Section {
        path: seq!["transcription"@, "whisper_cpp"@],
        fields: seq![
            ("executable"@, Item::Text(s.whisper_executable)),
            ("model"@, Item::Text(s.whisper_model)),
        ],
    }
}

pub open spec fn transcript_section(s: Settings) -> Section {
    Section {
        path: seq!["transcript"@],
        fields: seq![("omit_single_source_headers"@, Item::Flag(s.omit_single_source_headers))],
    }
}

/// The sections of a configuration file.
pub open spec fn settings_sections(s: Settings) -> Seq<Section> {
    seq![
        general_section(s),
        audio_section(s),
        transcription_section(s),
        whisper_section(s),
        transcript_section(s),
    ]
}

/// The settings as the text of a configuration file.
pub open spec fn toml_text(s: Settings) -> Seq<char> {
    document_text(file_comments(), settings_sections(s))
}

pub fn to_toml(config: &Config) -> (r: String)
    ensures
        r@ == toml_text(config@),
{
    let mut w = Writer::new();
    w.comment("Voxtype Meeting Service configuration");
    w.comment("See docs/architecture.md for the full schema.");
    w.section("general");
    w.number_field("minimum_free_space_mb", config.general.minimum_free_space_mb);
    w.section("audio");
    w.text_field("microphone", config.audio.microphone.as_str());
    w.text_field("system_output", config.audio.system_output.as_str());
    w.text_field("source", config.audio.source.as_str());
    w.flag_field("retain_audio", config.audio.retain_audio);
    w.section("transcription");
    w.text_field("provider", config.transcription.provider.as_str());
    w.text_field("model", config.transcription.model.as_str());
    w.number_field("max_concurrent_jobs", config.transcription.max_concurrent_jobs as u64);
    if config.transcription.languages.len() > 0 {
        w.texts_field("languages", &config.transcription.languages);
    }
    w.inner_section("transcription", "whisper_cpp");
    w.text_field("executable", config.transcription.whisper_cpp.executable.as_str());
    w.text_field("model", config.transcription.whisper_cpp.model.as_str());
    w.section("transcript");
    w.flag_field("omit_single_source_headers", config.transcript.omit_single_source_headers);
    assert(w.comments() =~= file_comments());
    proof {
        let s = config@;
        let all = w.sections();
        assert(all.len() == 5);
        assert(all[0].fields =~= general_section(s).fields);
        assert(all[1].fields =~= audio_section(s).fields);
        assert(all[2].fields =~= transcription_section(s).fields);
        assert(all[3].fields =~= whisper_section(s).fields);
        assert(all[4].fields =~= transcript_section(s).fields);
        assert(all =~= settings_sections(s));
    }
    w.finish()
}

/// Whether a field was read: what stands there, or its default where nothing does.
pub open spec fn is_read(found: Option<TreeModel>, value: TreeModel, default: TreeModel) -> bool {
    match found {
        Some(there) => value == there,
        None => value == default,
    }
}

pub open spec fn number(n: nat) -> TreeModel {
    TreeModel::Number(text::decimal(n))
}

/// Whether settings were read off a value: each is what the value has under its name, or
/// the default.
pub open spec fn is_read_as(raw: RawConfig, t: TreeModel) -> bool {
    let general = seq!["general"@];
    let audio = seq!["audio"@];
    let transcription = seq!["transcription"@];
    let whisper = seq!["transcription"@, "whisper_cpp"@];
    let transcript = seq!["transcript"@];
    &&& is_read(
        field_at(t, general, "minimum_free_space_mb"@),
        number(raw.general.minimum_free_space_mb as nat),
        number(1024),
    )
    &&& is_read(
        field_at(t, audio, "microphone"@),
        TreeModel::Text(raw.audio.microphone@),
        TreeModel::Text("default"@),
    )
    &&& is_read(
        field_at(t, audio, "system_output"@),
        TreeModel::Text(raw.audio.system_output@),
        TreeModel::Text("default"@),
    )
    &&& is_read(
        field_at(t, audio, "source"@),
        TreeModel::Text(raw.audio.source@),
        TreeModel::Text("both"@),
    )
    &&& is_read(
        field_at(t, audio, "retain_audio"@),
        TreeModel::Bool(raw.audio.retain_audio),
        TreeModel::Bool(false),
    )
    &&& is_read(
        field_at(t, transcription, "provider"@),
        TreeModel::Text(raw.transcription.provider@),
        TreeModel::Text("voxtype"@),
    )
    &&& is_read(
        field_at(t, transcription, "model"@),
        TreeModel::Text(raw.transcription.model@),
        TreeModel::Text("configured"@),
    )
    &&& is_read(
        field_at(t, transcription, "max_concurrent_jobs"@),
        number(raw.transcription.max_concurrent_jobs as nat),
        number(1),
    )
    &&& match field_at(t, transcription, "languages"@) {
        Some(found) => views_of_option(raw.transcription.languages) matches Some(languages)
            && found == item_model(Item::Texts(languages)),
        None => raw.transcription.languages is None,
    }
    &&& is_read(
        field_at(t, whisper, "executable"@),
        TreeModel::Text(raw.transcription.whisper_cpp.executable@),
        TreeModel::Text("/usr/local/bin/whisper-cli"@),
    )
    &&& is_read(
        field_at(t, whisper, "model"@),
        TreeModel::Text(raw.transcription.whisper_cpp.model@),
        TreeModel::Text("~/.local/share/voxtype-meeting-service/models/ggml-large-v3-turbo.bin"@),
    )
    &&& is_read(
        field_at(t, transcript, "omit_single_source_headers"@),
        TreeModel::Bool(raw.transcript.omit_single_source_headers),
        TreeModel::Bool(true),
    )
}

/// Whether settings can be written as TOML: no text holds a control character but a tab,
/// and the free space fits the integers of TOML.
pub open spec fn is_writable(s: Settings) -> bool {
    &&& is_printable(s.microphone)
    &&& is_printable(s.system_output)
    &&& is_printable(s.model)
    &&& is_printable(s.whisper_executable)
    &&& is_printable(s.whisper_model)
    &&& s.minimum_free_space_mb <= i64::MAX
}

proof fn lemma_section_names()
    ensures
        is_name("general"@) && "general"@.len() == 7,
        is_name("audio"@) && "audio"@.len() == 5,
        is_name("transcription"@) && "transcription"@.len() == 13,
        is_name("whisper_cpp"@) && "whisper_cpp"@.len() == 11,
        is_name("transcript"@) && "transcript"@.len() == 10,
{
    reveal_strlit("general");
    reveal_strlit("audio");
    reveal_strlit("transcription");
    reveal_strlit("whisper_cpp");
    reveal_strlit("transcript");
}

proof fn lemma_field_names()
    ensures
        is_name("minimum_free_space_mb"@) && "minimum_free_space_mb"@.len() == 21,
        is_name("microphone"@) && "microphone"@.len() == 10,
        is_name("system_output"@) && "system_output"@.len() == 13,
        is_name("source"@) && "source"@.len() == 6,
        is_name("retain_audio"@) && "retain_audio"@.len() == 12,
        is_name("provider"@) && "provider"@.len() == 8,
        is_name("model"@) && "model"@.len() == 5,
        is_name("max_concurrent_jobs"@) && "max_concurrent_jobs"@.len() == 19,
        is_name("languages"@) && "languages"@.len() == 9,
        is_name("executable"@) && "executable"@.len() == 10,
        is_name("omit_single_source_headers"@) && "omit_single_source_headers"@.len() == 26,
{
    reveal_strlit("minimum_free_space_mb");
    reveal_strlit("microphone");
    reveal_strlit("system_output");
    reveal_strlit("source");
    reveal_strlit("retain_audio");
    reveal_strlit("provider");
    reveal_strlit("model");
    reveal_strlit("max_concurrent_jobs");
    reveal_strlit("languages");
    reveal_strlit("executable");
    reveal_strlit("omit_single_source_headers");
}

proof fn lemma_choices_are_printable(source: CaptureSource, provider: ProviderKind)
    ensures
        is_printable(source.name()),
        is_printable(provider.name()),
{
    reveal_strlit("mic");
    reveal_strlit("system");
    reveal_strlit("both");
    reveal_strlit("voxtype");
    reveal_strlit("openai");
    reveal_strlit("whisper_cpp");
}

proof fn lemma_comments_are_printable()
    ensures
        forall|i: int| 0 <= i < file_comments().len() ==> is_printable(#[trigger] file_comments()[i]),
{
    reveal_strlit("Voxtype Meeting Service configuration");
    reveal_strlit("See docs/architecture.md for the full schema.");
}

proof fn lemma_languages_are_plain(languages: Seq<Seq<char>>)
    requires
        first_language_error(languages) is None,
        codes_of(languages) == languages,
    ensures
        is_plain_item(Item::Texts(languages)),
{
    assert forall|i: int| 0 <= i < languages.len() implies is_printable(#[trigger] languages[i])
        && needs_no_escape(languages[i]) by {
        lemma_accepted_language(languages, i);
        assert(codes_of(languages)[i] == code_of(languages[i]));
        assert forall|k: int| 0 <= k < languages[i].len() implies is_code_char(
            #[trigger] languages[i][k],
        ) by {}
    }
}

proof fn lemma_accepted_language(values: Seq<Seq<char>>, i: int)
    requires
        first_language_error(values) is None,
        0 <= i < values.len(),
    ensures
        language_error(values[i]) is None,
    decreases values.len(),
{
    if i < values.len() - 1 {
        lemma_accepted_language(values.drop_last(), i);
    }
}

proof fn lemma_settings_are_plain(s: Settings)
    requires
        settings_valid(s),
        is_writable(s),
    ensures
        is_plain_document(file_comments(), settings_sections(s)),
        !has_inside(settings_sections(s), seq!["transcription"@], "languages"@),
{
    lemma_section_names();
    lemma_field_names();
    lemma_choices_are_printable(s.source, s.provider);
    lemma_comments_are_printable();
    lemma_languages_are_plain(s.languages);
    let all = settings_sections(s);
    assert forall|path: Seq<Seq<char>>, name: Seq<char>| #[trigger]
        has_inside(all, path, name) implies path =~= seq!["transcription"@] && name
        == "whisper_cpp"@ || path.len() == 0 by {
        let i = choose|i: int| 0 <= i < all.len() && (#[trigger] all[i]).path == path.push(name);
        if path.len() > 0 {
            assert(all[i].path.len() >= 2);
            assert(i == 3);
            assert(all[3].path[0] == path[0] && all[3].path[1] == path.push(name).last());
        }
    }
    assert(is_plain_section(all, all[0]));
    assert(is_plain_section(all, all[1]));
    assert(is_plain_section(all, all[2]));
    assert(is_plain_section(all, all[3]));
    assert(is_plain_section(all, all[4]));
    assert forall|i: int, j: int|
        #![trigger all[i], all[j]]
        0 <= i < j < all.len() implies all[i].path != all[j].path by {
        assert(all[i].path.len() != all[j].path.len() || all[i].path[0].len()
            != all[j].path[0].len());
    }
}

/// Settings that are written to a file are read back from it: reading the text is no error,
/// and what it holds is accepted as the same settings. It takes texts without control
/// characters, free space within the integers of TOML, and whisper paths with no tilde that
/// stands for another path.
pub proof fn law_written_settings_are_read_back(
    s: Settings,
    parsed: std::result::Result<TreeModel, Seq<char>>,
    raw: RawConfig,
    home: Seq<char>,
)
    requires
        settings_valid(s),
        is_writable(s),
        tilde_expanded(s.whisper_executable, home) == s.whisper_executable,
        tilde_expanded(s.whisper_model, home) == s.whisper_model,
        is_reading(toml_text(s), parsed),
        parsed matches Ok(t) ==> is_read_as(raw, t),
    ensures
        parsed is Ok,
        raw.error() is None,
        raw.settings(home) == s,
{
    let comments = file_comments();
    let all = settings_sections(s);
    lemma_settings_are_plain(s);
    assert(toml_text(s) == document_text(comments, all));
    assert(parsed is Ok);
    let t = parsed->Ok_0;
    law_written_fields_are_read(comments, all, t, 0, 0);
    law_written_fields_are_read(comments, all, t, 1, 0);
    law_written_fields_are_read(comments, all, t, 1, 1);
    law_written_fields_are_read(comments, all, t, 1, 2);
    law_written_fields_are_read(comments, all, t, 1, 3);
    law_written_fields_are_read(comments, all, t, 2, 0);
    law_written_fields_are_read(comments, all, t, 2, 1);
    law_written_fields_are_read(comments, all, t, 2, 2);
    law_written_fields_are_read(comments, all, t, 3, 0);
    law_written_fields_are_read(comments, all, t, 3, 1);
    law_written_fields_are_read(comments, all, t, 4, 0);
    text::lemma_decimal_value(s.minimum_free_space_mb as nat);
    text::lemma_decimal_value(raw.general.minimum_free_space_mb as nat);
    text::lemma_decimal_value(s.max_concurrent_jobs as nat);
    text::lemma_decimal_value(raw.transcription.max_concurrent_jobs as nat);
    law_source_names_round_trip(s.source);
    law_provider_names_round_trip(s.provider);
    let languages = views_of_option(raw.transcription.languages);
    if s.languages.len() == 0 {
        lemma_field_names();
        law_unwritten_fields_are_not_read(comments, all, t, 2, "languages"@);
        assert(s.languages =~= Seq::empty());
    } else {
        law_written_fields_are_read(comments, all, t, 2, 3);
        let found = languages->0;
        let a = found.map_values(|c: Seq<char>| TreeModel::Text(c));
        let b = s.languages.map_values(|c: Seq<char>| TreeModel::Text(c));
        assert(a == b);
        assert forall|i: int| 0 <= i < found.len() implies found[i] == s.languages[i] by {
            assert(a[i] == b[i]);
        }
        assert(found =~= s.languages);
    }
    assert(raw.settings(home) == s);
}

/// Two values that are written alike are equal.
pub proof fn law_toml_escapes_are_distinct(a: Seq<char>, b: Seq<char>)
    requires
        toml_escaped(a) == toml_escaped(b),
    ensures
        a == b,
    decreases a.len(),
{
    lemma_escaped_len(a);
    lemma_escaped_len(b);
    if a.len() > 0 && b.len() > 0 {
        lemma_escape_ends(a);
        lemma_escape_ends(b);
        let ea = toml_escaped(a);
        let eb = toml_escaped(b);
        assert(a.last() == ea.last());
        assert(b.last() == eb.last());
        let k: int = if a.last() == '\\' || a.last() == '"' {
            2
        } else {
            1
        };
        assert(toml_escaped(a.drop_last()) =~= ea.take(ea.len() - k));
        assert(toml_escaped(b.drop_last()) =~= eb.take(eb.len() - k));
        law_toml_escapes_are_distinct(a.drop_last(), b.drop_last());
        assert(a =~= a.drop_last().push(a.last()));
        assert(b =~= b.drop_last().push(b.last()));
    } else {
        assert(a =~= b);
    }
}

proof fn lemma_escaped_len(s: Seq<char>)
    ensures
        s.len() <= toml_escaped(s).len(),
    decreases s.len(),
{
    if s.len() > 0 {
        lemma_escaped_len(s.drop_last());
    }
}

proof fn lemma_escape_ends(s: Seq<char>)
    requires
        s.len() > 0,
    ensures
        toml_escaped(s).len() > 0,
        toml_escaped(s).last() == s.last(),
{
}

/// The names of the capture sources and of the providers, and what is no such name.
pub proof fn law_choices_go_by_their_names(value: Seq<char>)
    ensures
        source_named(value) matches Ok(CaptureSource::Mic) <==> value == "mic"@,
        source_named(value) matches Ok(CaptureSource::System) <==> value == "system"@,
        source_named(value) matches Ok(CaptureSource::Both) <==> value == "both"@,
        provider_named(value) matches Ok(ProviderKind::Voxtype) <==> value == "voxtype"@,
        provider_named(value) matches Ok(ProviderKind::WhisperCpp) <==> value == "whisper_cpp"@,
        !(provider_named(value) matches Ok(ProviderKind::Openai)),
        provider_stored(value) matches Ok(ProviderKind::Openai) <==> value == "openai"@,
        provider_stored(value) matches Ok(ProviderKind::Voxtype) <==> value == "voxtype"@,
        provider_stored(value) matches Ok(ProviderKind::WhisperCpp) <==> value == "whisper_cpp"@,
        CaptureSource::Mic.name() == "mic"@,
        CaptureSource::System.name() == "system"@,
        CaptureSource::Both.name() == "both"@,
        ProviderKind::Voxtype.name() == "voxtype"@,
        ProviderKind::Openai.name() == "openai"@,
        ProviderKind::WhisperCpp.name() == "whisper_cpp"@,
{
    reveal_strlit("mic");
    reveal_strlit("system");
    reveal_strlit("both");
    reveal_strlit("voxtype");
    reveal_strlit("openai");
    reveal_strlit("whisper_cpp");
    assert("mic"@.len() == 3 && "system"@.len() == 6 && "both"@.len() == 4);
    assert("voxtype"@.len() == 7 && "openai"@.len() == 6 && "whisper_cpp"@.len() == 11);
}

/// A leading tilde stands for the home directory; every other path stays as it is.
pub proof fn law_a_tilde_is_the_home_directory(path: Seq<char>, home: Seq<char>)
    ensures
        path.len() == 0 || path[0] != '~' ==> tilde_expanded(path, home) == path,
        path.len() == 1 && path[0] == '~' ==> tilde_expanded(path, home) == home,
        path.len() > 1 && path[0] == '~' && path[1] != '/' ==> tilde_expanded(path, home) == path,
        path.len() > 2 && path[0] == '~' && path[1] == '/' && path[2] != '/' && home.len() > 0
            && home.last() != '/' ==> tilde_expanded(path, home) == home + path.skip(1),
{
    reveal_strlit("~");
    reveal_strlit("~/");
    reveal_strlit("/");
    assert("~"@.len() == 1 && "~"@[0] == '~');
    assert("~/"@.len() == 2 && "~/"@[0] == '~' && "~/"@[1] == '/');
    if path.len() > 0 && path[0] != '~' {
        assert(!text::has_prefix(path, "~/"@)) by {
            if path.len() >= 2 {
                assert(path.take(2)[0] == path[0]);
            }
        }
    }
    if path.len() == 1 && path[0] == '~' {
        assert(path =~= "~"@);
    }
    if path.len() > 1 && path[0] == '~' && path[1] != '/' {
        assert(path.take(2)[1] == path[1]);
    }
    if path.len() > 2 && path[0] == '~' && path[1] == '/' {
        assert(path.take(2) =~= "~/"@);
        assert(path.skip(2)[0] == path[2]);
        assert(home + "/"@ + path.skip(2) =~= home + path.skip(1));
    }
}

/// Whether a text is a language code as it is kept: small letters, digits and hyphens.
pub open spec fn is_kept_code(s: Seq<char>) -> bool {
    &&& s.len() > 0
    &&& forall|i: int|
        0 <= i < s.len() ==> ('a' <= #[trigger] s[i] <= 'z') || ('0' <= s[i] <= '9') || s[i] == '-'
}

proof fn lemma_kept_codes_stay(s: Seq<char>)
    requires
        is_kept_code(s),
    ensures
        code_of(s) == s,
        language_error(s) is None,
{
    assert forall|i: int| 0 <= i < s.len() implies !text::is_white(#[trigger] s[i])
        && text::lower_char(s[i]) == s[i] && is_code_char(s[i]) by {}
    text::lemma_trimmed_fixed(s);
    assert(lowered(s) =~= s);
}

proof fn lemma_all_kept_codes_stay(values: Seq<Seq<char>>)
    requires
        forall|i: int| 0 <= i < values.len() ==> is_kept_code(#[trigger] values[i]),
    ensures
        first_language_error(values) is None,
        codes_of(values) == values,
    decreases values.len(),
{
    if values.len() > 0 {
        lemma_all_kept_codes_stay(values.drop_last());
        lemma_kept_codes_stay(values.last());
    }
    assert forall|i: int| 0 <= i < values.len() implies codes_of(values)[i] == values[i] by {
        lemma_kept_codes_stay(values[i]);
    }
    assert(codes_of(values) =~= values);
}

proof fn lemma_refused_language(values: Seq<Seq<char>>)
    requires
        first_language_error(values) is Some,
    ensures
        exists|i: int| 0 <= i < values.len() && language_error(#[trigger] values[i]) is Some,
    decreases values.len(),
{
    if first_language_error(values.drop_last()) is Some {
        lemma_refused_language(values.drop_last());
        let i = choose|i: int|
            0 <= i < values.drop_last().len() && language_error(
                #[trigger] values.drop_last()[i],
            ) is Some;
        assert(values[i] == values.drop_last()[i]);
    } else {
        assert(values[values.len() - 1] == values.last());
    }
}

/// Languages are kept as small letters without space around them, one for each entry and
/// in order; `auto` alone, like nothing at all, leaves the language open. An entry that is
/// empty or holds anything but letters, digits and hyphens is refused, and so is `auto`
/// beside another code.
pub proof fn law_languages_are_kept_as_codes(values: Seq<Seq<char>>)
    ensures
        languages_named(None) == Ok::<Seq<Seq<char>>, Seq<char>>(Seq::empty()),
        (forall|i: int| 0 <= i < values.len() ==> is_kept_code(#[trigger] values[i]))
            && !values.contains("auto"@) ==> languages_named(Some(values)) == Ok::<
            Seq<Seq<char>>,
            Seq<char>,
        >(values),
        values == seq!["auto"@] ==> languages_named(Some(values)) == Ok::<
            Seq<Seq<char>>,
            Seq<char>,
        >(Seq::empty()),
        languages_named(Some(values)) is Err <==> {
            ||| exists|i: int|
                0 <= i < values.len() && !is_code(lowered(trimmed(#[trigger] values[i])))
            ||| values.len() > 1 && exists|i: int|
                0 <= i < values.len() && lowered(trimmed(#[trigger] values[i])) == "auto"@
        },
        languages_named(Some(values)) matches Ok(codes) ==> codes.len() == 0 || (codes.len()
            == values.len() && forall|i: int|
            0 <= i < codes.len() ==> #[trigger] codes[i] == lowered(trimmed(values[i]))),
{
    reveal_strlit("auto");
    assert(is_kept_code("auto"@));
    if forall|i: int| 0 <= i < values.len() ==> is_kept_code(#[trigger] values[i]) {
        lemma_all_kept_codes_stay(values);
    }
    if values == seq!["auto"@] {
        lemma_all_kept_codes_stay(values);
        assert(values[0] == "auto"@);
        assert(codes_of(values)[0] == "auto"@);
    }
    if first_language_error(values) is Some {
        lemma_refused_language(values);
        let i = choose|i: int| 0 <= i < values.len() && language_error(#[trigger] values[i]) is Some;
        assert(!is_code(lowered(trimmed(values[i]))));
    } else {
        assert forall|i: int| 0 <= i < values.len() implies is_code(
            lowered(trimmed(#[trigger] values[i])),
        ) by {
            lemma_accepted_language(values, i);
        }
        let codes = codes_of(values);
        if codes.contains("auto"@) {
            let i = choose|i: int| 0 <= i < codes.len() && codes[i] == "auto"@;
            assert(lowered(trimmed(values[i])) == "auto"@);
        }
        if exists|i: int| 0 <= i < values.len() && lowered(trimmed(#[trigger] values[i])) == "auto"@ {
            let i = choose|i: int|
                0 <= i < values.len() && lowered(trimmed(#[trigger] values[i])) == "auto"@;
            assert(codes[i] == "auto"@);
        }
    }
}

/// Every setting that an accepted patch names has the value that is named, whatever it was
/// before; every other setting stays.
pub proof fn law_a_patch_sets_what_it_names(
    base: Config,
    patch: ConfigPatch,
    home: Seq<char>,
    next: Config,
)
    requires
        patch@.error(base@, home) is None,
        next@ == patch@.applied(base@, home),
    ensures
        match patch.general {
            Some(g) if g.minimum_free_space_mb is Some => next.general.minimum_free_space_mb
                == g.minimum_free_space_mb->0,
            _ => next.general.minimum_free_space_mb == base.general.minimum_free_space_mb,
        },
        match patch.audio {
            Some(a) if a.microphone is Some => next.audio.microphone@ == a.microphone->0@,
            _ => next.audio.microphone@ == base.audio.microphone@,
        },
        match patch.audio {
            Some(a) if a.system_output is Some => next.audio.system_output@ == a.system_output->0@,
            _ => next.audio.system_output@ == base.audio.system_output@,
        },
        match patch.audio {
            Some(a) if a.source is Some => {
                ||| a.source->0@ == "mic"@ && next.audio.source == CaptureSource::Mic
                ||| a.source->0@ == "system"@ && next.audio.source == CaptureSource::System
                ||| a.source->0@ == "both"@ && next.audio.source == CaptureSource::Both
            },
            _ => next.audio.source == base.audio.source,
        },
        match patch.audio {
            Some(a) if a.retain_audio is Some => next.audio.retain_audio == a.retain_audio->0,
            _ => next.audio.retain_audio == base.audio.retain_audio,
        },
        match patch.transcription {
            Some(t) if t.provider is Some => {
                ||| t.provider->0@ == "voxtype"@ && next.transcription.provider
                    == ProviderKind::Voxtype
                ||| t.provider->0@ == "whisper_cpp"@ && next.transcription.provider
                    == ProviderKind::WhisperCpp
            },
            _ => next.transcription.provider == base.transcription.provider,
        },
        match patch.transcription {
            Some(t) if t.model is Some => next.transcription.model@ == t.model->0@,
            _ => next.transcription.model@ == base.transcription.model@,
        },
        match patch.transcription {
            Some(t) if t.max_concurrent_jobs is Some => next.transcription.max_concurrent_jobs
                == t.max_concurrent_jobs->0,
            _ => next.transcription.max_concurrent_jobs == base.transcription.max_concurrent_jobs,
        },
        match patch.transcription {
            Some(t) if t.languages is Some => languages_named(Some(views(t.languages->0@))) == Ok::<
                Seq<Seq<char>>,
                Seq<char>,
            >(views(next.transcription.languages@)),
            _ => views(next.transcription.languages@) == views(base.transcription.languages@),
        },
        match patch.transcription {
            Some(t) if t.whisper_cpp matches Some(w) && w.executable is Some =>
                next.transcription.whisper_cpp.executable@ == tilde_expanded(
                t.whisper_cpp->0.executable->0@,
                home,
            ),
            _ => next.transcription.whisper_cpp.executable@
                == base.transcription.whisper_cpp.executable@,
        },
        match patch.transcription {
            Some(t) if t.whisper_cpp matches Some(w) && w.model is Some =>
                next.transcription.whisper_cpp.model@ == tilde_expanded(
                t.whisper_cpp->0.model->0@,
                home,
            ),
            _ => next.transcription.whisper_cpp.model@ == base.transcription.whisper_cpp.model@,
        },
        match patch.transcript {
            Some(t) if t.omit_single_source_headers is Some =>
                next.transcript.omit_single_source_headers == t.omit_single_source_headers->0,
            _ => next.transcript.omit_single_source_headers
                == base.transcript.omit_single_source_headers,
        },
{
}

/// A patch is refused where it sets too little free space, a source or provider that is no
/// choice, an empty model, a number of jobs outside of 1 to 8 or languages that are none,
/// or where whisper.cpp would have to take more than one language; and only there.
pub proof fn law_patches_are_refused_for_cause(base: Config, patch: ConfigPatch, home: Seq<char>)
    ensures
        ({
            let c = patch@;
            let provider = match c.provider {
                Some(p) => if p == "whisper_cpp"@ {
                    ProviderKind::WhisperCpp
                } else {
                    ProviderKind::Voxtype
                },
                None => base.transcription.provider,
            };
            let languages = match c.languages {
                Some(l) => languages_named(Some(l))->Ok_0,
                None => views(base.transcription.languages@),
            };
            c.error(base@, home) is Some <==> {
                ||| c.minimum_free_space_mb matches Some(mb) && mb < 256
                ||| c.source matches Some(s) && s != "mic"@ && s != "system"@ && s != "both"@
                ||| c.provider matches Some(p) && p != "voxtype"@ && p != "whisper_cpp"@
                ||| c.model matches Some(m) && forall|i: int|
                    0 <= i < m.len() ==> text::is_white(#[trigger] m[i])
                ||| c.max_concurrent_jobs matches Some(jobs) && !(1 <= jobs <= 8)
                ||| c.languages is Some && languages_named(c.languages) is Err
                ||| provider == ProviderKind::WhisperCpp && languages.len() > 1
            }
        }),
{
    let c = patch@;
    if let Some(s) = c.source {
        law_choices_go_by_their_names(s);
    }
    if let Some(p) = c.provider {
        law_choices_go_by_their_names(p);
    }
    if let Some(m) = c.model {
        text::law_trimming_takes_white_space_off(m);
    }
}

/// Every setting of an accepted file is the one that stands in it.
pub proof fn law_files_are_taken_as_they_stand(raw: RawConfig, home: Seq<char>, config: Config)
    requires
        raw.error() is None,
        config@ == raw.settings(home),
    ensures
        config.general.minimum_free_space_mb == raw.general.minimum_free_space_mb,
        raw.general.minimum_free_space_mb > 0,
        config.audio.microphone@ == raw.audio.microphone@,
        config.audio.system_output@ == raw.audio.system_output@,
        raw.audio.source@ == "mic"@ && config.audio.source == CaptureSource::Mic
            || raw.audio.source@ == "system"@ && config.audio.source == CaptureSource::System
            || raw.audio.source@ == "both"@ && config.audio.source == CaptureSource::Both,
        config.audio.retain_audio == raw.audio.retain_audio,
        raw.transcription.provider@ == "voxtype"@ && config.transcription.provider
            == ProviderKind::Voxtype || raw.transcription.provider@ == "whisper_cpp"@
            && config.transcription.provider == ProviderKind::WhisperCpp,
        config.transcription.model@ == raw.transcription.model@,
        config.transcription.max_concurrent_jobs == raw.transcription.max_concurrent_jobs,
        raw.transcription.max_concurrent_jobs > 0,
        languages_named(views_of_option(raw.transcription.languages)) == Ok::<
            Seq<Seq<char>>,
            Seq<char>,
        >(views(config.transcription.languages@)),
        config.transcription.provider == ProviderKind::WhisperCpp
            ==> config.transcription.languages@.len() <= 1,
        config.transcription.whisper_cpp.executable@ == tilde_expanded(
            raw.transcription.whisper_cpp.executable@,
            home,
        ),
        config.transcription.whisper_cpp.model@ == tilde_expanded(
            raw.transcription.whisper_cpp.model@,
            home,
        ),
        config.transcript.omit_single_source_headers == raw.transcript.omit_single_source_headers,
{
}

/// The built-in settings.
pub proof fn law_built_in_settings(home: Seq<char>, config: Config)
    requires
        config@ == default_settings(home),
    ensures
        config.general.minimum_free_space_mb == 1024,
        config.audio.microphone@ == "default"@,
        config.audio.system_output@ == "default"@,
        config.audio.source == CaptureSource::Both,
        !config.audio.retain_audio,
        config.transcription.provider == ProviderKind::Voxtype,
        config.transcription.model@ == "configured"@,
        config.transcription.max_concurrent_jobs == 1,
        config.transcription.languages@.len() == 0,
        config.transcription.whisper_cpp.executable@ == "/usr/local/bin/whisper-cli"@,
        home.len() > 0 && home.last() != '/' ==> config.transcription.whisper_cpp.model@ == home
            + "/.local/share/voxtype-meeting-service/models/ggml-large-v3-turbo.bin"@,
        config.transcript.omit_single_source_headers,
{
    reveal_strlit("/usr/local/bin/whisper-cli");
    reveal_strlit("~/.local/share/voxtype-meeting-service/models/ggml-large-v3-turbo.bin");
    reveal_strlit("/.local/share/voxtype-meeting-service/models/ggml-large-v3-turbo.bin");
    let model = "~/.local/share/voxtype-meeting-service/models/ggml-large-v3-turbo.bin"@;
    law_a_tilde_is_the_home_directory("/usr/local/bin/whisper-cli"@, home);
    law_a_tilde_is_the_home_directory(model, home);
    assert(model.skip(1)
        =~= "/.local/share/voxtype-meeting-service/models/ggml-large-v3-turbo.bin"@);
    assert(views(config.transcription.languages@).len() == 0);
}

/// Jobs of whisper.cpp use its model file, all others the model of the transcription.
pub proof fn law_each_provider_has_its_model(config: Config)
    ensures
        config.model_text(ProviderKind::Voxtype) == config.transcription.model@,
        config.model_text(ProviderKind::WhisperCpp) == config.transcription.whisper_cpp.model@,
{
}

/// whisper.cpp takes one language or finds it itself.
pub proof fn law_whisper_takes_one_language(languages: Seq<Seq<char>>)
    ensures
        languages.len() == 0 ==> whisper_language(languages) == Ok::<Seq<char>, Seq<char>>("auto"@),
        languages.len() == 1 ==> whisper_language(languages) == Ok::<Seq<char>, Seq<char>>(
            languages[0],
        ),
        languages.len() > 1 <==> whisper_language(languages) is Err,
        language_conflict(ProviderKind::WhisperCpp, languages) is Some <==> languages.len() > 1,
        language_conflict(ProviderKind::Voxtype, languages) is None,
{
}

/// A whisper.cpp setup is refused where one of its files is missing, and by name; other
/// providers need none of them.
pub proof fn law_whisper_needs_its_files(s: Settings, executable: bool, model: bool)
    ensures
        whisper_files_error(s, executable, model) is Some <==> s.provider
            == ProviderKind::WhisperCpp && !(executable && model),
        s.provider == ProviderKind::WhisperCpp && !executable ==> whisper_files_error(
            s,
            executable,
            model,
        ) == Some("whisper-cli was not found at "@ + s.whisper_executable),
        s.provider == ProviderKind::WhisperCpp && executable && !model ==> whisper_files_error(
            s,
            executable,
            model,
        ) == Some("whisper.cpp model was not found at "@ + s.whisper_model),
{
}

/// A message that speaks of one setting belongs to its field.
pub proof fn law_messages_belong_to_their_fields(message: Seq<char>)
    ensures
        text::has_infix(message, "minimum_free_space_mb"@) ==> field_of(message) == Some(
            "general.minimum_free_space_mb"@,
        ),
        !text::has_infix(message, "minimum_free_space_mb"@) ==> {
            &&& text::has_infix(message, "max_concurrent_jobs"@) ==> field_of(message) == Some(
                "transcription.max_concurrent_jobs"@,
            )
            &&& !text::has_infix(message, "max_concurrent_jobs"@) ==> {
                &&& text::has_infix(message, "model must not be empty"@) ==> field_of(message)
                    == Some("transcription.model"@)
                &&& !text::has_infix(message, "model must not be empty"@) ==> {
                    &&& text::has_infix(message, "whisper-cli"@) ==> field_of(message) == Some(
                        "transcription.whisper_cpp.executable"@,
                    )
                    &&& !text::has_infix(message, "whisper-cli"@) && text::has_infix(
                        message,
                        "whisper.cpp model"@,
                    ) ==> field_of(message) == Some("transcription.whisper_cpp.model"@)
                }
            }
        },
{
}

} // verus!
