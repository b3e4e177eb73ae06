//! Turning chunks of audio into text.

use crate::audio::AudioSource;
use crate::config::{whisper_cli_language, whisper_language, Config, ProviderKind};
use crate::error::{fails, AppError, ErrorKind, Result};
use crate::storage::types::AudioChunkRecord;
use crate::text;
use crate::timeutil::{invalid_timestamp, parse_rfc3339, rfc3339_parsed, UtcTime};
use crate::tree::Tree;
use voxtype::VoxtypeProvider;
use vstd::prelude::*;
use whisper_cpp::WhisperCppProvider;

pub mod bounded;
pub mod fake;
pub mod retry;
pub mod voxtype;
pub mod whisper_cpp;
pub mod worker;

verus! {

/// A chunk as a provider sees it.
#[derive(Debug)]
pub struct AudioChunkRef {
    pub id: String,
    pub file_path: String,
    pub source: AudioSource,
    pub sequence: u64,
    pub started_at: UtcTime,
    pub ended_at: UtcTime,
}

impl AudioChunkRef {
    pub fn from_record(record: &AudioChunkRecord) -> (r: Result<Self>)
        ensures
            match (rfc3339_parsed(record.started_at@), rfc3339_parsed(record.ended_at@)) {
                (Err(e), _) => fails(
                    r,
                    ErrorKind::Other,
                    invalid_timestamp(record.started_at@, e),
                ),
                (Ok(_), Err(e)) => fails(
                    r,
                    ErrorKind::Other,
                    invalid_timestamp(record.ended_at@, e),
                ),
                (Ok(from), Ok(to)) => r matches Ok(chunk) && chunk == (AudioChunkRef {
                    id: record.id,
                    file_path: record.file_path,
                    source: record.source,
                    sequence: record.sequence,
                    started_at: (UtcTime { secs: from.0, nanos: from.1 }),
                    ended_at: (UtcTime { secs: to.0, nanos: to.1 }),
                }),
            },
    {
        let started_at = match parse_rfc3339(record.started_at.as_str()) {
            Ok(t) => t,
            Err(e) => return Err(e),
        };
        let ended_at = match parse_rfc3339(record.ended_at.as_str()) {
            Ok(t) => t,
            Err(e) => return Err(e),
        };
        Ok(
            AudioChunkRef {
                id: record.id.clone(),
                file_path: record.file_path.clone(),
                source: record.source,
                sequence: record.sequence,
                started_at,
                ended_at,
            },
        )
    }
}

/// What a provider made of a chunk.
#[derive(Debug)]
pub struct TranscriptionResult {
    pub text: String,
    pub provider: ProviderKind,
    pub model: String,
    pub provider_metadata: Option<Tree>,
}

/// Something that turns audio into text.
#[derive(Debug)]
pub enum Provider {
    Voxtype(VoxtypeProvider),
    WhisperCpp(WhisperCppProvider),
}

impl Provider {
    pub open spec fn kind(self) -> ProviderKind {
        match self {
            Provider::Voxtype(_) => ProviderKind::Voxtype,
            Provider::WhisperCpp(_) => ProviderKind::WhisperCpp,
        }
    }

    pub fn name(&self) -> (r: ProviderKind)
        ensures
            r == self.kind(),
    {
        match self {
            Provider::Voxtype(p) => p.name(),
            Provider::WhisperCpp(p) => p.name(),
        }
    }
}

/// Whether `r` is the provider of this kind with a model of the job, or else that of
/// the settings.
pub open spec fn is_provider(
    r: Result<Provider>,
    kind: ProviderKind,
    model: Option<Seq<char>>,
    config: Config,
) -> bool {
    match kind {
        ProviderKind::Voxtype => r matches Ok(Provider::Voxtype(p)) && p.model@ == match model {
            Some(m) => m,
            None => config.transcription.model@,
        },
        ProviderKind::Openai => fails(
            r,
            ErrorKind::Transcription,
            "the OpenAI remote provider has been removed; use voxtype or whisper_cpp"@,
        ),
        ProviderKind::WhisperCpp => match whisper_language(
            text::views(config.transcription.languages@),
        ) {
            Err(message) => fails(r, ErrorKind::Config, message),
            Ok(language) => r matches Ok(Provider::WhisperCpp(p)) && p.executable
                == config.transcription.whisper_cpp.executable && p.language@ == language
                && p.model@ == match model {
                Some(m) => if m.len() > 0 {
                    m
                } else {
                    config.transcription.whisper_cpp.model@
                },
                None => config.transcription.whisper_cpp.model@,
            },
        },
    }
}

/// The provider of this kind with the model of the settings.
pub fn provider_from_kind(kind: ProviderKind, config: &Config) -> (r: Result<Provider>)
    ensures
        is_provider(r, kind, None, *config),
{
    provider_for_job(kind, None, config)
}

/// The provider that a job asks for.
pub fn provider_for_job(kind: ProviderKind, model: Option<&str>, config: &Config) -> (r: Result<
    Provider,
>)
    ensures
        is_provider(r, kind, voxtype::str_view(model), *config),
{
    match kind {
        ProviderKind::Voxtype => {
            let model = match model {
                Some(m) => m.to_owned(),
                None => config.transcription.model.clone(),
            };
            Ok(Provider::Voxtype(VoxtypeProvider::new(model)))
        },
        ProviderKind::Openai => Err(
            AppError::transcription(
                "the OpenAI remote provider has been removed; use voxtype or whisper_cpp",
            ),
        ),
        ProviderKind::WhisperCpp => {
            let path = match model {
                Some(m) => {
                    if m.is_empty() {
                        config.transcription.whisper_cpp.model.clone()
                    } else {
                        m.to_owned()
                    }
                },
                None => config.transcription.whisper_cpp.model.clone(),
            };
            match whisper_cli_language(&config.transcription.languages) {
                Ok(language) => Ok(
                    Provider::WhisperCpp(
                        WhisperCppProvider::new(
                            config.transcription.whisper_cpp.executable.clone(),
                            path,
                            language,
                        ),
                    ),
                ),
                Err(e) => Err(e),
            }
        },
    }
}

/// Nothing is sent away: a provider that works at all is a local one.
pub proof fn law_providers_are_local(
    r: Result<Provider>,
    kind: ProviderKind,
    model: Option<Seq<char>>,
    config: Config,
)
    requires
        is_provider(r, kind, model, config),
    ensures
        kind == ProviderKind::Openai ==> r is Err,
        r matches Ok(p) ==> p.kind() == kind,
{
}

/// A meeting keeps the model that it began with: once a job has it, later settings have no
/// part in who transcribes it, nor, where Voxtype does, in how.
pub proof fn law_a_meeting_keeps_its_configuration(
    before: Result<Provider>,
    after: Result<Provider>,
    kind: ProviderKind,
    model: Seq<char>,
    config: Config,
    later: Config,
)
    requires
        is_provider(before, kind, Some(model), config),
        is_provider(after, kind, Some(model), later),
    ensures
        before matches Ok(p) ==> p.kind() == kind,
        after matches Ok(p) ==> p.kind() == kind,
        kind == ProviderKind::Voxtype ==> {
            &&& before matches Ok(Provider::Voxtype(p)) && p.model@ == model
            &&& after matches Ok(Provider::Voxtype(p)) && p.model@ == model
        },
        kind == ProviderKind::WhisperCpp && model.len() > 0 ==> {
            &&& before matches Ok(Provider::WhisperCpp(p)) ==> p.model@ == model
            &&& after matches Ok(Provider::WhisperCpp(p)) ==> p.model@ == model
        },
{
}

/// A job is transcribed by the provider it asks for: Voxtype with its model, whisper.cpp
/// with the program of the settings, their language and its model. A job without a model
/// gets that of the settings. There is none for a provider that was removed, and none where
/// whisper.cpp would have to take more than one language.
pub proof fn law_the_provider_of_a_job(
    r: Result<Provider>,
    kind: ProviderKind,
    model: Option<Seq<char>>,
    config: Config,
)
    requires
        is_provider(r, kind, model, config),
    ensures
        r is Err <==> kind == ProviderKind::Openai || kind == ProviderKind::WhisperCpp
            && config.transcription.languages@.len() > 1,
        r matches Ok(Provider::Voxtype(p)) ==> kind == ProviderKind::Voxtype && p.model@
            == match model {
            Some(m) => m,
            None => config.transcription.model@,
        },
        r matches Ok(Provider::WhisperCpp(p)) ==> {
            &&& kind == ProviderKind::WhisperCpp
            &&& p.executable@ == config.transcription.whisper_cpp.executable@
            &&& p.language@ == if config.transcription.languages@.len() == 0 {
                "auto"@
            } else {
                config.transcription.languages@[0]@
            }
            &&& p.model@ == match model {
                Some(m) if m.len() > 0 => m,
                _ => config.transcription.whisper_cpp.model@,
            }
        },
{
    let languages = text::views(config.transcription.languages@);
    crate::config::law_whisper_takes_one_language(languages);
    if languages.len() == 1 {
        assert(languages[0] == config.transcription.languages@[0]@);
    }
}

} // verus!
