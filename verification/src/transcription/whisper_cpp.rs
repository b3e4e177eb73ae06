//! Transcription by `whisper-cli` of whisper.cpp.

use crate::config::{whisper_cli_language, whisper_language, Config, ProviderKind};
use crate::error::{fails, AppError, ErrorKind, Result};
use crate::text;
use crate::transcription::bounded::{
    audio_refusal, check_audio_file_size, limit_transcript, FileFacts, TRANSCRIPT_MAX_BYTES,
};
use crate::transcription::TranscriptionResult;
use crate::tree::{json_parsed, parse_json, Tree, TreeModel};
use vstd::prelude::*;
use vstd::utf8::{decode_utf8, encode_utf8, valid_utf8};

verus! {

/// How long a transcription may take, in seconds.
pub const PROCESS_TIMEOUT_SECS: u64 = 600;

/// Transcribes with this program and model, for this language.
#[derive(Debug)]
pub struct WhisperCppProvider {
    pub executable: String,
    pub model: String,
    pub language: String,
}

/// What is known of the files that a transcription needs.
#[derive(Debug)]
pub struct WhisperFiles {
    pub executable_exists: bool,
    /// The mode of the executable, or why it is not known.
    pub executable_mode: std::result::Result<u32, String>,
    pub model_is_file: bool,
    pub audio_is_file: bool,
    pub audio: std::result::Result<FileFacts, String>,
}

/// Why a transcription cannot begin.
pub open spec fn input_refusal(
    provider: WhisperCppProvider,
    audio: Seq<char>,
    files: WhisperFiles,
) -> Option<(ErrorKind, Seq<char>)> {
    if !files.executable_exists {
        Some(
            (
                ErrorKind::Transcription,
                "whisper-cli executable not found at "@ + provider.executable@,
            ),
        )
    } else {
        match files.executable_mode {
            Err(e) => Some((ErrorKind::Io, e@)),
            Ok(mode) => if mode & 0o111 == 0 {
                Some(
                    (
                        ErrorKind::Transcription,
                        "whisper-cli at "@ + provider.executable@ + " is not executable"@,
                    ),
                )
            } else if !files.model_is_file {
                Some(
                    (
                        ErrorKind::Transcription,
                        "whisper.cpp model not found or not readable at "@ + provider.model@,
                    ),
                )
            } else if !files.audio_is_file {
                Some((ErrorKind::Transcription, "FLAC chunk not found at "@ + audio))
            } else {
                match audio_refusal(audio, files.audio) {
                    Some(message) => Some((ErrorKind::Transcription, message)),
                    None => None,
                }
            },
        }
    }
}

impl WhisperCppProvider {
    pub fn from_config(config: &Config) -> (r: Result<Self>)
        ensures
            match whisper_language(text::views(config.transcription.languages@)) {
                Ok(code) => r matches Ok(p) && p.executable
                    == config.transcription.whisper_cpp.executable && p.model
                    == config.transcription.whisper_cpp.model && p.language@ == code,
                Err(message) => fails(r, ErrorKind::Config, message),
            },
    {
        match whisper_cli_language(&config.transcription.languages) {
            Ok(language) => Ok(
                WhisperCppProvider {
                    executable: config.transcription.whisper_cpp.executable.clone(),
                    model: config.transcription.whisper_cpp.model.clone(),
                    language,
                },
            ),
            Err(e) => Err(e),
        }
    }

    pub fn new(executable: String, model: String, language: String) -> (r: Self)
        ensures
            r.executable == executable,
            r.model == model,
            r.language == language,
    {
        WhisperCppProvider { executable, model, language }
    }

    pub fn name(&self) -> (r: ProviderKind)
        ensures
            r == ProviderKind::WhisperCpp,
    {
        ProviderKind::WhisperCpp
    }

    /// Refuses a transcription that cannot succeed. `files` is what is known of the files
    /// that it needs.
    pub fn verify_inputs(&self, flac: &str, files: &WhisperFiles) -> (r: Result<()>)
        ensures
            match input_refusal(*self, flac@, *files) {
                Some(e) => fails(r, e.0, e.1),
                None => r is Ok,
            },
    {
        if !files.executable_exists {
            let message = text::concat2(
                "whisper-cli executable not found at ",
                self.executable.as_str(),
            );
            return Err(AppError::transcription(message.as_str()));
        }
        match &files.executable_mode {
            Err(e) => return Err(AppError::Io(e.clone())),
            Ok(mode) => {
                if *mode & 0o111 == 0 {
                    let message = text::concat3(
                        "whisper-cli at ",
                        self.executable.as_str(),
                        " is not executable",
                    );
                    return Err(AppError::transcription(message.as_str()));
                }
            },
        }
        if !files.model_is_file {
            let message = text::concat2(
                "whisper.cpp model not found or not readable at ",
                self.model.as_str(),
            );
            return Err(AppError::transcription(message.as_str()));
        }
        if !files.audio_is_file {
            let message = text::concat2("FLAC chunk not found at ", flac);
            return Err(AppError::transcription(message.as_str()));
        }
        check_audio_file_size(flac, &files.audio)
    }

    /// The arguments of the program for a file of audio; its answer goes to `prefix`.
    pub fn args(&self, audio: &str, prefix: &str) -> (r: Vec<String>)
        ensures
            text::views(r@) == seq![
                "-m"@,
                self.model@,
                "-f"@,
                audio@,
                "-l"@,
                self.language@,
                "-np"@,
                "-oj"@,
                "-of"@,
                prefix@,
            ],
    {
        let mut args: Vec<String> = Vec::new();
        args.push("-m".to_owned());
        args.push(self.model.clone());
        args.push("-f".to_owned());
        args.push(audio.to_owned());
        args.push("-l".to_owned());
        args.push(self.language.clone());
        args.push("-np".to_owned());
        args.push("-oj".to_owned());
        args.push("-of".to_owned());
        args.push(prefix.to_owned());
        assert(text::views(args@) =~= seq![
            "-m"@,
            self.model@,
            "-f"@,
            audio@,
            "-l"@,
            self.language@,
            "-np"@,
            "-oj"@,
            "-of"@,
            prefix@,
        ]);
        args
    }

    /// What is made of a chunk: the text of the first run; where that failed, the text of
    /// a second run on a WAV copy; where that failed too, the error of the first.
    pub fn result_of(
        &self,
        first: Result<String>,
        second: Option<Result<String>>,
    ) -> (r: Result<TranscriptionResult>)
        ensures
            match (first, second) {
                (Ok(words), _) => is_result(r, words, self.model),
                (Err(_), Some(Ok(words))) => is_result(r, words, self.model),
                (Err(e), _) => r matches Err(f) && f == e,
            },
    {
        let words = match (first, second) {
            (Ok(words), _) => words,
            (Err(_), Some(Ok(words))) => words,
            (Err(e), _) => return Err(e),
        };
        Ok(
            TranscriptionResult {
                text: words,
                provider: ProviderKind::WhisperCpp,
                model: self.model.clone(),
                provider_metadata: None,
            },
        )
    }
}

/// Whether a transcription gave these words.
pub open spec fn is_result(r: Result<TranscriptionResult>, words: String, model: String) -> bool {
    r matches Ok(t) && t.text == words && t.provider == ProviderKind::WhisperCpp && t.model == model
        && t.provider_metadata is None
}

/// Whether a chunk is tried again as WAV: the first run failed.
pub fn retries_as_wav(first: &Result<String>) -> (r: bool)
    ensures
        r == (*first is Err),
{
    match first {
        Ok(_) => false,
        Err(_) => true,
    }
}

/// Why a run of the program failed.
pub fn exit_failure(status: &str, stderr: &Vec<u8>) -> (e: AppError)
    ensures
        e@ == (
            ErrorKind::Transcription,
            "whisper-cli exited with "@ + status@ + ": "@ + text::last_chars(
                text::lossy(stderr@),
                400,
            ),
        ),
{
    let said = text::lossy_text(stderr.as_slice());
    let tail = text::tail_of(said.as_str(), 400);
    let message = text::concat4("whisper-cli exited with ", status, ": ", tail.as_str());
    AppError::transcription(message.as_str())
}

/// The texts of segments one after the other.
pub open spec fn segment_texts(segments: Seq<TreeModel>) -> Seq<char>
    decreases segments.len(),
{
    if segments.len() == 0 {
        Seq::empty()
    } else {
        segment_texts(segments.drop_last()) + match segments.last().text_field("text"@) {
            Some(words) => words,
            None => Seq::empty(),
        }
    }
}

/// The segments of an answer: those of its result, or its own.
pub open spec fn segments_of(answer: TreeModel) -> Option<TreeModel> {
    let nested = match answer.field("result"@) {
        Some(result) => result.field("segments"@),
        None => None,
    };
    match nested {
        Some(segments) => Some(segments),
        None => answer.field("segments"@),
    }
}

/// The words in an answer of the program.
pub open spec fn words_in(answer: TreeModel) -> Option<Seq<char>> {
    match answer.text_field("transcription"@) {
        Some(words) => Some(text::trimmed(words)),
        None => match answer.text_field("text"@) {
            Some(words) => Some(text::trimmed(words)),
            None => match segments_of(answer) {
                Some(segments) => match segments.items() {
                    Some(items) => Some(text::trimmed(segment_texts(items))),
                    None => None,
                },
                None => None,
            },
        },
    }
}

/// The words in an answer of the program, within the limit of a transcript.
pub open spec fn transcript_in(
    answer: std::result::Result<TreeModel, Seq<char>>,
) -> std::result::Result<Seq<char>, Seq<char>> {
    match answer {
        Err(e) => Err("whisper-cli JSON was invalid: "@ + e),
        Ok(answer) => match words_in(answer) {
            None => Err("whisper-cli JSON did not contain transcription text"@),
            Some(words) => if encode_utf8(words).len() > TRANSCRIPT_MAX_BYTES {
                Err("transcript exceeds the configured byte limit"@)
            } else {
                Ok(words)
            },
        },
    }
}

fn segments<'a>(answer: &'a Tree) -> (r: Option<&'a Tree>)
    ensures
        match r {
            Some(t) => segments_of(answer@) == Some(t@),
            None => segments_of(answer@) is None,
        },
{
    if let Some(result) = answer.get("result") {
        if let Some(segments) = result.get("segments") {
            return Some(segments);
        }
    }
    answer.get("segments")
}

fn join_segments(items: &Vec<Tree>) -> (r: String)
    ensures
        r@ == segment_texts(crate::tree::items_model(items@)),
{
    let ghost all = crate::tree::items_model(items@);
    let mut out = String::new();
    let mut i: usize = 0;
    assert(all.take(0) =~= Seq::empty());
    while i < items.len()
        invariant
            i <= items@.len(),
            all == crate::tree::items_model(items@),
            out@ == segment_texts(all.take(i as int)),
        decreases items.len() - i,
    {
        proof {
            assert(all.take(i + 1).drop_last() =~= all.take(i as int));
            assert(all.take(i + 1).last() == items@[i as int]@);
            assert(segment_texts(all.take(i as int)) + Seq::<char>::empty() =~= segment_texts(
                all.take(i as int),
            ));
        }
        if let Some(words) = items[i].get_text("text") {
            out.append(words);
        }
        i += 1;
    }
    assert(all.take(i as int) =~= all);
    out
}

/// The words in an answer of the program that was parsed.
pub fn transcript_of_answer(answer: &std::result::Result<Tree, String>) -> (r: Result<String>)
    ensures
        match transcript_in(
            match *answer {
                Ok(t) => Ok(t@),
                Err(e) => Err(e@),
            },
        ) {
            Ok(words) => r matches Ok(w) && w@ == words,
            Err(message) => fails(r, ErrorKind::Transcription, message),
        },
{
    let value = match answer {
        Ok(value) => value,
        Err(e) => {
            let message = text::concat2("whisper-cli JSON was invalid: ", e.as_str());
            return Err(AppError::transcription(message.as_str()));
        },
    };
    if let Some(words) = value.get_text("transcription") {
        return limit_transcript(text::trim(words));
    }
    if let Some(words) = value.get_text("text") {
        return limit_transcript(text::trim(words));
    }
    if let Some(Tree::List(items)) = segments(value) {
        assert(segments_of(value@)->0.items() == Some(crate::tree::items_model(items@))) by {
            assert(segments_of(value@)->0->List_0 =~= crate::tree::items_model(items@));
        }
        let words = join_segments(items);
        return limit_transcript(text::trim(words.as_str()));
    }
    Err(AppError::transcription("whisper-cli JSON did not contain transcription text"))
}

/// The words in an answer of the program.
pub fn parse_whisper_json(json: &str) -> (r: Result<String>)
    ensures
        match transcript_in(json_parsed(json@)) {
            Ok(words) => r matches Ok(w) && w@ == words,
            Err(message) => fails(r, ErrorKind::Transcription, message),
        },
{
    let answer = parse_json(json);
    transcript_of_answer(&answer)
}

/// The words in the file that the program wrote its answer to.
pub fn answer_text(path: &str, bytes: &Vec<u8>) -> (r: Result<String>)
    ensures
        if !valid_utf8(bytes@) {
            fails(
                r,
                ErrorKind::Transcription,
                "whisper-cli JSON "@ + path@ + " was not valid UTF-8: "@ + text::utf8_error(
                    bytes@,
                ),
            )
        } else {
            match transcript_in(json_parsed(decode_utf8(bytes@))) {
                Ok(words) => r matches Ok(w) && w@ == words,
                Err(message) => fails(r, ErrorKind::Transcription, message),
            }
        },
{
    match text::utf8_text(bytes.as_slice()) {
        Ok(json) => parse_whisper_json(json.as_str()),
        Err(e) => {
            let message = text::concat4(
                "whisper-cli JSON ",
                path,
                " was not valid UTF-8: ",
                e.as_str(),
            );
            Err(AppError::transcription(message.as_str()))
        },
    }
}

/// A transcription begins exactly where the program is there and may be run, its model and
/// the audio are files, and the audio is not too large.
pub proof fn law_what_a_transcription_needs(
    provider: WhisperCppProvider,
    audio: Seq<char>,
    files: WhisperFiles,
)
    ensures
        input_refusal(provider, audio, files) is None <==> {
            &&& files.executable_exists
            &&& files.executable_mode matches Ok(mode) && mode & 0o111 != 0
            &&& files.model_is_file
            &&& files.audio_is_file
            &&& files.audio matches Ok(f) && f.is_file && f.bytes <= 32 * 1024 * 1024
        },
{
    crate::transcription::bounded::law_audio_is_refused_for_cause(audio, files.audio);
}

/// The words of the segments stand one after the other, in the order of the segments; a
/// segment without words adds none.
pub proof fn law_segments_keep_their_order(segments: Seq<TreeModel>)
    ensures
        segment_texts(segments) == segments.map_values(
            |s: TreeModel|
                match s.text_field("text"@) {
                    Some(words) => words,
                    None => Seq::empty(),
                },
        ).flatten(),
    decreases segments.len(),
{
    let f = |s: TreeModel|
        match s.text_field("text"@) {
            Some(words) => words,
            None => Seq::empty(),
        };
    let parts = segments.map_values(f);
    parts.lemma_flatten_and_flatten_alt_are_equivalent();
    if segments.len() > 0 {
        let front = segments.drop_last();
        law_segments_keep_their_order(front);
        let before = front.map_values(f);
        before.lemma_flatten_and_flatten_alt_are_equivalent();
        assert(parts.drop_last() =~= before);
    }
}

/// The words of an answer are those under `transcription`, or else under `text`, or else of
/// its segments, without space around them. An answer without any of these has none.
pub proof fn law_where_the_words_of_an_answer_stand(answer: TreeModel)
    ensures
        answer.text_field("transcription"@) matches Some(words) ==> words_in(answer) == Some(
            text::trimmed(words),
        ),
        answer.text_field("transcription"@) is None && answer.text_field("text"@) is Some
            ==> words_in(answer) == Some(text::trimmed(answer.text_field("text"@)->0)),
        answer.text_field("transcription"@) is None && answer.text_field("text"@) is None && (
        match answer.field("result"@) {
            Some(result) => result.field("segments"@) is None,
            None => true,
        }) && answer.field("segments"@) is None ==> words_in(answer) is None,
        answer.text_field("transcription"@) is None && answer.text_field("text"@) is None && (
        answer.field("result"@) matches Some(result) && result.field("segments"@) matches Some(
            TreeModel::List(items),
        )) ==> words_in(answer) == Some(
            text::trimmed(
                segment_texts(answer.field("result"@)->0.field("segments"@)->0->List_0),
            ),
        ),
{
}

/// Words are taken as they are, up to the limit of a transcript; an answer that is no JSON,
/// holds no words or holds too many is an error.
pub proof fn law_answers_are_taken_or_refused(
    answer: std::result::Result<TreeModel, Seq<char>>,
)
    ensures
        transcript_in(answer) matches Ok(words) ==> answer matches Ok(a) && words_in(a) == Some(
            words,
        ),
        transcript_in(answer) is Ok <==> (answer matches Ok(a) && words_in(a) matches Some(words)
            && encode_utf8(words).len() <= 1_048_576),
{
}

/// A transcript says that whisper.cpp made it, with which model, and holds its words.
pub proof fn law_who_made_a_transcript(
    r: Result<TranscriptionResult>,
    words: String,
    model: String,
)
    requires
        is_result(r, words, model),
    ensures
        r is Ok,
        r->Ok_0.text@ == words@,
        r->Ok_0.provider == ProviderKind::WhisperCpp,
        r->Ok_0.model@ == model@,
        r->Ok_0.provider_metadata is None,
{
}

} // verus!
