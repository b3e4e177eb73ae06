//! Limits on what is read from files and from other programs.

use crate::error::{fails, AppError, ErrorKind, Result};
use crate::text;
use vstd::prelude::*;
use vstd::utf8::encode_utf8;

verus! {

pub const AUDIO_MAX_BYTES: u64 = 33_554_432;

pub const PROCESS_OUTPUT_MAX_BYTES: usize = 4_194_304;

pub const JSON_MAX_BYTES: usize = 4_194_304;

pub const TRANSCRIPT_MAX_BYTES: usize = 1_048_576;

pub const CONFIG_MAX_BYTES: usize = 1_048_576;

pub const MEETING_LANGUAGE_MAX_BYTES: usize = 64;

/// What is known of a file: whether it is a regular one, and its size.
#[derive(Clone, Copy, Debug)]
pub struct FileFacts {
    pub is_file: bool,
    pub bytes: u64,
}

/// Why a file is not accepted as audio.
pub open spec fn audio_refusal(
    path: Seq<char>,
    facts: std::result::Result<FileFacts, String>,
) -> Option<Seq<char>> {
    match facts {
        Err(e) => Some("could not inspect audio chunk "@ + path + ": "@ + e@),
        Ok(f) => if !f.is_file {
            Some("audio chunk "@ + path + " is not a regular file"@)
        } else if f.bytes > AUDIO_MAX_BYTES {
            Some("audio chunk "@ + path + " exceeds the "@ + "33554432"@ + " byte limit"@)
        } else {
            None
        },
    }
}

/// Refuses a file that is too large to be a chunk of audio. `facts` is what the file
/// system knows of it.
pub fn check_audio_file_size(
    path: &str,
    facts: &std::result::Result<FileFacts, String>,
) -> (r: Result<()>)
    ensures
        match audio_refusal(path@, *facts) {
            Some(message) => fails(r, ErrorKind::Transcription, message),
            None => r is Ok,
        },
{
    match facts {
        Err(e) => {
            let message = text::concat4(
                "could not inspect audio chunk ",
                path,
                ": ",
                e.as_str(),
            );
            Err(AppError::transcription(message.as_str()))
        },
        Ok(f) => {
            if !f.is_file {
                let message = text::concat3("audio chunk ", path, " is not a regular file");
                Err(AppError::transcription(message.as_str()))
            } else if f.bytes > AUDIO_MAX_BYTES {
                let message = text::concat5(
                    "audio chunk ",
                    path,
                    " exceeds the ",
                    "33554432",
                    " byte limit",
                );
                Err(AppError::transcription(message.as_str()))
            } else {
                Ok(())
            }
        },
    }
}

/// Refuses a transcript that is too long.
pub fn limit_transcript(text: String) -> (r: Result<String>)
    ensures
        if encode_utf8(text@).len() > TRANSCRIPT_MAX_BYTES {
            fails(r, ErrorKind::Transcription, "transcript exceeds the configured byte limit"@)
        } else {
            r matches Ok(t) && t == text
        },
{
    if text::byte_len(text.as_str()) > TRANSCRIPT_MAX_BYTES {
        return Err(AppError::transcription("transcript exceeds the configured byte limit"));
    }
    Ok(text)
}

/// What came of reading up to a limit.
#[derive(Debug)]
pub enum ReadOutcome {
    Bytes(Vec<u8>),
    Overflow,
}

/// Adds bytes that were read, unless there are then more than `max_bytes`. Says whether
/// it did.
pub fn push_capped(buf: &mut Vec<u8>, bytes: &[u8], max_bytes: usize) -> (r: bool)
    ensures
        r == (old(buf)@.len() + bytes@.len() <= max_bytes),
        final(buf)@ == if r {
            old(buf)@ + bytes@
        } else {
            old(buf)@
        },
{
    if bytes.len() > max_bytes || buf.len() > max_bytes - bytes.len() {
        return false;
    }
    let ghost was = buf@;
    let mut i: usize = 0;
    while i < bytes.len()
        invariant
            i <= bytes@.len(),
            buf@ == was + bytes@.take(i as int),
        decreases bytes.len() - i,
    {
        buf.push(bytes[i]);
        i += 1;
        assert(buf@ =~= was + bytes@.take(i as int));
    }
    assert(bytes@.take(i as int) =~= bytes@);
    true
}

/// All pieces one after the other.
pub open spec fn concatenated(pieces: Seq<Vec<u8>>) -> Seq<u8>
    decreases pieces.len(),
{
    if pieces.len() == 0 {
        Seq::empty()
    } else {
        concatenated(pieces.drop_last()) + pieces.last()@
    }
}

/// What is read of a stream that comes in pieces: all of it, or nothing where it has more
/// than `max_bytes` bytes.
pub fn read_capped(pieces: &Vec<Vec<u8>>, max_bytes: usize) -> (r: ReadOutcome)
    ensures
        match r {
            ReadOutcome::Bytes(buf) => buf@ == concatenated(pieces@) && buf@.len() <= max_bytes,
            ReadOutcome::Overflow => concatenated(pieces@).len() > max_bytes,
        },
{
    let mut buf: Vec<u8> = Vec::new();
    let mut i: usize = 0;
    assert(buf@ =~= concatenated(pieces@.take(0)));
    while i < pieces.len()
        invariant
            i <= pieces@.len(),
            buf@ == concatenated(pieces@.take(i as int)),
            buf@.len() <= max_bytes,
        decreases pieces.len() - i,
    {
        proof {
            assert(pieces@.take(i + 1).drop_last() =~= pieces@.take(i as int));
            lemma_prefix_is_shorter(pieces@, i + 1);
        }
        if !push_capped(&mut buf, pieces[i].as_slice(), max_bytes) {
            return ReadOutcome::Overflow;
        }
        i += 1;
    }
    assert(pieces@.take(i as int) =~= pieces@);
    ReadOutcome::Bytes(buf)
}

proof fn lemma_prefix_is_shorter(pieces: Seq<Vec<u8>>, i: int)
    requires
        0 <= i <= pieces.len(),
    ensures
        concatenated(pieces.take(i)).len() <= concatenated(pieces).len(),
    decreases pieces.len() - i,
{
    if i < pieces.len() {
        assert(pieces.take(i + 1).drop_last() =~= pieces.take(i));
        lemma_prefix_is_shorter(pieces, i + 1);
    } else {
        assert(pieces.take(i) =~= pieces);
    }
}

pub open spec fn over_limit(path: Seq<char>, max_bytes: usize) -> Seq<char> {
    path + " exceeds the "@ + text::decimal(max_bytes as nat) + " byte limit"@
}

/// Refuses a file before it is read where it is larger than `max_bytes`. `size` is what
/// the file system knows of it.
pub fn check_file_size(
    path: &str,
    size: &std::result::Result<u64, String>,
    max_bytes: usize,
) -> (r: Result<()>)
    ensures
        match *size {
            Err(e) => fails(
                r,
                ErrorKind::Transcription,
                "could not inspect "@ + path@ + ": "@ + e@,
            ),
            Ok(n) => if n > max_bytes {
                fails(r, ErrorKind::Transcription, over_limit(path@, max_bytes))
            } else {
                r is Ok
            },
        },
{
    match size {
        Err(e) => {
            let message = text::concat4("could not inspect ", path, ": ", e.as_str());
            Err(AppError::transcription(message.as_str()))
        },
        Ok(n) => {
            if *n > max_bytes as u64 {
                Err(too_large(path, max_bytes))
            } else {
                Ok(())
            }
        },
    }
}

fn too_large(path: &str, max_bytes: usize) -> (e: AppError)
    ensures
        e@ == (ErrorKind::Transcription, over_limit(path@, max_bytes)),
{
    let limit = text::decimal_of(max_bytes as u64);
    let message = text::concat4(path, " exceeds the ", limit.as_str(), " byte limit");
    AppError::transcription(message.as_str())
}

/// What a file holds, or why it could not be read within `max_bytes`.
pub fn read_capped_file(
    path: &str,
    read: std::result::Result<ReadOutcome, String>,
    max_bytes: usize,
) -> (r: Result<Vec<u8>>)
    ensures
        match read {
            Ok(ReadOutcome::Bytes(buf)) => r matches Ok(b) && b == buf,
            Ok(ReadOutcome::Overflow) => fails(
                r,
                ErrorKind::Transcription,
                over_limit(path@, max_bytes),
            ),
            Err(e) => fails(
                r,
                ErrorKind::Transcription,
                "could not read "@ + path@ + ": "@ + e@,
            ),
        },
{
    match read {
        Ok(ReadOutcome::Bytes(buf)) => Ok(buf),
        Ok(ReadOutcome::Overflow) => Err(too_large(path, max_bytes)),
        Err(e) => {
            let message = text::concat4("could not read ", path, ": ", e.as_str());
            Err(AppError::transcription(message.as_str()))
        },
    }
}

/// How waiting for a program ended.
#[derive(Debug)]
pub enum WaitOutcome {
    Exited,
    Failed(String),
    TimedOut,
}

/// Why a program is killed and its output dropped, where it is.
pub fn wait_failure(outcome: &WaitOutcome) -> (r: Option<AppError>)
    ensures
        match *outcome {
            WaitOutcome::Exited => r is None,
            WaitOutcome::Failed(e) => r matches Some(error) && error@ == (
                ErrorKind::Transcription,
                "transcription process failed: "@ + e@,
            ),
            WaitOutcome::TimedOut => r matches Some(error) && error@ == (
                ErrorKind::Transcription,
                "transcription process timed out"@,
            ),
        },
{
    match outcome {
        WaitOutcome::Exited => None,
        WaitOutcome::Failed(e) => {
            let message = text::concat2("transcription process failed: ", e.as_str());
            Some(AppError::transcription(message.as_str()))
        },
        WaitOutcome::TimedOut => Some(
            AppError::transcription("transcription process timed out"),
        ),
    }
}

/// How reading the output of a program ended.
#[derive(Debug)]
pub enum OutputOutcome {
    Read(ReadOutcome),
    Failed(String),
    ReaderFailed,
}

/// Whether what is left of a program is killed: it wrote more than is read.
pub fn must_reap(outcome: &OutputOutcome) -> (r: bool)
    ensures
        r == (*outcome matches OutputOutcome::Read(read) && read is Overflow),
{
    match outcome {
        OutputOutcome::Read(ReadOutcome::Overflow) => true,
        _ => false,
    }
}

/// What a program wrote, or why that is not known.
pub fn join_output(outcome: OutputOutcome) -> (r: Result<Vec<u8>>)
    ensures
        match outcome {
            OutputOutcome::Read(ReadOutcome::Bytes(buf)) => r matches Ok(b) && b == buf,
            OutputOutcome::Read(ReadOutcome::Overflow) => fails(
                r,
                ErrorKind::Transcription,
                "transcription process output exceeds the byte limit"@,
            ),
            OutputOutcome::Failed(e) => fails(
                r,
                ErrorKind::Transcription,
                "could not read transcription process output: "@ + e@,
            ),
            OutputOutcome::ReaderFailed => fails(
                r,
                ErrorKind::Transcription,
                "transcription process output reader failed"@,
            ),
        },
{
    match outcome {
        OutputOutcome::Read(ReadOutcome::Bytes(buf)) => Ok(buf),
        OutputOutcome::Read(ReadOutcome::Overflow) => Err(
            AppError::transcription("transcription process output exceeds the byte limit"),
        ),
        OutputOutcome::Failed(e) => {
            let message = text::concat2(
                "could not read transcription process output: ",
                e.as_str(),
            );
            Err(AppError::transcription(message.as_str()))
        },
        OutputOutcome::ReaderFailed => Err(
            AppError::transcription("transcription process output reader failed"),
        ),
    }
}

/// The number of the process group that is killed, where the system can have it.
pub fn group_to_kill(pid: u32) -> (r: Option<i32>)
    ensures
        r == if 0 < pid <= i32::MAX {
            Some(pid as i32)
        } else {
            None
        },
{
    if pid > 0 && pid <= 0x7fff_ffff {
        Some(pid as i32)
    } else {
        None
    }
}

/// Audio is refused where it cannot be looked at, is no regular file or is larger than 32
/// MiB; all other audio is taken.
pub proof fn law_audio_is_refused_for_cause(
    path: Seq<char>,
    facts: std::result::Result<FileFacts, String>,
)
    ensures
        audio_refusal(path, facts) is None <==> (facts matches Ok(f) && f.is_file && f.bytes
            <= 32 * 1024 * 1024),
{
}

/// Pieces are put together in the order in which they came.
pub proof fn law_pieces_keep_their_order(pieces: Seq<Vec<u8>>)
    ensures
        concatenated(pieces) == pieces.map_values(|p: Vec<u8>| p@).flatten(),
    decreases pieces.len(),
{
    let parts = pieces.map_values(|p: Vec<u8>| p@);
    parts.lemma_flatten_and_flatten_alt_are_equivalent();
    if pieces.len() > 0 {
        let front = pieces.drop_last();
        law_pieces_keep_their_order(front);
        let before = front.map_values(|p: Vec<u8>| p@);
        before.lemma_flatten_and_flatten_alt_are_equivalent();
        assert(parts.drop_last() =~= before);
    }
}

/// How much is read at most: 32 MiB of audio, 4 MiB of what a program says, 1 MiB of words
/// or settings, and 64 bytes of a language.
pub proof fn law_the_limits_on_what_is_read()
    ensures
        AUDIO_MAX_BYTES == 32 * 1024 * 1024,
        PROCESS_OUTPUT_MAX_BYTES == 4 * 1024 * 1024,
        JSON_MAX_BYTES == 4 * 1024 * 1024,
        TRANSCRIPT_MAX_BYTES == 1024 * 1024,
        CONFIG_MAX_BYTES == 1024 * 1024,
        MEETING_LANGUAGE_MAX_BYTES == 64,
{
}

} // verus!
