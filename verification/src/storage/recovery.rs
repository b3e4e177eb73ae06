//! Bringing the tables back in step with what lies on disk.

use crate::audio::AudioSource;
use crate::config::{Config, ProviderKind};
use crate::encode::chunk_file_name;
use crate::error::{fails, AppError, ErrorKind, Result};
use crate::sorting::{rank, ranked, Ranked};
use crate::storage::chunks::{
    chunk_exists_for_path, insert_chunk_and_job, path_taken, sequence_exists,
    sequence_taken, NewAudioChunk,
};
use crate::storage::jobs::{
    complete_jobs_that_already_have_events, finished, is_new_job, reset,
    reset_processing_without_event,
};
use crate::storage::sessions::{
    add_session, has_runs, insert_run, interrupt_running_sessions, interrupted, is_latest_run,
    is_new_run, latest_run,
};
use crate::storage::types::{
    JobState, SessionRecord, SessionState, TranscriptionJobRecord, TranscriptionRunRecord,
};
use crate::storage::{id_taken, no_reference, taken, Store, Tables};
use crate::text;
use crate::timeutil::{
    four_digit_year, invalid_timestamp, parse_rfc3339, reads_back, rfc3339_millis,
    rfc3339_parsed, shifted, whole_millis, UtcTime,
};
use vstd::prelude::*;

verus! {

/// How long a chunk is taken to be that only its file tells of, in milliseconds.
pub const RECOVERED_MS: i64 = 30_000;

/// Whether a file is audio that was not finished.
pub open spec fn is_leftover_name(name: Seq<char>) -> bool {
    text::has_extension(name, "tmp"@) && text::has_infix(name, ".flac"@)
}

/// Whether the file with this name is audio that was not finished.
pub fn is_leftover(name: &str) -> (r: bool)
    ensures
        r == is_leftover_name(name@),
{
    proof {
        reveal_strlit("tmp");
    }
    text::is_extension(name, "tmp") && text::contains(name, ".flac")
}

/// The time in a file name as RFC 3339 writes it.
pub open spec fn restored_stamp(stamp: Seq<char>) -> Seq<char> {
    match text::split_first(stamp, 'T') {
        Some((date, time)) => date + "T"@ + text::replaced(time, '-', ':'),
        None => stamp,
    }
}

/// The number and the start of a chunk, as its file name tells them.
pub open spec fn chunk_named(name: Seq<char>) -> std::result::Result<
    (u64, UtcTime),
    (ErrorKind, Seq<char>),
> {
    if !text::has_suffix(name, ".flac"@) {
        Err((ErrorKind::Other, "audio file is not a .flac chunk: "@ + name))
    } else {
        match text::split_first(name.take(name.len() - 5), '_') {
            None => Err(
                (
                    ErrorKind::Other,
                    "audio filename '"@ + name
                        + "' does not match <sequence>_<timestamp>.flac"@,
                ),
            ),
            Some((number, stamp)) => match text::unsigned_value(number, u64::MAX as nat) {
                None => Err(
                    (
                        ErrorKind::Other,
                        "invalid sequence number in audio filename '"@ + name + "'"@,
                    ),
                ),
                Some(n) => match rfc3339_parsed(restored_stamp(stamp)) {
                    Ok((secs, nanos)) => Ok((n as u64, UtcTime { secs, nanos })),
                    Err(reason) => Err(
                        (ErrorKind::Other, invalid_timestamp(restored_stamp(stamp), reason)),
                    ),
                },
            },
        }
    }
}

/// Reads the number and the start of a chunk off its file name.
pub fn parse_chunk_filename(name: &str) -> (r: Result<(u64, UtcTime)>)
    ensures
        match chunk_named(name@) {
            Ok(found) => r matches Ok(f) && f == found && f.1.wf() && f.1.secs < 253_402_387_200,
            Err(e) => fails(r, e.0, e.1),
        },
{
    proof {
        reveal_strlit(".flac");
    }
    let stem = match text::strip_suffix(name, ".flac") {
        Some(stem) => stem,
        None => {
            let message = text::concat2("audio file is not a .flac chunk: ", name);
            return Err(AppError::other(message.as_str()));
        },
    };
    assert(stem@ =~= name@.take(name@.len() - 5));
    let (number, stamp) = match text::split_once(stem.as_str(), '_') {
        Some(parts) => parts,
        None => {
            let message = text::concat3(
                "audio filename '",
                name,
                "' does not match <sequence>_<timestamp>.flac",
            );
            return Err(AppError::other(message.as_str()));
        },
    };
    let sequence: u64 = match text::parse_unsigned(number.as_str(), u64::MAX) {
        Some(sequence) => sequence,
        None => {
            let message = text::concat3("invalid sequence number in audio filename '", name, "'");
            return Err(AppError::other(message.as_str()));
        },
    };
    let restored = match text::split_once(stamp.as_str(), 'T') {
        Some((date, time)) => {
            let clock = text::replace_char(time.as_str(), '-', ':');
            text::concat3(date.as_str(), "T", clock.as_str())
        },
        None => stamp,
    };
    match parse_rfc3339(restored.as_str()) {
        Ok(started_at) => Ok((sequence, started_at)),
        Err(e) => Err(e),
    }
}

/// The name of a chunk's file tells the number of the chunk and its start, to the
/// millisecond, as long as the year has four digits.
pub proof fn law_chunk_names_round_trip(sequence: u64, started_at: UtcTime)
    requires
        four_digit_year(started_at.secs as int),
        reads_back(
            rfc3339_millis(started_at.secs, started_at.nanos),
            started_at.secs,
            started_at.nanos,
        ),
    ensures
        chunk_named(chunk_file_name(sequence, started_at)) == Ok::<
            (u64, UtcTime),
            (ErrorKind, Seq<char>),
        >((sequence, UtcTime { secs: started_at.secs, nanos: whole_millis(started_at.nanos) })),
{
    let stamp = rfc3339_millis(started_at.secs, started_at.nanos);
    let number = text::zero_padded(text::decimal(sequence as nat), 8);
    let written = text::replaced(stamp, ':', '-');
    let name = chunk_file_name(sequence, started_at);
    reveal_strlit(".flac");
    reveal_strlit("_");
    reveal_strlit("T");
    text::law_decimal_round_trip(sequence, 8);
    assert(name.take(name.len() - 5) =~= number + "_"@ + written);
    assert(name.skip(name.len() - 5) =~= ".flac"@);
    let stem = number + "_"@ + written;
    text::lemma_decimal_value(sequence as nat);
    text::lemma_zero_padded_value(text::decimal(sequence as nat), 8);
    lemma_digits_hold_no(number, '_');
    assert forall|k: int| 0 <= k < number.len() implies #[trigger] stem[k] != '_' by {
        assert(stem[k] == number[k]);
    }
    assert(stem[number.len() as int] == '_');
    text::lemma_split_first_at(stem, '_', number.len() as int);
    assert(stem.take(number.len() as int) =~= number);
    assert(stem.skip((number.len() + 1) as int) =~= written);
    assert forall|k: int| 0 <= k < 10 implies #[trigger] written[k] != 'T' by {
        assert(written[k] == if stamp[k] == ':' { '-' } else { stamp[k] });
    }
    assert(written[10] == 'T');
    text::lemma_split_first_at(written, 'T', 10);
    let date = written.take(10);
    let time = written.skip(11);
    let restored = date + "T"@ + text::replaced(time, '-', ':');
    assert forall|k: int| 0 <= k < 24 implies #[trigger] restored[k] == stamp[k] by {
        if k < 10 {
            assert(restored[k] == written[k]);
        } else if k > 10 {
            assert(restored[k] == text::replaced(time, '-', ':')[k - 11]);
            assert(time[k - 11] == written[k]);
        }
    }
    assert(restored =~= stamp);
}

proof fn lemma_digits_hold_no(s: Seq<char>, c: char)
    requires
        text::all_digits(s),
        !text::is_digit(c),
    ensures
        forall|k: int| 0 <= k < s.len() ==> #[trigger] s[k] != c,
{
}

pub open spec fn is_hex(c: char) -> bool {
    '0' <= c <= '9' || 'a' <= c <= 'f' || 'A' <= c <= 'F'
}

/// Five groups of hexadecimal digits with hyphens between them.
pub open spec fn is_hyphenated(s: Seq<char>) -> bool {
    &&& s.len() == 36
    &&& forall|i: int|
        0 <= i < 36 ==> if i == 8 || i == 13 || i == 18 || i == 23 {
            #[trigger] s[i] == '-'
        } else {
            is_hex(s[i])
        }
}

/// Whether a text is a UUID: bare digits, digits in groups, or the groups in braces or
/// behind `urn:uuid:` in any case.
pub open spec fn is_uuid(s: Seq<char>) -> bool {
    ||| s.len() == 32 && forall|i: int| 0 <= i < 32 ==> is_hex(#[trigger] s[i])
    ||| is_hyphenated(s)
    ||| s.len() == 38 && s[0] == '{' && s[37] == '}' && is_hyphenated(s.subrange(1, 37))
    ||| s.len() == 45 && text::lowered(s.take(9)) == "urn:uuid:"@ && is_hyphenated(s.skip(9))
}

/// `uuid::Uuid::parse_str`. Claims which texts it accepts.
#[verifier::external_body]
fn uuid_parses(value: &str) -> (r: bool)
    ensures
        r == is_uuid(value@),
{
    uuid::Uuid::parse_str(value).is_ok()
}

/// A file in the audio directory of a session, and the identifiers that its chunk and
/// its job get where it is taken in.
#[derive(Debug)]
pub struct FoundFile {
    pub path: String,
    pub name: String,
    pub chunk_id: String,
    pub job_id: String,
}

impl Clone for FoundFile {
    fn clone(&self) -> (r: Self)
        ensures
            r == *self,
    {
        FoundFile {
            path: self.path.clone(),
            name: self.name.clone(),
            chunk_id: self.chunk_id.clone(),
            job_id: self.job_id.clone(),
        }
    }
}

/// A directory below the one of all sessions, and the identifier that a run of it gets
/// where it has none.
#[derive(Debug)]
pub struct FoundSession {
    pub id: String,
    pub run_id: String,
    pub mic: Vec<FoundFile>,
    pub system: Vec<FoundFile>,
}

/// Files stand by their names.
impl Ranked for FoundFile {
    open spec fn ranks_before(&self, other: &Self) -> bool {
        text::text_le(self.name@, other.name@)
    }

    proof fn lemma_total(a: &Self, b: &Self) {
        text::lemma_text_le_total(a.name@, b.name@);
    }

    proof fn lemma_transitive(a: &Self, b: &Self, c: &Self) {
        text::lemma_text_le_transitive(a.name@, b.name@, c.name@);
    }

    fn may_precede(&self, other: &Self) -> (r: bool) {
        text::at_most(self.name.as_str(), other.name.as_str())
    }
}

pub open spec fn is_audio() -> spec_fn(FoundFile) -> bool {
    |f: FoundFile| text::has_extension(f.name@, "flac"@) && !text::has_suffix(f.name@, ".tmp"@)
}

/// The finished audio files in the order of their names.
pub open spec fn audio_files(files: Seq<FoundFile>) -> Seq<FoundFile> {
    ranked(files.filter(is_audio()))
}

fn audio_files_of(files: &Vec<FoundFile>) -> (r: Vec<FoundFile>)
    ensures
        r@ == audio_files(files@),
{
    let mut found: Vec<FoundFile> = Vec::new();
    let mut i: usize = 0;
    proof {
        reveal_strlit("flac");
        assert(files@.take(0).filter(is_audio()) =~= Seq::empty()) by {
            reveal(Seq::filter);
        }
    }
    while i < files.len()
        invariant
            i <= files@.len(),
            !"flac"@.contains('.'),
            found@ == files@.take(i as int).filter(is_audio()),
        decreases files.len() - i,
    {
        proof {
            assert(files@.take(i + 1).drop_last() =~= files@.take(i as int));
            reveal(Seq::filter);
        }
        if text::is_extension(files[i].name.as_str(), "flac") && !text::ends_with(
            files[i].name.as_str(),
            ".tmp",
        ) {
            found.push(files[i].clone());
        }
        i += 1;
    }
    assert(files@.take(i as int) =~= files@);
    rank(found)
}

/// Whether a file was taken in as a chunk of half a minute with a job of the run.
pub open spec fn is_taken_in(
    was: Tables,
    is: Tables,
    session_id: Seq<char>,
    run: TranscriptionRunRecord,
    source: AudioSource,
    file: FoundFile,
    sequence: u64,
    started: UtcTime,
    now: String,
) -> bool {
    let chunk = is.chunks.last();
    &&& is.chunks.len() > 0
    &&& is.jobs.len() > 0
    &&& is == (Tables {
        chunks: was.chunks.push(chunk),
        jobs: was.jobs.push(is.jobs.last()),
        ..was
    })
    &&& chunk.id@ == file.chunk_id@
    &&& chunk.session_id@ == session_id
    &&& chunk.source == source
    &&& chunk.sequence == sequence
    &&& chunk.started_at@ == rfc3339_millis(started.secs, started.nanos)
    &&& exists|ended: UtcTime|
        (ended.secs as int, ended.nanos as int) == shifted(started, RECOVERED_MS as nat)
            && chunk.ended_at@ == #[trigger] rfc3339_millis(ended.secs, ended.nanos)
    &&& chunk.file_path@ == file.path@
    &&& chunk.duration_ms == RECOVERED_MS
    &&& chunk.created_at == now
    &&& is_new_job(
        is.jobs.last(),
        file.job_id@,
        file.chunk_id@,
        run.id@,
        run.provider,
        model_text(run),
        now,
    )
}

/// The model of a run, or nothing.
pub open spec fn model_text(run: TranscriptionRunRecord) -> Seq<char> {
    match run.model {
        Some(model) => model@,
        None => Seq::empty(),
    }
}

/// Whether one file was dealt with: a file that is known, or whose number is taken, is
/// passed over; any other is taken in. `out` is the error that stops the recovery.
pub open spec fn file_step(
    was: Tables,
    is: Tables,
    session_id: Seq<char>,
    run: TranscriptionRunRecord,
    source: AudioSource,
    file: FoundFile,
    now: String,
    out: Option<(ErrorKind, Seq<char>)>,
) -> bool {
    if path_taken(was.chunks, file.path@) {
        is == was && out is None
    } else {
        match chunk_named(file.name@) {
            Err(e) => is == was && out == Some(e),
            Ok((sequence, started)) => if sequence_taken(
                was.chunks,
                session_id,
                source,
                sequence,
            ) {
                is == was && out is None
            } else if was.has_chunk(file.chunk_id@) {
                is == was && out == Some((ErrorKind::Database, taken("audio_chunks.id"@)))
            } else if !was.has_session(session_id) {
                is == was && out == Some((ErrorKind::Database, no_reference()))
            } else if was.has_job(file.job_id@) {
                is == was && out == Some((ErrorKind::Database, taken("transcription_jobs.id"@)))
            } else if !was.has_run(run.id@) {
                is == was && out == Some((ErrorKind::Database, no_reference()))
            } else {
                &&& is_taken_in(was, is, session_id, run, source, file, sequence, started, now)
                &&& out is None
            },
        }
    }
}

fn take_in(
    store: &mut Store,
    session_id: &str,
    run: &TranscriptionRunRecord,
    source: AudioSource,
    file: &FoundFile,
    now: &String,
) -> (r: Result<()>)
    ensures
        file_step(
            old(store)@,
            final(store)@,
            session_id@,
            *run,
            source,
            *file,
            *now,
            error_of(r),
        ),
        old(store)@.wf() && old(store)@.has_session(session_id@) && old(store)@.has_run_of(
            run.id@,
            session_id@,
        ) ==> final(store)@.wf(),
        final(store)@.sessions == old(store)@.sessions,
        final(store)@.runs == old(store)@.runs,
{
    if chunk_exists_for_path(store, file.path.as_str()) {
        return Ok(());
    }
    let (sequence, started_at) = match parse_chunk_filename(file.name.as_str()) {
        Ok(found) => found,
        Err(e) => return Err(e),
    };
    if sequence_exists(store, session_id, source, sequence) {
        return Ok(());
    }
    let ended_at = started_at.plus_millis(30_000);
    let model = match &run.model {
        Some(model) => model.clone(),
        None => String::new(),
    };
    assert(model@ =~= model_text(*run));
    let spec = NewAudioChunk {
        session_id,
        run_id: run.id.as_str(),
        source,
        sequence,
        started_at,
        ended_at,
        file_path: file.path.as_str(),
        duration_ms: RECOVERED_MS,
        provider: run.provider,
        model: model.as_str(),
    };
    match insert_chunk_and_job(store, spec, file.chunk_id.as_str(), file.job_id.as_str(), now) {
        Ok(_) => Ok(()),
        Err(e) => Err(e),
    }
}

/// What an outcome failed with.
pub open spec fn error_of<T>(r: Result<T>) -> Option<(ErrorKind, Seq<char>)> {
    match r {
        Ok(_) => None,
        Err(e) => Some(e@),
    }
}

/// Whether the tables went through `states` while the files were dealt with one after
/// the other, up to the end or to an error.
pub open spec fn file_steps(
    states: Seq<Tables>,
    session_id: Seq<char>,
    run: TranscriptionRunRecord,
    source: AudioSource,
    files: Seq<FoundFile>,
    now: String,
    out: Option<(ErrorKind, Seq<char>)>,
) -> bool {
    &&& 0 < states.len() <= files.len() + 1
    &&& forall|i: int, j: int|
        #![trigger states[i], states[j]]
        0 <= i && j == i + 1 && j < states.len() ==> file_step(
            states[i],
            states[j],
            session_id,
            run,
            source,
            files[i],
            now,
            None,
        )
    &&& match out {
        None => states.len() == files.len() + 1,
        Some(_) => states.len() <= files.len() && file_step(
            states.last(),
            states.last(),
            session_id,
            run,
            source,
            files[states.len() - 1],
            now,
            out,
        ),
    }
}

/// Whether the files of one source were dealt with.
pub open spec fn source_reconciled(
    was: Tables,
    is: Tables,
    session_id: Seq<char>,
    run: TranscriptionRunRecord,
    source: AudioSource,
    files: Seq<FoundFile>,
    now: String,
    out: Option<(ErrorKind, Seq<char>)>,
) -> bool {
    exists|states: Seq<Tables>|
        #[trigger] file_steps(states, session_id, run, source, audio_files(files), now, out)
            && states[0] == was && states.last() == is
}

/// Takes in the files of one source that the tables do not know.
fn reconcile_source(
    store: &mut Store,
    session_id: &str,
    run: &TranscriptionRunRecord,
    source: AudioSource,
    found: &Vec<FoundFile>,
    now: &String,
) -> (r: Result<()>)
    ensures
        source_reconciled(
            old(store)@,
            final(store)@,
            session_id@,
            *run,
            source,
            found@,
            *now,
            error_of(r),
        ),
        old(store)@.wf() && old(store)@.has_session(session_id@) && old(store)@.has_run_of(
            run.id@,
            session_id@,
        ) ==> final(store)@.wf(),
        final(store)@.sessions == old(store)@.sessions,
        final(store)@.runs == old(store)@.runs,
{
    let ghost was = store@;
    let files = audio_files_of(found);
    let ghost mut states: Seq<Tables> = seq![was];
    let mut i: usize = 0;
    while i < files.len()
        invariant
            i <= files@.len(),
            was == old(store)@,
            files@ == audio_files(found@),
            states.len() == i + 1,
            states[0] == was,
            states.last() == store@,
            forall|k: int, j: int|
                #![trigger states[k], states[j]]
                0 <= k && j == k + 1 && j < states.len() ==> file_step(
                    states[k],
                    states[j],
                    session_id@,
                    *run,
                    source,
                    files@[k],
                    *now,
                    None,
                ),
            was.wf() && was.has_session(session_id@) && was.has_run_of(
                run.id@,
                session_id@,
            ) ==> store@.wf(),
            store@.sessions == was.sessions,
            store@.runs == was.runs,
        decreases files.len() - i,
    {
        proof {
            assert(store@.has_session(session_id@) == was.has_session(session_id@));
            assert(store@.has_run_of(run.id@, session_id@) == was.has_run_of(
                run.id@,
                session_id@,
            ));
        }
        match take_in(store, session_id, run, source, &files[i], now) {
            Ok(_) => {
                proof {
                    let before = states;
                    states = states.push(store@);
                    assert forall|k: int, j: int|
                        #![trigger states[k], states[j]]
                        0 <= k && j == k + 1 && j < states.len() implies file_step(
                        states[k],
                        states[j],
                        session_id@,
                        *run,
                        source,
                        files@[k],
                        *now,
                        None,
                    ) by {
                        if j < before.len() {
                            assert(states[k] == before[k] && states[j] == before[j]);
                        }
                    }
                }
            },
            Err(e) => {
                assert(file_steps(
                    states,
                    session_id@,
                    *run,
                    source,
                    files@,
                    *now,
                    Some(e@),
                ));
                return Err(e);
            },
        }
        i += 1;
    }
    assert(file_steps(states, session_id@, *run, source, files@, *now, None));
    Ok(())
}

/// A session that only its directory tells of.
pub open spec fn is_recovered_session(record: SessionRecord, id: Seq<char>, now: String) -> bool {
    &&& record.id@ == id
    &&& record == (SessionRecord {
        id: record.id,
        state: SessionState::Interrupted,
        started_at: now,
        ended_at: Some(now),
        microphone_id: None,
        microphone_description: None,
        output_id: None,
        output_description: None,
        monitor_id: None,
        monitor_description: None,
        created_at: now,
        title: None,
    })
}

/// Whether a session and a run of it are there: those that were, or new ones.
pub open spec fn is_prepared(
    was: Tables,
    is: Tables,
    session_id: Seq<char>,
    run_id: Seq<char>,
    provider: ProviderKind,
    model: Seq<char>,
    now: String,
) -> bool {
    &&& is == (Tables { sessions: is.sessions, runs: is.runs, ..was })
    &&& if was.has_session(session_id) {
        is.sessions == was.sessions
    } else {
        &&& is.sessions.len() == was.sessions.len() + 1
        &&& is.sessions.drop_last() == was.sessions
        &&& is_recovered_session(is.sessions.last(), session_id, now)
    }
    &&& if has_runs(was.runs, session_id) {
        is.runs == was.runs
    } else {
        &&& is.runs.len() == was.runs.len() + 1
        &&& is.runs.drop_last() == was.runs
        &&& is_new_run(is.runs.last(), run_id, session_id, provider, model, now)
    }
}

/// Puts in the session of a directory where it is not there. Says whether it did.
fn ensure_session(store: &mut Store, session_id: &str, now: &String) -> (r: bool)
    ensures
        r == !old(store)@.has_session(session_id@),
        final(store)@ == (Tables { sessions: final(store)@.sessions, ..old(store)@ }),
        if old(store)@.has_session(session_id@) {
            final(store)@.sessions == old(store)@.sessions
        } else {
            &&& final(store)@.sessions.len() == old(store)@.sessions.len() + 1
            &&& final(store)@.sessions.drop_last() == old(store)@.sessions
            &&& is_recovered_session(final(store)@.sessions.last(), session_id@, *now)
        },
        final(store)@.has_session(session_id@),
        old(store)@.wf() ==> final(store)@.wf(),
{
    let ghost was = store@;
    if store.session_index(session_id).is_some() {
        return false;
    }
    let record = SessionRecord {
        id: session_id.to_owned(),
        state: SessionState::Interrupted,
        started_at: now.clone(),
        ended_at: Some(now.clone()),
        microphone_id: None,
        microphone_description: None,
        output_id: None,
        output_description: None,
        monitor_id: None,
        monitor_description: None,
        created_at: now.clone(),
        title: None,
    };
    add_session(store, record);
    proof {
        assert(store@.sessions.drop_last() =~= was.sessions);
        assert(store@.sessions[was.sessions.len() as int].id@ == session_id@);
    }
    true
}

/// Puts in the session of a directory and a run of it where they are not there. Says
/// whether the session is new.
pub fn ensure_session_and_run(
    store: &mut Store,
    session_id: &str,
    run_id: &str,
    config: &Config,
    now: &String,
) -> (r: Result<bool>)
    ensures
        if !has_runs(old(store)@.runs, session_id@) && old(store)@.has_run(run_id@) {
            fails(r, ErrorKind::Database, taken("transcription_runs.id"@)) && final(store)@ == old(
                store,
            )@
        } else {
            &&& r matches Ok(created) && created == !old(store)@.has_session(session_id@)
            &&& is_prepared(
                old(store)@,
                final(store)@,
                session_id@,
                run_id@,
                config.transcription.provider,
                config.model_text(config.transcription.provider),
                *now,
            )
            &&& final(store)@.has_session(session_id@)
            &&& has_runs(final(store)@.runs, session_id@)
        },
        final(store)@ == (Tables {
            sessions: final(store)@.sessions,
            runs: final(store)@.runs,
            ..old(store)@
        }),
        old(store)@.wf() ==> final(store)@.wf(),
{
    let ghost was = store@;
    let has_run = latest_run(store, session_id).is_some();
    if !has_run && store.has_run_row(run_id) {
        return Err(id_taken("transcription_runs.id"));
    }
    let created = ensure_session(store, session_id, now);
    if !has_run {
        let model = config.model_for_provider(config.transcription.provider);
        match insert_run(
            store,
            session_id,
            config.transcription.provider,
            model.as_str(),
            run_id,
            now,
        ) {
            Ok(_) => {},
            Err(e) => return Err(e),
        }
        proof {
            assert(store@.runs.drop_last() =~= was.runs);
            assert(store@.runs[was.runs.len() as int].session_id@ == session_id@);
        }
    }
    proof {
        if was.has_session(session_id@) {
            let i = choose|i: int|
                0 <= i < was.sessions.len() && (#[trigger] was.sessions[i]).id@ == session_id@;
            assert(store@.sessions[i].id@ == session_id@);
        } else {
            assert(store@.sessions[was.sessions.len() as int].id@ == session_id@);
        }
    }
    Ok(created)
}

/// Whether the files of both sources were dealt with, those of the microphone first.
pub open spec fn sources_reconciled(
    was: Tables,
    is: Tables,
    session_id: Seq<char>,
    run: TranscriptionRunRecord,
    mic: Seq<FoundFile>,
    system: Seq<FoundFile>,
    now: String,
    out: Option<(ErrorKind, Seq<char>)>,
) -> bool {
    ||| out is Some && source_reconciled(
        was,
        is,
        session_id,
        run,
        AudioSource::Mic,
        mic,
        now,
        out,
    )
    ||| exists|half: Tables|
        #[trigger] source_reconciled(
            was,
            half,
            session_id,
            run,
            AudioSource::Mic,
            mic,
            now,
            None,
        ) && source_reconciled(half, is, session_id, run, AudioSource::System, system, now, out)
}

/// Whether one directory was dealt with. One whose name is no UUID is passed over.
pub open spec fn session_step(
    was: Tables,
    is: Tables,
    found: FoundSession,
    provider: ProviderKind,
    model: Seq<char>,
    now: String,
    out: Option<(ErrorKind, Seq<char>)>,
) -> bool {
    if !is_uuid(found.id@) {
        is == was && out is None
    } else if !has_runs(was.runs, found.id@) && was.has_run(found.run_id@) {
        is == was && out == Some((ErrorKind::Database, taken("transcription_runs.id"@)))
    } else {
        exists|ready: Tables, i: int|
            #![trigger is_latest_run(ready.runs, found.id@, i)]
            is_prepared(was, ready, found.id@, found.run_id@, provider, model, now)
                && is_latest_run(ready.runs, found.id@, i) && sources_reconciled(
                ready,
                is,
                found.id@,
                ready.runs[i],
                found.mic@,
                found.system@,
                now,
                out,
            )
    }
}

/// Takes in what one directory holds.
fn reconcile_session(
    store: &mut Store,
    found: &FoundSession,
    config: &Config,
    now: &String,
) -> (r: Result<()>)
    ensures
        session_step(
            old(store)@,
            final(store)@,
            *found,
            config.transcription.provider,
            config.model_text(config.transcription.provider),
            *now,
            error_of(r),
        ),
        old(store)@.wf() ==> final(store)@.wf(),
{
    if !uuid_parses(found.id.as_str()) {
        return Ok(());
    }
    let ghost was = store@;
    match ensure_session_and_run(store, found.id.as_str(), found.run_id.as_str(), config, now) {
        Ok(_) => {},
        Err(e) => return Err(e),
    }
    let ghost ready = store@;
    let run = match latest_run(store, found.id.as_str()) {
        Some(run) => run,
        None => {
            assert(false);
            return Ok(());
        },
    };
    let ghost i = choose|i: int|
        #[trigger] is_latest_run(ready.runs, found.id@, i) && ready.runs[i] == run;
    proof {
        assert(is_latest_run(ready.runs, found.id@, i));
        assert(ready.has_run_of(run.id@, found.id@));
    }
    match reconcile_source(store, found.id.as_str(), &run, AudioSource::Mic, &found.mic, now) {
        Ok(_) => {},
        Err(e) => {
            assert(sources_reconciled(
                ready,
                store@,
                found.id@,
                run,
                found.mic@,
                found.system@,
                *now,
                Some(e@),
            ));
            return Err(e);
        },
    }
    let ghost half = store@;
    proof {
        assert(half.has_session(found.id@) == ready.has_session(found.id@));
        assert(half.has_run_of(run.id@, found.id@) == ready.has_run_of(run.id@, found.id@));
    }
    let last = reconcile_source(
        store,
        found.id.as_str(),
        &run,
        AudioSource::System,
        &found.system,
        now,
    );
    proof {
        assert(sources_reconciled(
            ready,
            store@,
            found.id@,
            run,
            found.mic@,
            found.system@,
            *now,
            error_of(last),
        ));
    }
    last
}

/// Whether the tables went through `states` while the directories were dealt with one
/// after the other, up to the end or to an error.
pub open spec fn session_steps(
    states: Seq<Tables>,
    found: Seq<FoundSession>,
    provider: ProviderKind,
    model: Seq<char>,
    now: String,
    out: Option<(ErrorKind, Seq<char>)>,
) -> bool {
    &&& 0 < states.len() <= found.len() + 1
    &&& forall|i: int, j: int|
        #![trigger states[i], states[j]]
        0 <= i && j == i + 1 && j < states.len() ==> session_step(
            states[i],
            states[j],
            found[i],
            provider,
            model,
            now,
            if j == states.len() - 1 {
                out
            } else {
                None
            },
        )
    &&& out is None ==> states.len() == found.len() + 1
    &&& out is Some ==> states.len() >= 2
}

/// Whether the tables were brought in step with the directories.
pub open spec fn reconciled(
    was: Tables,
    is: Tables,
    found: Seq<FoundSession>,
    provider: ProviderKind,
    model: Seq<char>,
    now: String,
    out: Option<(ErrorKind, Seq<char>)>,
) -> bool {
    exists|states: Seq<Tables>|
        #[trigger] session_steps(states, found, provider, model, now, out) && states[0] == was
            && states.last() == is
}

/// Takes in the audio files that the tables do not know, with sessions for them where
/// they have none.
pub fn reconcile_orphan_flac(
    store: &mut Store,
    found: &Vec<FoundSession>,
    config: &Config,
    now: &String,
) -> (r: Result<()>)
    ensures
        reconciled(
            old(store)@,
            final(store)@,
            found@,
            config.transcription.provider,
            config.model_text(config.transcription.provider),
            *now,
            error_of(r),
        ),
        old(store)@.wf() ==> final(store)@.wf(),
{
    let ghost was = store@;
    let ghost provider = config.transcription.provider;
    let ghost model = config.model_text(config.transcription.provider);
    let ghost mut states: Seq<Tables> = seq![was];
    let mut i: usize = 0;
    while i < found.len()
        invariant
            i <= found@.len(),
            was == old(store)@,
            provider == config.transcription.provider,
            model == config.model_text(config.transcription.provider),
            states.len() == i + 1,
            states[0] == was,
            states.last() == store@,
            forall|k: int, j: int|
                #![trigger states[k], states[j]]
                0 <= k && j == k + 1 && j < states.len() ==> session_step(
                    states[k],
                    states[j],
                    found@[k],
                    provider,
                    model,
                    *now,
                    None,
                ),
            was.wf() ==> store@.wf(),
        decreases found.len() - i,
    {
        let done = reconcile_session(store, &found[i], config, now);
        proof {
            let before = states;
            states = states.push(store@);
            assert forall|k: int, j: int|
                #![trigger states[k], states[j]]
                0 <= k && j == k + 1 && j < states.len() implies session_step(
                states[k],
                states[j],
                found@[k],
                provider,
                model,
                *now,
                if j == states.len() - 1 {
                    error_of(done)
                } else {
                    None
                },
            ) by {
                if j < before.len() {
                    assert(states[k] == before[k] && states[j] == before[j]);
                }
            }
        }
        match done {
            Ok(_) => {},
            Err(e) => {
                assert(session_steps(states, found@, provider, model, *now, Some(e@)));
                return Err(e);
            },
        }
        i += 1;
    }
    assert(session_steps(states, found@, provider, model, *now, None));
    Ok(())
}

/// The tables after the sessions and jobs that an earlier life of the program left
/// behind were put in order.
pub open spec fn tidied(tables: Tables, now: String) -> Tables {
    let stopped = Tables {
        sessions: tables.sessions.map_values(|s: SessionRecord| interrupted(s, now)),
        ..tables
    };
    let done = Tables {
        jobs: stopped.jobs.map_values(
            |j: TranscriptionJobRecord| finished(j, stopped, now),
        ),
        ..stopped
    };
    Tables { jobs: done.jobs.map_values(|j: TranscriptionJobRecord| reset(j, done)), ..done }
}

/// Puts the tables in order when the program starts: sessions that ran are
/// interrupted, jobs that were in work wait again or are complete, and audio files
/// that the tables do not know are taken in.
pub fn recover_on_startup(
    store: &mut Store,
    found: &Vec<FoundSession>,
    config: &Config,
    now: &String,
) -> (r: Result<()>)
    ensures
        reconciled(
            tidied(old(store)@, *now),
            final(store)@,
            found@,
            config.transcription.provider,
            config.model_text(config.transcription.provider),
            *now,
            error_of(r),
        ),
        old(store)@.wf() ==> final(store)@.wf(),
{
    let ghost was = store@;
    interrupt_running_sessions(store, now);
    complete_jobs_that_already_have_events(store, now);
    reset_processing_without_event(store);
    proof {
        assert(store@ =~= tidied(was, *now));
    }
    reconcile_orphan_flac(store, found, config, now)
}

/// Whether the tables hold all that they held, and what is new neither runs nor is in
/// work.
pub open spec fn only_grew(was: Tables, is: Tables) -> bool {
    &&& is.events == was.events
    &&& was.sessions.len() <= is.sessions.len()
    &&& was.runs.len() <= is.runs.len()
    &&& was.chunks.len() <= is.chunks.len()
    &&& was.jobs.len() <= is.jobs.len()
    &&& forall|i: int|
        0 <= i < is.sessions.len() ==> if i < was.sessions.len() {
            #[trigger] is.sessions[i] == was.sessions[i]
        } else {
            is.sessions[i].state == SessionState::Interrupted
        }
    &&& forall|i: int| 0 <= i < was.runs.len() ==> #[trigger] is.runs[i] == was.runs[i]
    &&& forall|i: int| 0 <= i < was.chunks.len() ==> #[trigger] is.chunks[i] == was.chunks[i]
    &&& forall|i: int|
        0 <= i < is.jobs.len() ==> if i < was.jobs.len() {
            #[trigger] is.jobs[i] == was.jobs[i]
        } else {
            is.jobs[i].state == JobState::Pending
        }
}

proof fn lemma_growth_adds_up(a: Tables, b: Tables, c: Tables)
    requires
        only_grew(a, b),
        only_grew(b, c),
    ensures
        only_grew(a, c),
{
    assert forall|i: int| 0 <= i < c.sessions.len() implies if i < a.sessions.len() {
        #[trigger] c.sessions[i] == a.sessions[i]
    } else {
        c.sessions[i].state == SessionState::Interrupted
    } by {
        if i < b.sessions.len() {
            assert(c.sessions[i] == b.sessions[i]);
        }
    }
    assert forall|i: int| 0 <= i < a.runs.len() implies #[trigger] c.runs[i] == a.runs[i] by {
        assert(b.runs[i] == a.runs[i]);
    }
    assert forall|i: int| 0 <= i < a.chunks.len() implies #[trigger] c.chunks[i] == a.chunks[i] by {
        assert(b.chunks[i] == a.chunks[i]);
    }
    assert forall|i: int| 0 <= i < c.jobs.len() implies if i < a.jobs.len() {
        #[trigger] c.jobs[i] == a.jobs[i]
    } else {
        c.jobs[i].state == JobState::Pending
    } by {
        if i < b.jobs.len() {
            assert(c.jobs[i] == b.jobs[i]);
        }
    }
}

/// Whether a file needs not be taken in: it is a chunk, or its number is that of one.
pub open spec fn is_known(
    tables: Tables,
    session_id: Seq<char>,
    source: AudioSource,
    file: FoundFile,
) -> bool {
    ||| path_taken(tables.chunks, file.path@)
    ||| chunk_named(file.name@) matches Ok(n) && sequence_taken(
        tables.chunks,
        session_id,
        source,
        n.0,
    )
}

proof fn lemma_known_stays_known(
    was: Tables,
    is: Tables,
    session_id: Seq<char>,
    source: AudioSource,
    file: FoundFile,
)
    requires
        only_grew(was, is),
        is_known(was, session_id, source, file),
    ensures
        is_known(is, session_id, source, file),
{
    if path_taken(was.chunks, file.path@) {
        let k = choose|k: int|
            0 <= k < was.chunks.len() && (#[trigger] was.chunks[k]).file_path@ == file.path@;
        assert(is.chunks[k].file_path@ == file.path@);
    } else {
        let n = chunk_named(file.name@)->Ok_0;
        let k = choose|k: int|
            0 <= k < was.chunks.len() && (#[trigger] was.chunks[k]).session_id@ == session_id
                && was.chunks[k].source == source && was.chunks[k].sequence == n.0;
        assert(is.chunks[k].session_id@ == session_id);
    }
}

proof fn lemma_file_step(
    was: Tables,
    is: Tables,
    session_id: Seq<char>,
    run: TranscriptionRunRecord,
    source: AudioSource,
    file: FoundFile,
    now: String,
    out: Option<(ErrorKind, Seq<char>)>,
)
    requires
        file_step(was, is, session_id, run, source, file, now, out),
    ensures
        only_grew(was, is),
        out is None ==> is_known(is, session_id, source, file),
        is_known(was, session_id, source, file) ==> is == was && out is None,
{
    if is.chunks.len() > was.chunks.len() {
        let n = is.chunks.len() - 1;
        assert(is.chunks[n].file_path@ == file.path@);
    }
}

/// While files are dealt with the tables only grow; those that were dealt with are known.
proof fn lemma_file_steps(
    states: Seq<Tables>,
    session_id: Seq<char>,
    run: TranscriptionRunRecord,
    source: AudioSource,
    files: Seq<FoundFile>,
    now: String,
    out: Option<(ErrorKind, Seq<char>)>,
    n: int,
)
    requires
        file_steps(states, session_id, run, source, files, now, out),
        0 <= n < states.len(),
    ensures
        only_grew(states[0], states[n]),
        forall|k: int|
            0 <= k < n ==> is_known(states[n], session_id, source, #[trigger] files[k]),
        (forall|k: int|
            0 <= k < files.len() ==> is_known(
                states[0],
                session_id,
                source,
                #[trigger] files[k],
            )) ==> states[n] == states[0],
    decreases n,
{
    if n > 0 {
        lemma_file_steps(states, session_id, run, source, files, now, out, n - 1);
        let (a, b) = (states[n - 1], states[n]);
        lemma_file_step(a, b, session_id, run, source, files[n - 1], now, None);
        lemma_growth_adds_up(states[0], a, b);
        assert forall|k: int| 0 <= k < n implies is_known(
            b,
            session_id,
            source,
            #[trigger] files[k],
        ) by {
            if k < n - 1 {
                lemma_known_stays_known(a, b, session_id, source, files[k]);
            }
        }
    }
}

proof fn lemma_source_reconciled(
    was: Tables,
    is: Tables,
    session_id: Seq<char>,
    run: TranscriptionRunRecord,
    source: AudioSource,
    files: Seq<FoundFile>,
    now: String,
    out: Option<(ErrorKind, Seq<char>)>,
)
    requires
        source_reconciled(was, is, session_id, run, source, files, now, out),
    ensures
        only_grew(was, is),
        out is None ==> all_known(is, session_id, source, files),
        all_known(was, session_id, source, files) ==> is == was && out is None,
{
    let audio = audio_files(files);
    let states = choose|states: Seq<Tables>|
        #[trigger] file_steps(states, session_id, run, source, audio, now, out) && states[0] == was
            && states.last() == is;
    lemma_file_steps(states, session_id, run, source, audio, now, out, states.len() - 1);
    if out is Some {
        lemma_file_step(is, is, session_id, run, source, audio[states.len() - 1], now, out);
    }
}

/// Whether no audio of a source needs to be taken in.
pub open spec fn all_known(
    tables: Tables,
    session_id: Seq<char>,
    source: AudioSource,
    files: Seq<FoundFile>,
) -> bool {
    forall|k: int|
        0 <= k < audio_files(files).len() ==> is_known(
            tables,
            session_id,
            source,
            #[trigger] audio_files(files)[k],
        )
}

/// Whether a directory has its session, a run of it, and all of its audio in the tables.
/// One whose name is no UUID is none of a session.
pub open spec fn is_session_known(tables: Tables, found: FoundSession) -> bool {
    is_uuid(found.id@) ==> {
        &&& tables.has_session(found.id@)
        &&& has_runs(tables.runs, found.id@)
        &&& all_known(tables, found.id@, AudioSource::Mic, found.mic@)
        &&& all_known(tables, found.id@, AudioSource::System, found.system@)
    }
}

proof fn lemma_known_session_stays_known(was: Tables, is: Tables, found: FoundSession)
    requires
        only_grew(was, is),
        is_session_known(was, found),
    ensures
        is_session_known(is, found),
{
    if is_uuid(found.id@) {
        let k = choose|k: int|
            0 <= k < was.sessions.len() && (#[trigger] was.sessions[k]).id@ == found.id@;
        assert(is.sessions[k].id@ == found.id@);
        let r = choose|r: int|
            0 <= r < was.runs.len() && (#[trigger] was.runs[r]).session_id@ == found.id@;
        assert(is.runs[r].session_id@ == found.id@);
        assert forall|k: int| 0 <= k < audio_files(found.mic@).len() implies is_known(
            is,
            found.id@,
            AudioSource::Mic,
            #[trigger] audio_files(found.mic@)[k],
        ) by {
            let file = audio_files(found.mic@)[k];
            lemma_known_stays_known(was, is, found.id@, AudioSource::Mic, file);
        }
        assert forall|k: int| 0 <= k < audio_files(found.system@).len() implies is_known(
            is,
            found.id@,
            AudioSource::System,
            #[trigger] audio_files(found.system@)[k],
        ) by {
            let file = audio_files(found.system@)[k];
            lemma_known_stays_known(was, is, found.id@, AudioSource::System, file);
        }
    }
}

proof fn lemma_prepared(
    was: Tables,
    is: Tables,
    session_id: Seq<char>,
    run_id: Seq<char>,
    provider: ProviderKind,
    model: Seq<char>,
    now: String,
)
    requires
        is_prepared(was, is, session_id, run_id, provider, model, now),
    ensures
        only_grew(was, is),
        is.has_session(session_id),
        has_runs(is.runs, session_id),
        was.has_session(session_id) && has_runs(was.runs, session_id) ==> is == was,
{
    if was.has_session(session_id) {
        let k = choose|k: int|
            0 <= k < was.sessions.len() && (#[trigger] was.sessions[k]).id@ == session_id;
        assert(is.sessions[k].id@ == session_id);
    } else {
        assert(is.sessions[was.sessions.len() as int].id@ == session_id);
        assert forall|i: int| 0 <= i < was.sessions.len() implies #[trigger] is.sessions[i]
            == was.sessions[i] by {
            assert(is.sessions.drop_last()[i] == was.sessions[i]);
        }
    }
    if has_runs(was.runs, session_id) {
        let k = choose|k: int|
            0 <= k < was.runs.len() && (#[trigger] was.runs[k]).session_id@ == session_id;
        assert(is.runs[k].session_id@ == session_id);
    } else {
        assert(is.runs[was.runs.len() as int].session_id@ == session_id);
        assert forall|i: int| 0 <= i < was.runs.len() implies #[trigger] is.runs[i]
            == was.runs[i] by {
            assert(is.runs.drop_last()[i] == was.runs[i]);
        }
    }
}

proof fn lemma_session_step(
    was: Tables,
    is: Tables,
    found: FoundSession,
    provider: ProviderKind,
    model: Seq<char>,
    now: String,
    out: Option<(ErrorKind, Seq<char>)>,
)
    requires
        session_step(was, is, found, provider, model, now, out),
    ensures
        only_grew(was, is),
        out is None ==> is_session_known(is, found),
        is_session_known(was, found) ==> is == was && out is None,
{
    let id = found.id@;
    if is_uuid(id) && (has_runs(was.runs, id) || !was.has_run(found.run_id@)) {
        let (ready, i) = choose|ready: Tables, i: int|
            #![trigger is_latest_run(ready.runs, id, i)]
            is_prepared(was, ready, id, found.run_id@, provider, model, now) && is_latest_run(
                ready.runs,
                id,
                i,
            ) && sources_reconciled(
                ready,
                is,
                id,
                ready.runs[i],
                found.mic@,
                found.system@,
                now,
                out,
            );
        let run = ready.runs[i];
        lemma_prepared(was, ready, id, found.run_id@, provider, model, now);
        let (mic, system) = (found.mic@, found.system@);
        if out is Some && source_reconciled(ready, is, id, run, AudioSource::Mic, mic, now, out) {
            lemma_source_reconciled(ready, is, id, run, AudioSource::Mic, mic, now, out);
        } else {
            let half = choose|half: Tables|
                #[trigger] source_reconciled(
                    ready,
                    half,
                    id,
                    run,
                    AudioSource::Mic,
                    mic,
                    now,
                    None,
                ) && source_reconciled(half, is, id, run, AudioSource::System, system, now, out);
            lemma_source_reconciled(ready, half, id, run, AudioSource::Mic, mic, now, None);
            lemma_source_reconciled(half, is, id, run, AudioSource::System, system, now, out);
            if out is None {
                assert forall|k: int| 0 <= k < audio_files(mic).len() implies is_known(
                    is,
                    id,
                    AudioSource::Mic,
                    #[trigger] audio_files(mic)[k],
                ) by {
                    lemma_known_stays_known(half, is, id, AudioSource::Mic, audio_files(mic)[k]);
                }
            }
            lemma_growth_adds_up(ready, half, is);
        }
        lemma_growth_adds_up(was, ready, is);
        if out is None {
            let k = choose|k: int|
                0 <= k < ready.sessions.len() && (#[trigger] ready.sessions[k]).id@ == id;
            assert(is.sessions[k].id@ == id);
            assert(is.runs[i].session_id@ == id);
        }
    }
}

proof fn lemma_session_steps(
    states: Seq<Tables>,
    found: Seq<FoundSession>,
    provider: ProviderKind,
    model: Seq<char>,
    now: String,
    out: Option<(ErrorKind, Seq<char>)>,
    n: int,
)
    requires
        session_steps(states, found, provider, model, now, out),
        0 <= n < states.len(),
    ensures
        only_grew(states[0], states[n]),
        out is None ==> forall|k: int|
            0 <= k < n ==> is_session_known(states[n], #[trigger] found[k]),
        (forall|k: int| 0 <= k < found.len() ==> is_session_known(states[0], #[trigger] found[k]))
            ==> states[n] == states[0] && (n == states.len() - 1 && n > 0 ==> out is None),
    decreases n,
{
    if n > 0 {
        lemma_session_steps(states, found, provider, model, now, out, n - 1);
        let (a, b) = (states[n - 1], states[n]);
        let here = if n == states.len() - 1 {
            out
        } else {
            None
        };
        lemma_session_step(a, b, found[n - 1], provider, model, now, here);
        lemma_growth_adds_up(states[0], a, b);
        if out is None {
            assert forall|k: int| 0 <= k < n implies is_session_known(
                b,
                #[trigger] found[k],
            ) by {
                if k < n - 1 {
                    lemma_known_session_stays_known(a, b, found[k]);
                }
            }
        }
    }
}

/// Putting the tables in step with the directories loses nothing: every session, run,
/// chunk, job and transcript stays as it was.
pub proof fn law_recovery_loses_nothing(
    was: Tables,
    is: Tables,
    found: Seq<FoundSession>,
    provider: ProviderKind,
    model: Seq<char>,
    now: String,
    out: Option<(ErrorKind, Seq<char>)>,
)
    requires
        reconciled(was, is, found, provider, model, now, out),
    ensures
        only_grew(was, is),
{
    let states = choose|states: Seq<Tables>|
        #[trigger] session_steps(states, found, provider, model, now, out) && states[0] == was
            && states.last() == is;
    lemma_session_steps(states, found, provider, model, now, out, states.len() - 1);
}

/// After a recovery that succeeds, every finished audio file of a session is a chunk of
/// it, unless another one has its number.
pub proof fn law_recovered_audio_is_known(
    was: Tables,
    is: Tables,
    found: Seq<FoundSession>,
    provider: ProviderKind,
    model: Seq<char>,
    now: String,
    k: int,
)
    requires
        reconciled(was, is, found, provider, model, now, None),
        0 <= k < found.len(),
    ensures
        is_session_known(is, found[k]),
{
    let states = choose|states: Seq<Tables>|
        #[trigger] session_steps(states, found, provider, model, now, None) && states[0] == was
            && states.last() == is;
    lemma_session_steps(states, found, provider, model, now, None, states.len() - 1);
}

/// Recovering again changes nothing: where all that is found is known, the tables stay
/// as they are, and nothing fails.
pub proof fn law_recovering_again_changes_nothing(
    was: Tables,
    is: Tables,
    found: Seq<FoundSession>,
    provider: ProviderKind,
    model: Seq<char>,
    now: String,
    out: Option<(ErrorKind, Seq<char>)>,
)
    requires
        forall|k: int| 0 <= k < found.len() ==> is_session_known(was, #[trigger] found[k]),
        reconciled(was, is, found, provider, model, now, out),
    ensures
        is == was,
        out is None,
{
    let states = choose|states: Seq<Tables>|
        #[trigger] session_steps(states, found, provider, model, now, out) && states[0] == was
            && states.last() == is;
    lemma_session_steps(states, found, provider, model, now, out, states.len() - 1);
}

/// Tables that were put in order hold no session that runs and no job in work.
proof fn lemma_tidied_tables_rest(tables: Tables, now: String)
    ensures
        ({
            let after = tidied(tables, now);
            &&& forall|i: int|
                0 <= i < after.sessions.len() ==> (#[trigger] after.sessions[i]).state
                    != SessionState::Running
            &&& forall|i: int|
                0 <= i < after.jobs.len() ==> (#[trigger] after.jobs[i]).state
                    != JobState::Processing
        }),
{
    let stopped = Tables {
        sessions: tables.sessions.map_values(|s: SessionRecord| interrupted(s, now)),
        ..tables
    };
    let after = tidied(tables, now);
    assert forall|i: int| 0 <= i < after.jobs.len() implies (#[trigger] after.jobs[i]).state
        != JobState::Processing by {
        let done = Tables {
            jobs: stopped.jobs.map_values(
                |j: TranscriptionJobRecord| finished(j, stopped, now),
            ),
            ..stopped
        };
        assert(after.jobs[i] == reset(done.jobs[i], done));
        assert(done.jobs[i] == finished(stopped.jobs[i], stopped, now));
        assert(done.job_has_event(done.jobs[i].id@) == stopped.job_has_event(
            stopped.jobs[i].id@,
        ));
    }
}

/// After a start no session runs and no job is in work, and no chunk or transcript is
/// gone.
pub proof fn law_a_start_leaves_nothing_running(
    was: Tables,
    is: Tables,
    found: Seq<FoundSession>,
    provider: ProviderKind,
    model: Seq<char>,
    now: String,
    out: Option<(ErrorKind, Seq<char>)>,
)
    requires
        reconciled(tidied(was, now), is, found, provider, model, now, out),
    ensures
        forall|i: int|
            0 <= i < is.sessions.len() ==> (#[trigger] is.sessions[i]).state
                != SessionState::Running,
        forall|i: int|
            0 <= i < is.jobs.len() ==> (#[trigger] is.jobs[i]).state != JobState::Processing,
        forall|i: int| 0 <= i < was.chunks.len() ==> #[trigger] is.chunks[i] == was.chunks[i],
        is.events == was.events,
{
    lemma_tidied_tables_rest(was, now);
    law_recovery_loses_nothing(tidied(was, now), is, found, provider, model, now, out);
    let tidy = tidied(was, now);
    assert forall|i: int| 0 <= i < is.sessions.len() implies (#[trigger] is.sessions[i]).state
        != SessionState::Running by {
        if i < tidy.sessions.len() {
            assert(is.sessions[i] == tidy.sessions[i]);
        }
    }
    assert forall|i: int| 0 <= i < is.jobs.len() implies (#[trigger] is.jobs[i]).state
        != JobState::Processing by {
        if i < tidy.jobs.len() {
            assert(is.jobs[i] == tidy.jobs[i]);
        }
    }
}

/// A file of unfinished audio is one that ends with `.tmp` and has `.flac` in its name.
pub proof fn law_unfinished_audio_is_known_by_its_name(name: Seq<char>)
    ensures
        is_leftover_name(name) <==> name.len() > 4 && name.skip(name.len() - 4) == ".tmp"@ && exists|
            i: int,
        |
            0 <= i && i + 5 <= name.len() && #[trigger] name.subrange(i, i + 5) == ".flac"@,
{
    reveal_strlit("tmp");
    reveal_strlit(".tmp");
    reveal_strlit(".flac");
    assert(!"tmp"@.contains('.'));
    text::law_extensions_follow_the_last_dot(name, "tmp"@);
    if name.len() > 4 {
        let tail = name.skip(name.len() - 4);
        assert(tail.skip(1) =~= name.skip(name.len() - 3));
        assert(tail[0] == name[name.len() - 4]);
        if name[name.len() - 4] == '.' && name.skip(name.len() - 3) == "tmp"@ {
            assert(tail[1] == name.skip(name.len() - 3)[0]);
            assert(tail[2] == name.skip(name.len() - 3)[1]);
            assert(tail[3] == name.skip(name.len() - 3)[2]);
            assert(tail =~= ".tmp"@);
        }
        if tail == ".tmp"@ {
            assert(name.skip(name.len() - 3) =~= "tmp"@);
        }
    }
    if text::has_infix(name, ".flac"@) {
        let i = choose|i: int| text::occurs_at(name, ".flac"@, i);
        assert(name.subrange(i, i + 5) == ".flac"@);
    }
    if exists|i: int| 0 <= i && i + 5 <= name.len() && #[trigger] name.subrange(i, i + 5) == ".flac"@ {
        let i = choose|i: int|
            0 <= i && i + 5 <= name.len() && #[trigger] name.subrange(i, i + 5) == ".flac"@;
        assert(text::occurs_at(name, ".flac"@, i));
    }
}

/// Audio that the tables do not know is looked at in the order of its names, and all of it.
pub proof fn law_found_audio_is_taken_in_order(
    files: Seq<FoundFile>,
    file: FoundFile,
    i: int,
    j: int,
)
    ensures
        audio_files(files).contains(file) <==> files.contains(file) && text::has_extension(
            file.name@,
            "flac"@,
        ) && !text::has_suffix(file.name@, ".tmp"@),
        0 <= i < j < audio_files(files).len() ==> text::text_le(
            audio_files(files)[i].name@,
            audio_files(files)[j].name@,
        ),
{
    let found = files.filter(is_audio());
    let listed = audio_files(files);
    crate::sorting::law_ranking_keeps_all_values_in_order(found);
    found.to_multiset_ensures();
    listed.to_multiset_ensures();
    crate::storage::deletion::lemma_filter_keeps(files, is_audio(), file);
    assert(listed.contains(file) <==> listed.to_multiset().contains(file));
    assert(found.contains(file) <==> found.to_multiset().contains(file));
    if 0 <= i < j < listed.len() {
        assert(listed[i].ranks_before(&listed[j]));
    }
}

/// Audio that is taken in becomes a chunk of its session with the number and the start that
/// its name tells and a length of half a minute, and gets a job of the run that waits.
/// Leap seconds are left out.
pub proof fn law_recovered_audio_waits_for_its_transcript(
    was: Tables,
    is: Tables,
    session_id: Seq<char>,
    run: TranscriptionRunRecord,
    source: AudioSource,
    file: FoundFile,
    now: String,
    sequence: u64,
    started: UtcTime,
)
    requires
        file_step(was, is, session_id, run, source, file, now, None),
        !path_taken(was.chunks, file.path@),
        chunk_named(file.name@) == Ok::<(u64, UtcTime), (ErrorKind, Seq<char>)>(
            (sequence, started),
        ),
        !sequence_taken(was.chunks, session_id, source, sequence),
        started.wf(),
        started.nanos < 1_000_000_000,
        crate::timeutil::can_shift(started, 30_000),
    ensures
        ({
            let chunk = is.chunks.last();
            let job = is.jobs.last();
            &&& is == (Tables {
                chunks: was.chunks.push(chunk),
                jobs: was.jobs.push(job),
                ..was
            })
            &&& chunk.session_id@ == session_id
            &&& chunk.source == source
            &&& chunk.sequence == sequence
            &&& chunk.file_path@ == file.path@
            &&& chunk.started_at@ == rfc3339_millis(started.secs, started.nanos)
            &&& chunk.ended_at@ == rfc3339_millis((started.secs + 30) as i64, started.nanos)
            &&& chunk.duration_ms == 30_000
            &&& job.audio_chunk_id@ == chunk.id@
            &&& job.run_id@ == run.id@
            &&& job.provider == run.provider
            &&& job.state == JobState::Pending
            &&& job.attempt_count == 0
            &&& run.model matches Some(model) ==> (job.model matches Some(m) && m@ == model@)
        }),
{
    let chunk = is.chunks.last();
    let ended = choose|ended: UtcTime|
        (ended.secs as int, ended.nanos as int) == shifted(started, RECOVERED_MS as nat)
            && chunk.ended_at@ == #[trigger] rfc3339_millis(ended.secs, ended.nanos);
    crate::timeutil::law_a_shift_adds_the_milliseconds(started, 30_000, ended);
    assert(ended.secs == started.secs + 30 && ended.nanos == started.nanos);
}

/// A start puts what an earlier life of the program left behind in order: sessions that ran
/// are interrupted now; jobs that were in work are complete where they have a transcript
/// and wait again where they have none; nothing else changes.
pub proof fn law_a_start_puts_things_in_order(tables: Tables, now: String, s: int, j: int)
    requires
        0 <= s < tables.sessions.len(),
        0 <= j < tables.jobs.len(),
    ensures
        ({
            let is = tidied(tables, now);
            let session = tables.sessions[s];
            let job = tables.jobs[j];
            let has_transcript = exists|i: int|
                0 <= i < tables.events.len() && (#[trigger] tables.events[i]).job_id@ == job.id@;
            &&& is.runs == tables.runs
            &&& is.chunks == tables.chunks
            &&& is.events == tables.events
            &&& is.sessions.len() == tables.sessions.len()
            &&& is.jobs.len() == tables.jobs.len()
            &&& is.sessions[s] == if session.state == SessionState::Running {
                SessionRecord { state: SessionState::Interrupted, ended_at: Some(now), ..session }
            } else {
                session
            }
            &&& is.jobs[j] == if job.state != JobState::Processing {
                job
            } else if has_transcript {
                TranscriptionJobRecord {
                    state: JobState::Completed,
                    completed_at: if job.completed_at is Some {
                        job.completed_at
                    } else {
                        Some(now)
                    },
                    ..job
                }
            } else {
                TranscriptionJobRecord { state: JobState::Pending, started_at: None, ..job }
            }
        }),
{
    let job = tables.jobs[j];
    let has_transcript = exists|i: int|
        0 <= i < tables.events.len() && (#[trigger] tables.events[i]).job_id@ == job.id@;
    assert(has_transcript == tables.job_has_event(job.id@));
    let stopped = Tables {
        sessions: tables.sessions.map_values(|s: SessionRecord| interrupted(s, now)),
        ..tables
    };
    assert(stopped.job_has_event(job.id@) == tables.job_has_event(job.id@));
    let done = Tables {
        jobs: stopped.jobs.map_values(|j: TranscriptionJobRecord| finished(j, stopped, now)),
        ..stopped
    };
    assert(done.job_has_event(job.id@) == tables.job_has_event(job.id@));
    assert(done.jobs[j] == finished(job, stopped, now));
}

/// Which directories are those of sessions: those named with a UUID in groups of
/// hexadecimal digits are, and none with a name that is shorter.
pub proof fn law_session_directories_are_named_by_uuids(s: Seq<char>)
    ensures
        s.len() == 36 && (forall|i: int|
            #![trigger s[i]]
            0 <= i < 36 ==> if i == 8 || i == 13 || i == 18 || i == 23 {
                s[i] == '-'
            } else {
                '0' <= s[i] <= '9' || 'a' <= s[i] <= 'f' || 'A' <= s[i] <= 'F'
            }) ==> is_uuid(s),
        s.len() < 32 ==> !is_uuid(s),
        s.len() == 36 && is_uuid(s) ==> forall|i: int|
            #![trigger s[i]]
            0 <= i < 36 ==> if i == 8 || i == 13 || i == 18 || i == 23 {
                s[i] == '-'
            } else {
                '0' <= s[i] <= '9' || 'a' <= s[i] <= 'f' || 'A' <= s[i] <= 'F'
            },
{
}

/// A session whose audio was found gets what it lacks: a record that says that it was
/// interrupted, and a run. What is there stays.
pub proof fn law_found_sessions_get_what_they_lack(
    was: Tables,
    is: Tables,
    session_id: Seq<char>,
    run_id: Seq<char>,
    provider: ProviderKind,
    model: Seq<char>,
    now: String,
)
    requires
        is_prepared(was, is, session_id, run_id, provider, model, now),
    ensures
        is.chunks == was.chunks,
        is.jobs == was.jobs,
        is.events == was.events,
        was.has_session(session_id) ==> is.sessions == was.sessions,
        !was.has_session(session_id) ==> {
            &&& is.sessions == was.sessions.push(is.sessions.last())
            &&& is.sessions.last().id@ == session_id
            &&& is.sessions.last().state == SessionState::Interrupted
            &&& is.sessions.last().started_at == now
            &&& is.sessions.last().ended_at == Some(now)
            &&& is.sessions.last().title is None
        },
        has_runs(was.runs, session_id) ==> is.runs == was.runs,
        !has_runs(was.runs, session_id) ==> {
            &&& is.runs == was.runs.push(is.runs.last())
            &&& is.runs.last().id@ == run_id
            &&& is.runs.last().session_id@ == session_id
            &&& is.runs.last().provider == provider
            &&& is.runs.last().model matches Some(m) && m@ == model
        },
{
    if !was.has_session(session_id) {
        assert(is.sessions =~= is.sessions.drop_last().push(is.sessions.last()));
    }
    if !has_runs(was.runs, session_id) {
        assert(is.runs =~= is.runs.drop_last().push(is.runs.last()));
    }
}

spec fn grown_by(was: Tables, is: Tables, session_id: Seq<char>, source: AudioSource) -> bool {
    &&& is.sessions == was.sessions
    &&& is.runs == was.runs
    &&& is.events == was.events
    &&& was.chunks.len() <= is.chunks.len()
    &&& is.chunks.take(was.chunks.len() as int) == was.chunks
    &&& was.jobs.len() <= is.jobs.len()
    &&& is.jobs.take(was.jobs.len() as int) == was.jobs
    &&& is.chunks.len() - was.chunks.len() == is.jobs.len() - was.jobs.len()
    &&& forall|k: int|
        was.chunks.len() <= k < is.chunks.len() ==> (#[trigger] is.chunks[k]).session_id@
            == session_id && is.chunks[k].source == source
}

proof fn lemma_a_step_grows(
    start: Tables,
    was: Tables,
    is: Tables,
    session_id: Seq<char>,
    run: TranscriptionRunRecord,
    source: AudioSource,
    file: FoundFile,
    now: String,
    out: Option<(ErrorKind, Seq<char>)>,
)
    requires
        grown_by(start, was, session_id, source),
        file_step(was, is, session_id, run, source, file, now, out),
    ensures
        grown_by(start, is, session_id, source),
{
    if is != was {
        let n = start.chunks.len() as int;
        assert(is.chunks.len() == was.chunks.len() + 1);
        assert(is.chunks.take(n) =~= was.chunks.take(n));
        assert(is.jobs.take(start.jobs.len() as int) =~= was.jobs.take(start.jobs.len() as int));
        assert forall|k: int| n <= k < is.chunks.len() implies (#[trigger] is.chunks[k]).session_id@
            == session_id && is.chunks[k].source == source by {
            if k < was.chunks.len() {
                assert(is.chunks[k] == was.chunks[k]);
            } else {
                assert(is.chunks[k] == is.chunks.last());
            }
        }
    }
}

proof fn lemma_steps_grow(
    states: Seq<Tables>,
    session_id: Seq<char>,
    run: TranscriptionRunRecord,
    source: AudioSource,
    files: Seq<FoundFile>,
    now: String,
    out: Option<(ErrorKind, Seq<char>)>,
    n: int,
)
    requires
        file_steps(states, session_id, run, source, files, now, out),
        0 <= n < states.len(),
    ensures
        grown_by(states[0], states[n], session_id, source),
    decreases n,
{
    if n == 0 {
        let s = states[0];
        assert(s.chunks.take(s.chunks.len() as int) =~= s.chunks);
        assert(s.jobs.take(s.jobs.len() as int) =~= s.jobs);
    } else {
        lemma_steps_grow(states, session_id, run, source, files, now, out, n - 1);
        assert(file_step(
            states[n - 1],
            states[n],
            session_id,
            run,
            source,
            files[n - 1],
            now,
            None,
        ));
        lemma_a_step_grows(
            states[0],
            states[n - 1],
            states[n],
            session_id,
            run,
            source,
            files[n - 1],
            now,
            None,
        );
    }
}

/// To take in the audio of a source adds chunks of that source and session behind those that
/// are there, each with a job, and changes nothing else.
pub proof fn law_found_audio_is_added(
    was: Tables,
    is: Tables,
    session_id: Seq<char>,
    run: TranscriptionRunRecord,
    source: AudioSource,
    files: Seq<FoundFile>,
    now: String,
    out: Option<(ErrorKind, Seq<char>)>,
    k: int,
)
    requires
        source_reconciled(was, is, session_id, run, source, files, now, out),
    ensures
        is.sessions == was.sessions,
        is.runs == was.runs,
        is.events == was.events,
        was.chunks.is_prefix_of(is.chunks),
        was.jobs.is_prefix_of(is.jobs),
        is.chunks.len() - was.chunks.len() == is.jobs.len() - was.jobs.len(),
        was.chunks.len() <= k < is.chunks.len() ==> is.chunks[k].session_id@ == session_id
            && is.chunks[k].source == source,
{
    let states = choose|states: Seq<Tables>|
        #[trigger] file_steps(states, session_id, run, source, audio_files(files), now, out)
            && states[0] == was && states.last() == is;
    lemma_steps_grow(
        states,
        session_id,
        run,
        source,
        audio_files(files),
        now,
        out,
        states.len() - 1,
    );
}

/// Only directories that are named by a UUID are taken for sessions, and a session's
/// microphone is taken in before what the machine played.
pub proof fn law_what_is_taken_for_a_session(
    was: Tables,
    is: Tables,
    found: FoundSession,
    provider: ProviderKind,
    model: Seq<char>,
    now: String,
)
    requires
        session_step(was, is, found, provider, model, now, None),
    ensures
        !is_uuid(found.id@) ==> is == was,
        is_uuid(found.id@) ==> exists|ready: Tables, half: Tables, i: int|
            {
                &&& is_prepared(was, ready, found.id@, found.run_id@, provider, model, now)
                &&& is_latest_run(ready.runs, found.id@, i)
                &&& #[trigger] source_reconciled(
                    ready,
                    half,
                    found.id@,
                    ready.runs[i],
                    AudioSource::Mic,
                    found.mic@,
                    now,
                    None,
                )
                &&& source_reconciled(
                    half,
                    is,
                    found.id@,
                    ready.runs[i],
                    AudioSource::System,
                    found.system@,
                    now,
                    None,
                )
            },
{
    if is_uuid(found.id@) {
        let (ready, i) = choose|ready: Tables, i: int|
            #![trigger is_latest_run(ready.runs, found.id@, i)]
            is_prepared(was, ready, found.id@, found.run_id@, provider, model, now)
                && is_latest_run(ready.runs, found.id@, i) && sources_reconciled(
                ready,
                is,
                found.id@,
                ready.runs[i],
                found.mic@,
                found.system@,
                now,
                None,
            );
        let half = choose|half: Tables|
            #[trigger] source_reconciled(
                ready,
                half,
                found.id@,
                ready.runs[i],
                AudioSource::Mic,
                found.mic@,
                now,
                None,
            ) && source_reconciled(
                half,
                is,
                found.id@,
                ready.runs[i],
                AudioSource::System,
                found.system@,
                now,
                None,
            );
        assert(source_reconciled(
            ready,
            half,
            found.id@,
            ready.runs[i],
            AudioSource::Mic,
            found.mic@,
            now,
            None,
        ));
    }
}

} // verus!
