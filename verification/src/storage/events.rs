//! Transcripts, and the life of the jobs that make them.

use crate::audio::convert::TARGET_RATE;
use crate::audio::speech::{
    align_chunk_times_16k, aligned_times, duration_ms, is_speech_range,
    law_aligned_times_are_those_of_the_speech, law_speech_range_is_inside, length_ms, speech_range,
};
use crate::audio::AudioSource;
use crate::config::ProviderKind;
use crate::encode::{decode_flac_i16_mono_16k, flac_read, pcm_of};
use crate::error::{fails, AppError, ErrorKind, Result};
use crate::sorting::{law_ranking_keeps_all_values_in_order, rank, ranked, Ranked};
use crate::storage::jobs::{
    coalesce, coalesced, count_by_state, count_jobs, lemma_same_job_keys,
};
use crate::storage::types::{AudioChunkRecord, JobState, TranscriptionJobRecord};
use crate::storage::{find_chunk, find_job, lemma_rows_still_belong, Store, Tables};
use crate::text;
use crate::timeutil::{
    can_shift, datetime_rfc3339, law_a_shift_adds_the_milliseconds, not_later, parse_rfc3339,
    parsed_time, representable, rfc3339_millis, rfc3339_parsed, shifted, UtcTime,
};
use crate::transcription::TranscriptionResult;
use vstd::prelude::*;

verus! {

#[derive(Debug)]
pub struct TranscriptEventRecord {
    pub id: String,
    pub session_id: String,
    pub audio_chunk_id: String,
    pub job_id: String,
    pub source: AudioSource,
    pub sequence: u64,
    pub started_at: String,
    pub ended_at: String,
    pub text: String,
    pub provider: ProviderKind,
    pub model: String,
    pub is_canonical: bool,
    pub created_at: String,
}

impl Clone for TranscriptEventRecord {
    fn clone(&self) -> (r: Self)
        ensures
            r == *self,
    {
        TranscriptEventRecord {
            id: self.id.clone(),
            session_id: self.session_id.clone(),
            audio_chunk_id: self.audio_chunk_id.clone(),
            job_id: self.job_id.clone(),
            source: self.source,
            sequence: self.sequence,
            started_at: self.started_at.clone(),
            ended_at: self.ended_at.clone(),
            text: self.text.clone(),
            provider: self.provider,
            model: self.model.clone(),
            is_canonical: self.is_canonical,
            created_at: self.created_at.clone(),
        }
    }
}

/// What the audio of a chunk says of the time of its speech: start and end of the
/// chunk and the samples. `None` where the words are blank, the file is not there or
/// cannot be read, or the chunk has no proper times.
pub open spec fn timed_audio(
    words: Seq<char>,
    path: Seq<char>,
    audio: Option<Seq<u8>>,
    started: Seq<char>,
    ended: Seq<char>,
) -> Option<(UtcTime, UtcTime, Seq<i16>)> {
    if text::is_blank(words) {
        None
    } else {
        match (audio, parsed_time(started), parsed_time(ended)) {
            (Some(bytes), Some(from), Some(to)) => match pcm_of(flac_read(bytes), path) {
                Ok(samples) => if can_shift(
                    from,
                    length_ms(samples.len() as int, TARGET_RATE as int) as nat,
                ) {
                    Some((from, to, samples))
                } else {
                    None
                },
                Err(_) => None,
            },
            _ => None,
        }
    }
}

/// Start and end of a transcript: those of the speech in the audio, or of the chunk.
pub open spec fn event_window(
    words: Seq<char>,
    path: Seq<char>,
    audio: Option<Seq<u8>>,
    started: Seq<char>,
    ended: Seq<char>,
) -> (Seq<char>, Seq<char>) {
    match timed_audio(words, path, audio, started, ended) {
        None => (started, ended),
        Some((from, to, samples)) => {
            let times = aligned_times(from, to, speech_range(samples, TARGET_RATE as int));
            (
                rfc3339_millis(times.0.secs, times.0.nanos),
                rfc3339_millis(times.1.secs, times.1.nanos),
            )
        },
    }
}

/// The bytes of a file, where it is there.
pub open spec fn contents(audio: Option<&Vec<u8>>) -> Option<Seq<u8>> {
    match audio {
        Some(bytes) => Some(bytes@),
        None => None,
    }
}

/// Start and end of a transcript. `audio` is what the chunk's file holds, where it is
/// there.
pub fn aligned_times_for_event(
    words: &str,
    file_path: &str,
    audio: Option<&Vec<u8>>,
    chunk_started_at: &str,
    chunk_ended_at: &str,
) -> (r: (String, String))
    ensures
        (r.0@, r.1@) == event_window(
            words@,
            file_path@,
            contents(audio),
            chunk_started_at@,
            chunk_ended_at@,
        ),
{
    let window = (chunk_started_at.to_owned(), chunk_ended_at.to_owned());
    if text::blank(words) {
        return window;
    }
    let bytes = match audio {
        Some(bytes) => bytes,
        None => return window,
    };
    let from = match parse_rfc3339(chunk_started_at) {
        Ok(from) => from,
        Err(_) => return window,
    };
    let to = match parse_rfc3339(chunk_ended_at) {
        Ok(to) => to,
        Err(_) => return window,
    };
    match decode_flac_i16_mono_16k(file_path, bytes.as_slice()) {
        Ok(samples) => {
            let length: u64 = duration_ms(samples.len(), TARGET_RATE);
            if !from.can_move(length) {
                return window;
            }
            let (start, end) = align_chunk_times_16k(from, to, samples.as_slice());
            (datetime_rfc3339(start), datetime_rfc3339(end))
        },
        Err(_) => window,
    }
}

/// A job whose transcript is there.
pub open spec fn closed(job: TranscriptionJobRecord, now: String) -> TranscriptionJobRecord {
    TranscriptionJobRecord {
        state: JobState::Completed,
        completed_at: coalesce(job.completed_at, now),
        ..job
    }
}

/// A job whose transcript has just been stored.
pub open spec fn succeeded(job: TranscriptionJobRecord, now: String) -> TranscriptionJobRecord {
    TranscriptionJobRecord {
        state: JobState::Completed,
        completed_at: Some(now),
        last_error: None,
        ..job
    }
}

/// A transcript that no longer counts where it is one of this chunk.
pub open spec fn superseded(
    event: TranscriptEventRecord,
    chunk_id: Seq<char>,
) -> TranscriptEventRecord {
    if event.audio_chunk_id@ == chunk_id {
        TranscriptEventRecord { is_canonical: false, ..event }
    } else {
        event
    }
}

/// Whether `event` is the transcript that `result` gives of a chunk.
pub open spec fn is_event_of(
    event: TranscriptEventRecord,
    chunk: AudioChunkRecord,
    job_id: Seq<char>,
    result: TranscriptionResult,
    audio: Option<Seq<u8>>,
    event_id: Seq<char>,
    now: String,
) -> bool {
    &&& event.id@ == event_id
    &&& event.session_id == chunk.session_id
    &&& event.audio_chunk_id == chunk.id
    &&& event.job_id@ == job_id
    &&& event.source == chunk.source
    &&& event.sequence == chunk.sequence
    &&& (event.started_at@, event.ended_at@) == event_window(
        result.text@,
        chunk.file_path@,
        audio,
        chunk.started_at@,
        chunk.ended_at@,
    )
    &&& event.text == result.text
    &&& event.provider == result.provider
    &&& event.model == result.model
    &&& event.is_canonical
    &&& event.created_at == now
}

/// The chunk that a job transcribes.
pub open spec fn chunk_of_job(tables: Tables, job_id: Seq<char>) -> Option<AudioChunkRecord> {
    match find_job(tables.jobs, job_id) {
        Some(job) => find_chunk(tables.chunks, job.audio_chunk_id@),
        None => None,
    }
}

/// The message for a row that is not there.
pub open spec fn no_rows() -> Seq<char> {
    "Query returned no rows"@
}

pub fn no_row() -> (e: AppError)
    ensures
        e@ == (ErrorKind::Database, no_rows()),
{
    AppError::Database("Query returned no rows".to_owned())
}

fn close_jobs(store: &mut Store, job_id: &str, fresh: bool, now: &String)
    ensures
        final(store)@ == (Tables {
            jobs: old(store)@.jobs.map_values(
                |j: TranscriptionJobRecord|
                    if j.id@ != job_id@ {
                        j
                    } else if fresh {
                        succeeded(j, *now)
                    } else {
                        closed(j, *now)
                    },
            ),
            ..old(store)@
        }),
        old(store)@.wf() ==> final(store)@.wf(),
{
    let ghost was = store@;
    let mut i: usize = 0;
    while i < store.jobs.len()
        invariant
            i <= store.jobs@.len(),
            store.jobs@.len() == was.jobs.len(),
            store@ == (Tables { jobs: store@.jobs, ..was }),
            forall|k: int|
                0 <= k < i ==> store.jobs@[k] == if (#[trigger] was.jobs[k]).id@ != job_id@ {
                    was.jobs[k]
                } else if fresh {
                    succeeded(was.jobs[k], *now)
                } else {
                    closed(was.jobs[k], *now)
                },
            forall|k: int| i <= k < was.jobs.len() ==> store.jobs@[k] == #[trigger] was.jobs[k],
        decreases store.jobs.len() - i,
    {
        if text::same(store.jobs[i].id.as_str(), job_id) {
            let mut job = store.jobs[i].clone();
            job.state = JobState::Completed;
            if fresh {
                job.completed_at = Some(now.clone());
                job.last_error = None;
            } else {
                job.completed_at = coalesced(&store.jobs[i].completed_at, now);
            }
            store.jobs[i] = job;
        }
        i += 1;
    }
    proof {
        lemma_same_job_keys(was, store@);
    }
}

fn supersede_events(store: &mut Store, chunk_id: &str)
    ensures
        final(store)@ == (Tables {
            events: old(store)@.events.map_values(
                |e: TranscriptEventRecord| superseded(e, chunk_id@),
            ),
            ..old(store)@
        }),
{
    let ghost was = store@;
    let mut i: usize = 0;
    while i < store.events.len()
        invariant
            i <= store.events@.len(),
            store.events@.len() == was.events.len(),
            store@ == (Tables { events: store@.events, ..was }),
            forall|k: int|
                0 <= k < i ==> store.events@[k] == superseded(#[trigger] was.events[k], chunk_id@),
            forall|k: int|
                i <= k < was.events.len() ==> store.events@[k] == #[trigger] was.events[k],
        decreases store.events.len() - i,
    {
        if text::same(store.events[i].audio_chunk_id.as_str(), chunk_id) {
            let mut event = store.events[i].clone();
            event.is_canonical = false;
            store.events[i] = event;
        }
        i += 1;
    }
}

/// Stores the transcript of a job and completes the job. A job that has a transcript
/// already is only completed, and the answer is then `false`.
pub fn record_transcription_success(
    store: &mut Store,
    job_id: &str,
    result: &TranscriptionResult,
    audio: Option<&Vec<u8>>,
    event_id: &str,
    now: &String,
) -> (r: Result<bool>)
    ensures
        if old(store)@.job_has_event(job_id@) {
            &&& r matches Ok(inserted) && !inserted
            &&& final(store)@ == (Tables {
                jobs: old(store)@.jobs.map_values(
                    |j: TranscriptionJobRecord|
                        if j.id@ == job_id@ {
                            closed(j, *now)
                        } else {
                            j
                        },
                ),
                ..old(store)@
            })
        } else {
            match chunk_of_job(old(store)@, job_id@) {
                None => fails(r, ErrorKind::Database, no_rows()) && final(store)@ == old(store)@,
                Some(chunk) => {
                    &&& r matches Ok(inserted) && inserted
                    &&& final(store)@.events.len() == old(store)@.events.len() + 1
                    &&& is_event_of(
                        final(store)@.events.last(),
                        chunk,
                        job_id@,
                        *result,
                        contents(audio),
                        event_id@,
                        *now,
                    )
                    &&& final(store)@ == (Tables {
                        jobs: old(store)@.jobs.map_values(
                            |j: TranscriptionJobRecord|
                                if j.id@ == job_id@ {
                                    succeeded(j, *now)
                                } else {
                                    j
                                },
                        ),
                        events: old(store)@.events.map_values(
                            |e: TranscriptEventRecord| superseded(e, chunk.id@),
                        ).push(final(store)@.events.last()),
                        ..old(store)@
                    })
                },
            }
        },
        old(store)@.wf() ==> final(store)@.wf(),
{
    if store.has_event_for_job(job_id) {
        close_jobs(store, job_id, false, now);
        return Ok(false);
    }
    let ghost was = store@;
    let at = match store.job_index(job_id) {
        Some(at) => at,
        None => return Err(no_row()),
    };
    let chunk = match store.chunk_index(store.jobs[at].audio_chunk_id.as_str()) {
        Some(c) => store.chunks[c].clone(),
        None => return Err(no_row()),
    };
    let (started_at, ended_at) = aligned_times_for_event(
        result.text.as_str(),
        chunk.file_path.as_str(),
        audio,
        chunk.started_at.as_str(),
        chunk.ended_at.as_str(),
    );
    let event = TranscriptEventRecord {
        id: event_id.to_owned(),
        session_id: chunk.session_id.clone(),
        audio_chunk_id: chunk.id.clone(),
        job_id: job_id.to_owned(),
        source: chunk.source,
        sequence: chunk.sequence,
        started_at,
        ended_at,
        text: result.text.clone(),
        provider: result.provider,
        model: result.model.clone(),
        is_canonical: true,
        created_at: now.clone(),
    };
    supersede_events(store, chunk.id.as_str());
    store.events.push(event);
    proof {
        if was.wf() {
            assert(was.chunks.contains(chunk));
            assert(was.jobs.contains(was.jobs[at as int]));
            lemma_event_keeps_wf(was, store@, chunk, was.jobs[at as int], event);
        }
    }
    close_jobs(store, job_id, true, now);
    Ok(true)
}

proof fn lemma_event_keeps_wf(
    was: Tables,
    now: Tables,
    chunk: AudioChunkRecord,
    job: TranscriptionJobRecord,
    event: TranscriptEventRecord,
)
    requires
        was.wf(),
        now == (Tables {
            events: was.events.map_values(
                |e: TranscriptEventRecord| superseded(e, chunk.id@),
            ).push(event),
            ..was
        }),
        event.audio_chunk_id@ == chunk.id@,
        event.session_id@ == chunk.session_id@,
        was.chunks.contains(chunk),
        was.jobs.contains(job),
        job.id@ == event.job_id@,
        job.audio_chunk_id@ == chunk.id@,
        !was.job_has_event(event.job_id@),
    ensures
        now.wf(),
{
    assert forall|i: int| 0 <= i < was.events.len() implies #[trigger] now.events[i] == superseded(
        was.events[i],
        chunk.id@,
    ) by {}
    let c = choose|c: int| 0 <= c < was.chunks.len() && was.chunks[c] == chunk;
    let q = choose|q: int| 0 <= q < was.jobs.len() && was.jobs[q] == job;
    assert(was.chunks[c].id@ == chunk.id@);
    assert(was.has_chunk(chunk.id@));
    assert(was.jobs[q].id@ == event.job_id@);
    assert(was.has_job(event.job_id@));
    assert(now.jobs[q].audio_chunk_id@ == event.audio_chunk_id@);
    assert(now.chunks[c].session_id@ == event.session_id@);
    assert(now.event_belongs(event));
    lemma_rows_still_belong(was, now);
    assert forall|i: int| 0 <= i < now.runs.len() implies now.has_session(
        (#[trigger] now.runs[i]).session_id@,
    ) by {
        assert(was.has_session(was.runs[i].session_id@));
    }
    assert forall|i: int| 0 <= i < now.chunks.len() implies now.has_session(
        (#[trigger] now.chunks[i]).session_id@,
    ) by {
        assert(was.has_session(was.chunks[i].session_id@));
    }
    assert forall|i: int| 0 <= i < now.jobs.len() implies now.has_chunk(
        (#[trigger] now.jobs[i]).audio_chunk_id@,
    ) && now.has_run(now.jobs[i].run_id@) by {
        assert(was.has_chunk(was.jobs[i].audio_chunk_id@));
        assert(was.has_run(was.jobs[i].run_id@));
    }
    assert forall|i: int| 0 <= i < now.events.len() implies now.has_job(
        (#[trigger] now.events[i]).job_id@,
    ) && now.has_chunk(now.events[i].audio_chunk_id@) by {
        if i < was.events.len() {
            assert(was.has_job(was.events[i].job_id@));
            assert(was.has_chunk(was.events[i].audio_chunk_id@));
        }
        assert(was.has_job(now.events[i].job_id@));
        assert(was.has_chunk(now.events[i].audio_chunk_id@));
    }
    assert forall|i: int, j: int| 0 <= i < j < now.events.len() implies (
    #[trigger] now.events[i]).job_id@ != (#[trigger] now.events[j]).job_id@ by {
        assert(was.events[i].job_id == now.events[i].job_id);
        if j < was.events.len() {
            assert(was.events[j].job_id == now.events[j].job_id);
        }
    }
    assert forall|i: int, j: int|
        0 <= i < j < now.events.len() && now.events[i].is_canonical
            && now.events[j].is_canonical implies (#[trigger] now.events[i]).audio_chunk_id@ != (
    #[trigger] now.events[j]).audio_chunk_id@ by {
        assert(was.events[i].audio_chunk_id == now.events[i].audio_chunk_id);
        if j < was.events.len() {
            assert(was.events[j].audio_chunk_id == now.events[j].audio_chunk_id);
        }
    }
}

/// After a success the job has its transcript, and of the chunk's transcripts only the
/// new one counts. A second success of the job then stores nothing.
pub proof fn law_a_success_leaves_one_transcript_that_counts(
    was: Tables,
    now: Tables,
    chunk_id: Seq<char>,
    event: TranscriptEventRecord,
)
    requires
        now.events == was.events.map_values(
            |e: TranscriptEventRecord| superseded(e, chunk_id),
        ).push(event),
        event.audio_chunk_id@ == chunk_id,
        event.is_canonical,
    ensures
        now.job_has_event(event.job_id@),
        forall|i: int|
            0 <= i < now.events.len() && (#[trigger] now.events[i]).audio_chunk_id@ == chunk_id
                && now.events[i].is_canonical ==> now.events[i] == event,
{
    let n = was.events.len() as int;
    assert(now.events[n].job_id@ == event.job_id@);
    assert forall|i: int|
        0 <= i < now.events.len() && (#[trigger] now.events[i]).audio_chunk_id@ == chunk_id
            && now.events[i].is_canonical implies now.events[i] == event by {
        if i < n {
            assert(now.events[i] == superseded(was.events[i], chunk_id));
        }
    }
}

/// A file of audio that is there.
#[derive(Debug)]
pub struct AudioFile {
    pub path: String,
    pub bytes: Vec<u8>,
}

/// What the file at a path holds, where it is there.
pub open spec fn audio_at(files: Seq<AudioFile>, path: Seq<char>) -> Option<Seq<u8>>
    decreases files.len(),
{
    if files.len() == 0 {
        None
    } else if files[0].path@ == path {
        Some(files[0].bytes@)
    } else {
        audio_at(files.drop_first(), path)
    }
}

fn find_audio<'a>(files: &'a Vec<AudioFile>, path: &str) -> (r: Option<&'a Vec<u8>>)
    ensures
        contents(r) == audio_at(files@, path@),
{
    let mut i: usize = 0;
    assert(files@.skip(0) =~= files@);
    while i < files.len()
        invariant
            i <= files@.len(),
            audio_at(files@, path@) == audio_at(files@.skip(i as int), path@),
        decreases files.len() - i,
    {
        assert(files@.skip(i as int).drop_first() =~= files@.skip(i + 1));
        if text::same(files[i].path.as_str(), path) {
            return Some(&files[i].bytes);
        }
        i += 1;
    }
    None
}

/// The times that a transcript of the session gets from the audio of its chunk. `None`
/// for a transcript that keeps its times: one of another session, one that does not
/// count, one without a chunk.
pub open spec fn restamp_of(
    event: TranscriptEventRecord,
    chunks: Seq<AudioChunkRecord>,
    session_id: Seq<char>,
    files: Seq<AudioFile>,
) -> Option<(Seq<char>, Seq<char>)> {
    if event.session_id@ == session_id && event.is_canonical {
        match find_chunk(chunks, event.audio_chunk_id@) {
            Some(chunk) => Some(
                event_window(
                    event.text@,
                    chunk.file_path@,
                    audio_at(files, chunk.file_path@),
                    chunk.started_at@,
                    chunk.ended_at@,
                ),
            ),
            None => None,
        }
    } else {
        None
    }
}

/// Whether a transcript has other times than it gets.
pub open spec fn is_stale(
    event: TranscriptEventRecord,
    chunks: Seq<AudioChunkRecord>,
    session_id: Seq<char>,
    files: Seq<AudioFile>,
) -> bool {
    restamp_of(event, chunks, session_id, files) matches Some(w) && w != (
        event.started_at@,
        event.ended_at@,
    )
}

/// Whether `now` is `was` with the times that it gets.
pub open spec fn is_restamped(
    was: TranscriptEventRecord,
    now: TranscriptEventRecord,
    chunks: Seq<AudioChunkRecord>,
    session_id: Seq<char>,
    files: Seq<AudioFile>,
) -> bool {
    match restamp_of(was, chunks, session_id, files) {
        Some(window) => {
            &&& now == (TranscriptEventRecord {
                started_at: now.started_at,
                ended_at: now.ended_at,
                ..was
            })
            &&& (now.started_at@, now.ended_at@) == window
        },
        None => now == was,
    }
}

/// How many transcripts have other times than they get.
pub open spec fn count_stale(
    events: Seq<TranscriptEventRecord>,
    chunks: Seq<AudioChunkRecord>,
    session_id: Seq<char>,
    files: Seq<AudioFile>,
) -> nat
    decreases events.len(),
{
    if events.len() == 0 {
        0
    } else {
        count_stale(events.drop_last(), chunks, session_id, files) + if is_stale(
            events.last(),
            chunks,
            session_id,
            files,
        ) {
            1nat
        } else {
            0nat
        }
    }
}

/// The times that a transcript gets, where it does not keep its own.
fn restamp_window(
    store: &Store,
    at: usize,
    session_id: &str,
    files: &Vec<AudioFile>,
) -> (r: Option<(String, String)>)
    requires
        at < store.events@.len(),
    ensures
        match r {
            Some(w) => restamp_of(store.events@[at as int], store.chunks@, session_id@, files@)
                == Some((w.0@, w.1@)),
            None => restamp_of(
                store.events@[at as int],
                store.chunks@,
                session_id@,
                files@,
            ) is None,
        },
{
    let event = &store.events[at];
    if !event.is_canonical || !text::same(event.session_id.as_str(), session_id) {
        return None;
    }
    match store.chunk_index(event.audio_chunk_id.as_str()) {
        Some(c) => {
            let chunk = &store.chunks[c];
            Some(
                aligned_times_for_event(
                    event.text.as_str(),
                    chunk.file_path.as_str(),
                    find_audio(files, chunk.file_path.as_str()),
                    chunk.started_at.as_str(),
                    chunk.ended_at.as_str(),
                ),
            )
        },
        None => None,
    }
}

/// Moves the transcripts of a session that count from the window of their chunk onto
/// the speech in it. A blank transcript keeps the window. Returns how many changed.
pub fn restamp_canonical_events_from_audio(
    store: &mut Store,
    session_id: &str,
    files: &Vec<AudioFile>,
) -> (r: usize)
    ensures
        final(store)@ == (Tables { events: final(store)@.events, ..old(store)@ }),
        final(store)@.events.len() == old(store)@.events.len(),
        forall|i: int|
            #![trigger final(store)@.events[i]]
            0 <= i < old(store)@.events.len() ==> is_restamped(
                old(store)@.events[i],
                final(store)@.events[i],
                old(store)@.chunks,
                session_id@,
                files@,
            ),
        r == count_stale(old(store)@.events, old(store)@.chunks, session_id@, files@),
        old(store)@.wf() ==> final(store)@.wf(),
{
    let ghost was = store@;
    let mut updated: usize = 0;
    let mut i: usize = 0;
    while i < store.events.len()
        invariant
            i <= store.events@.len(),
            store.events@.len() == was.events.len(),
            store@ == (Tables { events: store@.events, ..was }),
            forall|k: int|
                #![trigger store.events@[k]]
                0 <= k < i ==> is_restamped(
                    was.events[k],
                    store.events@[k],
                    was.chunks,
                    session_id@,
                    files@,
                ),
            forall|k: int|
                i <= k < was.events.len() ==> #[trigger] store.events@[k] == was.events[k],
            updated == count_stale(was.events.take(i as int), was.chunks, session_id@, files@),
            updated <= i,
        decreases store.events.len() - i,
    {
        proof {
            assert(was.events.take(i + 1).drop_last() =~= was.events.take(i as int));
            assert(store.events@[i as int] == was.events[i as int]);
        }
        if let Some((started_at, ended_at)) = restamp_window(store, i, session_id, files) {
            if !text::same(store.events[i].started_at.as_str(), started_at.as_str())
                || !text::same(store.events[i].ended_at.as_str(), ended_at.as_str()) {
                let mut event = store.events[i].clone();
                event.started_at = started_at;
                event.ended_at = ended_at;
                store.events[i] = event;
                updated += 1;
            }
        }
        i += 1;
    }
    assert(was.events.take(i as int) =~= was.events);
    proof {
        if was.wf() {
            lemma_same_event_keys(was, store@);
        }
    }
    updated
}

proof fn lemma_same_event_keys(was: Tables, now: Tables)
    requires
        was.wf(),
        now == (Tables { events: now.events, ..was }),
        now.events.len() == was.events.len(),
        forall|i: int|
            0 <= i < was.events.len() ==> (#[trigger] now.events[i]).job_id == was.events[i].job_id
                && now.events[i].audio_chunk_id == was.events[i].audio_chunk_id
                && now.events[i].is_canonical == was.events[i].is_canonical
                && now.events[i].session_id == was.events[i].session_id,
    ensures
        now.wf(),
{
    lemma_rows_still_belong(was, now);
    assert forall|i: int| 0 <= i < now.runs.len() implies now.has_session(
        (#[trigger] now.runs[i]).session_id@,
    ) by {
        assert(was.has_session(was.runs[i].session_id@));
    }
    assert forall|i: int| 0 <= i < now.chunks.len() implies now.has_session(
        (#[trigger] now.chunks[i]).session_id@,
    ) by {
        assert(was.has_session(was.chunks[i].session_id@));
    }
    assert forall|i: int| 0 <= i < now.jobs.len() implies now.has_chunk(
        (#[trigger] now.jobs[i]).audio_chunk_id@,
    ) && now.has_run(now.jobs[i].run_id@) by {
        assert(was.has_chunk(was.jobs[i].audio_chunk_id@));
        assert(was.has_run(was.jobs[i].run_id@));
    }
    assert forall|i: int| 0 <= i < now.events.len() implies now.has_job(
        (#[trigger] now.events[i]).job_id@,
    ) && now.has_chunk(now.events[i].audio_chunk_id@) by {
        assert(was.has_job(was.events[i].job_id@));
        assert(was.has_chunk(was.events[i].audio_chunk_id@));
    }
    assert forall|i: int, j: int| 0 <= i < j < now.events.len() implies (
    #[trigger] now.events[i]).job_id@ != (#[trigger] now.events[j]).job_id@ by {
        assert(was.events[i].job_id@ != was.events[j].job_id@);
    }
    assert forall|i: int, j: int|
        0 <= i < j < now.events.len() && now.events[i].is_canonical
            && now.events[j].is_canonical implies (#[trigger] now.events[i]).audio_chunk_id@ != (
    #[trigger] now.events[j]).audio_chunk_id@ by {
        assert(was.events[i].audio_chunk_id@ != was.events[j].audio_chunk_id@);
    }
}

/// Times that were taken from the audio stay when they are taken from it again.
pub proof fn law_restamping_again_changes_nothing(
    was: TranscriptEventRecord,
    now: TranscriptEventRecord,
    chunks: Seq<AudioChunkRecord>,
    session_id: Seq<char>,
    files: Seq<AudioFile>,
)
    requires
        is_restamped(was, now, chunks, session_id, files),
    ensures
        !is_stale(now, chunks, session_id, files),
{
}

/// Whether a transcript is one of the session and counts.
pub open spec fn is_canonical_of(event: TranscriptEventRecord, session_id: Seq<char>) -> bool {
    event.session_id@ == session_id && event.is_canonical
}

/// The transcripts of a session that count.
pub fn list_canonical_events(store: &Store, session_id: &str) -> (r: Vec<TranscriptEventRecord>)
    ensures
        r@ == store.events@.filter(
            |e: TranscriptEventRecord| is_canonical_of(e, session_id@),
        ),
{
    let ghost p = |e: TranscriptEventRecord| is_canonical_of(e, session_id@);
    let mut r: Vec<TranscriptEventRecord> = Vec::new();
    let mut i: usize = 0;
    assert(store.events@.take(0).filter(p) =~= Seq::empty()) by {
        reveal(Seq::filter);
    }
    while i < store.events.len()
        invariant
            i <= store.events@.len(),
            p == (|e: TranscriptEventRecord| is_canonical_of(e, session_id@)),
            r@ == store.events@.take(i as int).filter(p),
        decreases store.events.len() - i,
    {
        proof {
            assert(store.events@.take(i + 1).drop_last() =~= store.events@.take(i as int));
            reveal(Seq::filter);
        }
        if store.events[i].is_canonical && text::same(
            store.events[i].session_id.as_str(),
            session_id,
        ) {
            r.push(store.events[i].clone());
        }
        i += 1;
    }
    assert(store.events@.take(i as int) =~= store.events@);
    r
}

/// Whether the session has a transcript of the chunk.
pub open spec fn is_transcribed(
    events: Seq<TranscriptEventRecord>,
    session_id: Seq<char>,
    chunk_id: Seq<char>,
) -> bool {
    exists|i: int|
        0 <= i < events.len() && (#[trigger] events[i]).session_id@ == session_id
            && events[i].audio_chunk_id@ == chunk_id
}

/// The chunks of a session that have a transcript, each once.
pub fn transcribed_chunk_ids(store: &Store, session_id: &str) -> (r: Vec<String>)
    ensures
        forall|id: Seq<char>|
            text::views(r@).contains(id) <==> #[trigger] is_transcribed(
                store.events@,
                session_id@,
                id,
            ),
        text::views(r@).no_duplicates(),
{
    let mut r: Vec<String> = Vec::new();
    let mut i: usize = 0;
    while i < store.events.len()
        invariant
            i <= store.events@.len(),
            forall|id: Seq<char>|
                text::views(r@).contains(id) <==> #[trigger] is_transcribed(
                    store.events@.take(i as int),
                    session_id@,
                    id,
                ),
            text::views(r@).no_duplicates(),
        decreases store.events.len() - i,
    {
        let ghost before = store.events@.take(i as int);
        let ghost after = store.events@.take(i + 1);
        let ghost had = r@;
        let ghost here = store.events@[i as int];
        if text::same(store.events[i].session_id.as_str(), session_id) && !text::is_among(
            &r,
            store.events[i].audio_chunk_id.as_str(),
        ) {
            r.push(store.events[i].audio_chunk_id.clone());
            assert(text::views(r@) =~= text::views(had).push(here.audio_chunk_id@));
        }
        proof {
            let now = text::views(r@);
            assert forall|id: Seq<char>|
                now.contains(id) <==> #[trigger] is_transcribed(after, session_id@, id) by {
                if is_transcribed(before, session_id@, id) {
                    let k = choose|k: int|
                        0 <= k < before.len() && (#[trigger] before[k]).session_id@ == session_id@
                            && before[k].audio_chunk_id@ == id;
                    assert(after[k] == before[k]);
                }
                if is_transcribed(after, session_id@, id) {
                    let k = choose|k: int|
                        0 <= k < after.len() && (#[trigger] after[k]).session_id@ == session_id@
                            && after[k].audio_chunk_id@ == id;
                    if k < i {
                        assert(before[k] == after[k]);
                    }
                }
                assert(after[i as int] == here);
                if text::views(had).contains(id) {
                    let k = choose|k: int|
                        0 <= k < text::views(had).len() && text::views(had)[k] == id;
                    assert(now[k] == id);
                }
                if now.contains(id) {
                    let k = choose|k: int| 0 <= k < now.len() && now[k] == id;
                    if k < had.len() {
                        assert(text::views(had)[k] == id);
                    }
                }
                if r@.len() > had.len() {
                    assert(now[had.len() as int] == here.audio_chunk_id@);
                }
            }
        }
        i += 1;
    }
    assert(store.events@.take(i as int) =~= store.events@);
    r
}

/// One more attempt, as far as 64 bits can count.
pub open spec fn one_more(attempts: i64) -> i64 {
    if attempts < i64::MAX {
        (attempts + 1) as i64
    } else {
        attempts
    }
}

/// A job that waits for its next attempt.
pub open spec fn is_put_off(
    was: TranscriptionJobRecord,
    now: TranscriptionJobRecord,
    error: Seq<char>,
    next: Seq<char>,
) -> bool {
    &&& now == (TranscriptionJobRecord {
        state: JobState::Pending,
        started_at: None,
        attempt_count: one_more(was.attempt_count),
        last_error: now.last_error,
        next_retry_at: now.next_retry_at,
        ..was
    })
    &&& now.last_error matches Some(e) && e@ == error
    &&& now.next_retry_at matches Some(n) && n@ == next
}

/// A delay that a clock can be moved by, in seconds; one that is too long counts as
/// five seconds.
pub open spec fn usable_delay(secs: u64) -> u64 {
    if secs <= 9_223_372_036_854_775 {
        secs
    } else {
        5
    }
}

/// Whether the jobs with this identifier wait until `next` and all others are as they
/// were.
pub open spec fn are_put_off(
    was: Seq<TranscriptionJobRecord>,
    now: Seq<TranscriptionJobRecord>,
    job_id: Seq<char>,
    error: Seq<char>,
    next: Seq<char>,
) -> bool {
    &&& now.len() == was.len()
    &&& forall|i: int|
        #![trigger now[i]]
        0 <= i < was.len() ==> if was[i].id@ == job_id {
            is_put_off(was[i], now[i], error, next)
        } else {
            now[i] == was[i]
        }
}

/// Whether the jobs with this identifier wait for `delay_secs` seconds from `now` and
/// all others are as they were.
pub open spec fn put_off_by(
    was: Seq<TranscriptionJobRecord>,
    is: Seq<TranscriptionJobRecord>,
    job_id: Seq<char>,
    error: Seq<char>,
    delay_secs: u64,
    now: UtcTime,
) -> bool {
    exists|t: UtcTime|
        (t.secs as int, t.nanos as int) == shifted(
            now,
            (usable_delay(delay_secs) * 1000) as nat,
        ) && are_put_off(was, is, job_id, error, #[trigger] rfc3339_millis(t.secs, t.nanos))
}

/// Puts a job that failed off for `delay_secs` seconds from `now`.
pub fn mark_job_retry(
    store: &mut Store,
    job_id: &str,
    error: &str,
    delay_secs: u64,
    now: UtcTime,
)
    requires
        now.wf(),
        can_shift(now, (usable_delay(delay_secs) * 1000) as nat),
    ensures
        final(store)@ == (Tables { jobs: final(store)@.jobs, ..old(store)@ }),
        put_off_by(old(store)@.jobs, final(store)@.jobs, job_id@, error@, delay_secs, now),
        old(store)@.wf() ==> final(store)@.wf(),
{
    let ghost was = store@;
    let delay: u64 = if delay_secs <= 9_223_372_036_854_775 {
        delay_secs
    } else {
        5
    };
    let at = now.plus_millis(delay * 1000);
    let next = datetime_rfc3339(at);
    let mut i: usize = 0;
    while i < store.jobs.len()
        invariant
            i <= store.jobs@.len(),
            store.jobs@.len() == was.jobs.len(),
            store@ == (Tables { jobs: store@.jobs, ..was }),
            forall|k: int|
                #![trigger store.jobs@[k]]
                0 <= k < i ==> if was.jobs[k].id@ == job_id@ {
                    is_put_off(was.jobs[k], store.jobs@[k], error@, next@)
                } else {
                    store.jobs@[k] == was.jobs[k]
                },
            forall|k: int| i <= k < was.jobs.len() ==> #[trigger] store.jobs@[k] == was.jobs[k],
        decreases store.jobs.len() - i,
    {
        assert(store.jobs@[i as int] == was.jobs[i as int]);
        if text::same(store.jobs[i].id.as_str(), job_id) {
            let mut job = store.jobs[i].clone();
            job.state = JobState::Pending;
            job.started_at = None;
            if job.attempt_count < i64::MAX {
                job.attempt_count = job.attempt_count + 1;
            }
            job.last_error = Some(error.to_owned());
            job.next_retry_at = Some(next.clone());
            store.jobs[i] = job;
        }
        i += 1;
    }
    proof {
        lemma_same_job_keys(was, store@);
        assert(are_put_off(
            was.jobs,
            store@.jobs,
            job_id@,
            error@,
            rfc3339_millis(at.secs, at.nanos),
        ));
    }
}

/// Whether a job waits and may be taken up.
pub open spec fn is_due(job: TranscriptionJobRecord, now: Seq<char>) -> bool {
    &&& job.state == JobState::Pending
    &&& job.next_retry_at matches Some(at) ==> text::text_le(at@, now)
}

/// Whether `a` is due no later than `b`.
pub open spec fn due_no_later(a: Option<String>, b: Option<String>) -> bool {
    match (a, b) {
        (None, _) => true,
        (Some(_), None) => false,
        (Some(x), Some(y)) => text::text_le(x@, y@),
    }
}

/// Jobs stand by when they are due, those without a time first, then by when they were
/// written.
impl Ranked for TranscriptionJobRecord {
    open spec fn ranks_before(&self, other: &Self) -> bool {
        if text::text_of(self.next_retry_at) != text::text_of(other.next_retry_at) {
            due_no_later(self.next_retry_at, other.next_retry_at)
        } else {
            text::text_le(self.created_at@, other.created_at@)
        }
    }

    proof fn lemma_total(a: &Self, b: &Self) {
        text::lemma_text_le_total(a.created_at@, b.created_at@);
        if let (Some(x), Some(y)) = (a.next_retry_at, b.next_retry_at) {
            text::lemma_text_le_total(x@, y@);
        }
    }

    proof fn lemma_transitive(a: &Self, b: &Self, c: &Self) {
        if let (Some(x), Some(y)) = (a.next_retry_at, b.next_retry_at) {
            text::lemma_text_le_total(x@, y@);
            if let Some(z) = c.next_retry_at {
                text::lemma_text_le_total(y@, z@);
                text::lemma_text_le_total(x@, z@);
                if text::text_le(x@, y@) && text::text_le(y@, z@) {
                    text::lemma_text_le_transitive(x@, y@, z@);
                }
            }
        }
        if text::text_le(a.created_at@, b.created_at@) && text::text_le(
            b.created_at@,
            c.created_at@,
        ) {
            text::lemma_text_le_transitive(a.created_at@, b.created_at@, c.created_at@);
        }
    }

    fn may_precede(&self, other: &Self) -> (r: bool) {
        match (&self.next_retry_at, &other.next_retry_at) {
            (None, None) => text::at_most(self.created_at.as_str(), other.created_at.as_str()),
            (None, Some(_)) => true,
            (Some(_), None) => false,
            (Some(x), Some(y)) => if text::same(x.as_str(), y.as_str()) {
                text::at_most(self.created_at.as_str(), other.created_at.as_str())
            } else {
                text::at_most(x.as_str(), y.as_str())
            },
        }
    }
}

/// How many jobs are in work.
pub open spec fn in_work(jobs: Seq<TranscriptionJobRecord>) -> nat {
    count_jobs(jobs, |j: TranscriptionJobRecord| j.state == JobState::Processing)
}

/// How many more jobs may be taken up.
pub open spec fn room(jobs: Seq<TranscriptionJobRecord>, limit: u32) -> nat {
    if in_work(jobs) >= limit {
        0
    } else {
        (limit - in_work(jobs)) as nat
    }
}

/// The due jobs in their order.
pub open spec fn due_jobs(jobs: Seq<TranscriptionJobRecord>, now: Seq<char>) -> Seq<
    TranscriptionJobRecord,
> {
    ranked(jobs.filter(|j: TranscriptionJobRecord| is_due(j, now)))
}

/// The jobs that are taken up: the first due ones, as many as there is room for.
pub open spec fn picked(jobs: Seq<TranscriptionJobRecord>, limit: u32, now: Seq<char>) -> Seq<
    TranscriptionJobRecord,
> {
    let due = due_jobs(jobs, now);
    if due.len() <= room(jobs, limit) {
        due
    } else {
        due.take(room(jobs, limit) as int)
    }
}

/// The identifiers of jobs.
pub open spec fn ids_of(jobs: Seq<TranscriptionJobRecord>) -> Seq<Seq<char>> {
    jobs.map_values(|j: TranscriptionJobRecord| j.id@)
}

/// A job that is taken up where its identifier is among `ids`.
pub open spec fn claimed(
    job: TranscriptionJobRecord,
    ids: Seq<Seq<char>>,
    now: String,
) -> TranscriptionJobRecord {
    if ids.contains(job.id@) {
        TranscriptionJobRecord { state: JobState::Processing, started_at: Some(now), ..job }
    } else {
        job
    }
}

fn due_jobs_of(store: &Store, now: &str) -> (r: Vec<TranscriptionJobRecord>)
    ensures
        r@ == due_jobs(store.jobs@, now@),
{
    let ghost p = |j: TranscriptionJobRecord| is_due(j, now@);
    let mut due: Vec<TranscriptionJobRecord> = Vec::new();
    let mut i: usize = 0;
    assert(store.jobs@.take(0).filter(p) =~= Seq::empty()) by {
        reveal(Seq::filter);
    }
    while i < store.jobs.len()
        invariant
            i <= store.jobs@.len(),
            p == (|j: TranscriptionJobRecord| is_due(j, now@)),
            due@ == store.jobs@.take(i as int).filter(p),
        decreases store.jobs.len() - i,
    {
        proof {
            assert(store.jobs@.take(i + 1).drop_last() =~= store.jobs@.take(i as int));
            reveal(Seq::filter);
        }
        let ready = match &store.jobs[i].next_retry_at {
            Some(at) => text::at_most(at.as_str(), now),
            None => true,
        };
        if store.jobs[i].state == JobState::Pending && ready {
            due.push(store.jobs[i].clone());
        }
        i += 1;
    }
    assert(store.jobs@.take(i as int) =~= store.jobs@);
    rank(due)
}

/// Takes up due jobs, the one that is due first at the head, so that no more than
/// `limit` are in work. Returns their identifiers.
pub fn claim_due_jobs(store: &mut Store, limit: u32, now: &String) -> (r: Vec<String>)
    ensures
        text::views(r@) == ids_of(picked(old(store)@.jobs, limit, now@)),
        final(store)@ == (Tables {
            jobs: old(store)@.jobs.map_values(
                |j: TranscriptionJobRecord|
                    claimed(j, ids_of(picked(old(store)@.jobs, limit, now@)), *now),
            ),
            ..old(store)@
        }),
        old(store)@.wf() ==> final(store)@.wf(),
{
    let ghost was = store@;
    let processing: u64 = count_by_state(store, JobState::Processing) as u64;
    let available: u64 = if processing >= limit as u64 {
        0
    } else {
        limit as u64 - processing
    };
    let due = due_jobs_of(store, now.as_str());
    let ghost chosen = picked(was.jobs, limit, now@);
    let mut ids: Vec<String> = Vec::new();
    let mut n: usize = 0;
    while n < due.len() && (n as u64) < available
        invariant
            n <= due@.len(),
            n <= available,
            available == room(was.jobs, limit),
            due@ == due_jobs(was.jobs, now@),
            text::views(ids@) == ids_of(due@.take(n as int)),
        decreases due.len() - n,
    {
        let ghost before = text::views(ids@);
        ids.push(due[n].id.clone());
        proof {
            assert(text::views(ids@) =~= before.push(due@[n as int].id@));
            assert(due@.take(n + 1) =~= due@.take(n as int).push(due@[n as int]));
            assert(ids_of(due@.take(n + 1)) =~= ids_of(due@.take(n as int)).push(
                due@[n as int].id@,
            ));
        }
        n += 1;
    }
    assert(due@.take(n as int) =~= chosen);
    let ghost wanted = text::views(ids@);
    let mut i: usize = 0;
    while i < store.jobs.len()
        invariant
            i <= store.jobs@.len(),
            store.jobs@.len() == was.jobs.len(),
            store@ == (Tables { jobs: store@.jobs, ..was }),
            wanted == text::views(ids@),
            forall|k: int|
                0 <= k < i ==> store.jobs@[k] == claimed(#[trigger] was.jobs[k], wanted, *now),
            forall|k: int| i <= k < was.jobs.len() ==> store.jobs@[k] == #[trigger] was.jobs[k],
        decreases store.jobs.len() - i,
    {
        if text::is_among(&ids, store.jobs[i].id.as_str()) {
            let mut job = store.jobs[i].clone();
            job.state = JobState::Processing;
            job.started_at = Some(now.clone());
            store.jobs[i] = job;
        }
        i += 1;
    }
    proof {
        lemma_same_job_keys(was, store@);
    }
    ids
}

/// The provider and model that a job asks for, and its chunk.
pub fn get_job_provider(store: &Store, job_id: &str) -> (r: Result<
    (ProviderKind, Option<String>, String),
>)
    ensures
        match find_job(store.jobs@, job_id@) {
            Some(job) => r matches Ok(p) && p == (job.provider, job.model, job.audio_chunk_id),
            None => fails(r, ErrorKind::Database, no_rows()),
        },
{
    match store.job_index(job_id) {
        Some(at) => {
            let job = store.jobs[at].clone();
            Ok((job.provider, job.model, job.audio_chunk_id))
        },
        None => Err(no_row()),
    }
}

spec fn one_of(ids: Seq<Seq<char>>) -> spec_fn(TranscriptionJobRecord) -> bool {
    |j: TranscriptionJobRecord| ids.contains(j.id@)
}

spec fn named(id: Seq<char>) -> spec_fn(TranscriptionJobRecord) -> bool {
    |j: TranscriptionJobRecord| j.id@ == id
}

proof fn lemma_count_of_one(jobs: Seq<TranscriptionJobRecord>, id: Seq<char>)
    requires
        forall|i: int, j: int|
            0 <= i < j < jobs.len() ==> (#[trigger] jobs[i]).id@ != (#[trigger] jobs[j]).id@,
    ensures
        count_jobs(jobs, named(id)) <= 1,
        (forall|i: int| 0 <= i < jobs.len() ==> (#[trigger] jobs[i]).id@ != id) ==> count_jobs(
            jobs,
            named(id),
        ) == 0,
    decreases jobs.len(),
{
    if jobs.len() > 0 {
        lemma_count_of_one(jobs.drop_last(), id);
        if jobs.last().id@ == id {
            assert forall|i: int| 0 <= i < jobs.drop_last().len() implies (
            #[trigger] jobs.drop_last()[i]).id@ != id by {
                assert(jobs[i].id@ != jobs[jobs.len() - 1].id@);
            }
        } else if forall|i: int| 0 <= i < jobs.len() ==> (#[trigger] jobs[i]).id@ != id {
            assert forall|i: int| 0 <= i < jobs.drop_last().len() implies (
            #[trigger] jobs.drop_last()[i]).id@ != id by {
                assert(jobs[i].id@ != id);
            }
        }
    }
}

/// Of `n` identifiers no more than `n` jobs have one.
proof fn lemma_count_among(jobs: Seq<TranscriptionJobRecord>, ids: Seq<Seq<char>>)
    requires
        forall|i: int, j: int|
            0 <= i < j < jobs.len() ==> (#[trigger] jobs[i]).id@ != (#[trigger] jobs[j]).id@,
    ensures
        count_jobs(jobs, one_of(ids)) <= ids.len(),
    decreases ids.len(),
{
    if ids.len() == 0 {
        lemma_count_none(jobs, ids);
    } else {
        lemma_count_among(jobs, ids.drop_last());
        lemma_count_of_one(jobs, ids.last());
        lemma_count_split(jobs, ids);
    }
}

proof fn lemma_count_none(jobs: Seq<TranscriptionJobRecord>, ids: Seq<Seq<char>>)
    requires
        ids.len() == 0,
    ensures
        count_jobs(jobs, one_of(ids)) == 0,
    decreases jobs.len(),
{
    if jobs.len() > 0 {
        lemma_count_none(jobs.drop_last(), ids);
    }
}

proof fn lemma_count_split(jobs: Seq<TranscriptionJobRecord>, ids: Seq<Seq<char>>)
    requires
        ids.len() > 0,
    ensures
        count_jobs(jobs, one_of(ids)) <= count_jobs(
            jobs,
            one_of(ids.drop_last()),
        ) + count_jobs(jobs, named(ids.last())),
    decreases jobs.len(),
{
    if jobs.len() > 0 {
        lemma_count_split(jobs.drop_last(), ids);
        let id = jobs.last().id@;
        if ids.contains(id) && id != ids.last() {
            let k = choose|k: int| 0 <= k < ids.len() && ids[k] == id;
            assert(ids.drop_last()[k] == id);
        }
    }
}

proof fn lemma_in_work_after(
    jobs: Seq<TranscriptionJobRecord>,
    ids: Seq<Seq<char>>,
    now: String,
)
    ensures
        in_work(jobs.map_values(|j: TranscriptionJobRecord| claimed(j, ids, now))) <= in_work(jobs)
            + count_jobs(jobs, one_of(ids)),
    decreases jobs.len(),
{
    let after = jobs.map_values(|j: TranscriptionJobRecord| claimed(j, ids, now));
    if jobs.len() > 0 {
        lemma_in_work_after(jobs.drop_last(), ids, now);
        assert(after.drop_last() =~= jobs.drop_last().map_values(
            |j: TranscriptionJobRecord| claimed(j, ids, now),
        ));
        assert(after.last() == claimed(jobs.last(), ids, now));
    }
}

/// Taking up jobs never puts more than `limit` of them into work; where more were in
/// work before, none is added.
pub proof fn law_claims_stay_within_the_limit(tables: Tables, limit: u32, now: String)
    requires
        tables.wf(),
    ensures
        ({
            let ids = ids_of(picked(tables.jobs, limit, now@));
            let after = tables.jobs.map_values(|j: TranscriptionJobRecord| claimed(j, ids, now));
            in_work(after) <= if in_work(tables.jobs) >= limit {
                in_work(tables.jobs)
            } else {
                limit as nat
            }
        }),
{
    let ids = ids_of(picked(tables.jobs, limit, now@));
    lemma_in_work_after(tables.jobs, ids, now);
    lemma_count_among(tables.jobs, ids);
}

/// Only jobs that were due are taken up.
pub proof fn law_only_due_jobs_are_claimed(tables: Tables, limit: u32, now: String, i: int)
    requires
        tables.wf(),
        0 <= i < tables.jobs.len(),
        ids_of(picked(tables.jobs, limit, now@)).contains(tables.jobs[i].id@),
    ensures
        is_due(tables.jobs[i], now@),
{
    let jobs = tables.jobs;
    let p = |j: TranscriptionJobRecord| is_due(j, now@);
    let found = jobs.filter(p);
    let chosen = picked(jobs, limit, now@);
    let k = choose|k: int| 0 <= k < chosen.len() && ids_of(chosen)[k] == jobs[i].id@;
    let job = chosen[k];
    law_ranking_keeps_all_values_in_order(found);
    let order = ranked(found);
    assert(order[k] == job);
    vstd::seq_lib::to_multiset_contains(order, job);
    vstd::seq_lib::to_multiset_contains(found, job);
    assert(order.contains(job));
    assert(found.contains(job));
    let f = choose|f: int| 0 <= f < found.len() && found[f] == job;
    jobs.lemma_filter_contains_rev(p, job);
    assert(p(found[f])) by {
        jobs.lemma_filter_pred(p, f);
    }
    let q = choose|q: int| 0 <= q < jobs.len() && jobs[q] == job;
    if q < i {
        assert(jobs[q].id@ != jobs[i].id@);
    } else if i < q {
        assert(jobs[i].id@ != jobs[q].id@);
    }
}

/// A transcript gets the times of the speech in its audio where it has words and the audio
/// and the times of its chunk can be read; else it keeps those of the chunk. Leap seconds
/// are left out.
pub proof fn law_transcripts_get_the_times_of_their_speech(
    words: Seq<char>,
    path: Seq<char>,
    audio: Option<Seq<u8>>,
    started: Seq<char>,
    ended: Seq<char>,
    range: Option<(u64, u64)>,
)
    ensures
        text::is_blank(words) || audio is None || rfc3339_parsed(started) is Err || rfc3339_parsed(
            ended,
        ) is Err || pcm_of(flac_read(audio->0), path) is Err ==> event_window(
            words,
            path,
            audio,
            started,
            ended,
        ) == (started, ended),
        (!text::is_blank(words) && (audio matches Some(bytes) && rfc3339_parsed(started) matches Ok(
            from,
        ) && rfc3339_parsed(ended) matches Ok(to) && pcm_of(flac_read(bytes), path) matches Ok(
            samples,
        ) && is_speech_range(samples, 16_000, range) && can_shift(
            (UtcTime { secs: from.0, nanos: from.1 }),
            (saturated_millis(samples.len()) / 16_000) as nat,
        ) && from.1 < 1_000_000_000 && to.1 < 1_000_000_000 && representable(
            from.0 as int,
            from.1 as int,
        ) && representable(to.0 as int, to.1 as int) && (from.0 < to.0 || from.0 == to.0 && from.1
            <= to.1))) ==> {
            let (from, to) = (rfc3339_parsed(started)->Ok_0, rfc3339_parsed(ended)->Ok_0);
            let begin = from.0 * 1_000_000_000 + from.1;
            let end = to.0 * 1_000_000_000 + to.1;
            exists|a: UtcTime, b: UtcTime|
                event_window(words, path, audio, started, ended) == (
                    #[trigger] rfc3339_millis(a.secs, a.nanos),
                    #[trigger] rfc3339_millis(b.secs, b.nanos),
                ) && match range {
                    None => (a.secs, a.nanos) == from && (b.secs, b.nanos) == to,
                    Some((first, last)) => {
                        &&& a.secs * 1_000_000_000 + a.nanos == if begin + first * 1_000_000 <= end {
                            begin + first * 1_000_000
                        } else {
                            end
                        }
                        &&& b.secs * 1_000_000_000 + b.nanos == if begin + last * 1_000_000 <= end {
                            begin + last * 1_000_000
                        } else {
                            end
                        }
                    },
                }
        },
{
    if !text::is_blank(words) && audio is Some && rfc3339_parsed(started) is Ok && rfc3339_parsed(
        ended,
    ) is Ok && pcm_of(flac_read(audio->0), path) is Ok {
        let p = rfc3339_parsed(started)->Ok_0;
        let q = rfc3339_parsed(ended)->Ok_0;
        let from = UtcTime { secs: p.0, nanos: p.1 };
        let to = UtcTime { secs: q.0, nanos: q.1 };
        let samples = pcm_of(flac_read(audio->0), path)->Ok_0;
        let len = length_ms(samples.len() as int, 16_000) as nat;
        if is_speech_range(samples, 16_000, range) && can_shift(from, len) && from.wf() && to.wf()
            && from.nanos < 1_000_000_000 && to.nanos < 1_000_000_000 && not_later(from, to) {
            let times = aligned_times(from, to, speech_range(samples, 16_000));
            if let Some((first, last)) = range {
                law_speech_range_is_inside(samples, 16_000, first, last);
            }
            law_aligned_times_are_those_of_the_speech(from, to, samples, 16_000, range, times);
            let a = times.0;
            let b = times.1;
            assert(event_window(words, path, audio, started, ended) == (
                rfc3339_millis(a.secs, a.nanos),
                rfc3339_millis(b.secs, b.nanos),
            ));
        }
    }
}

/// A thousand for each sample, as far as 64 bits can hold it.
pub open spec fn saturated_millis(samples: nat) -> int {
    if samples * 1000 > u64::MAX {
        u64::MAX as int
    } else {
        (samples * 1000) as int
    }
}

/// A transcript that is stored says what was heard of its chunk, by whom, and counts.
pub proof fn law_a_transcript_says_what_was_heard(
    event: TranscriptEventRecord,
    chunk: AudioChunkRecord,
    job_id: Seq<char>,
    result: TranscriptionResult,
    audio: Option<Seq<u8>>,
    event_id: Seq<char>,
    now: String,
)
    requires
        is_event_of(event, chunk, job_id, result, audio, event_id, now),
    ensures
        event.text == result.text,
        event.provider == result.provider,
        event.model == result.model,
        event.id@ == event_id,
        event.job_id@ == job_id,
        event.audio_chunk_id == chunk.id,
        event.session_id == chunk.session_id,
        event.source == chunk.source,
        event.sequence == chunk.sequence,
        event.is_canonical,
        audio is None ==> event.started_at@ == chunk.started_at@ && event.ended_at@
            == chunk.ended_at@,
{
}

/// A success closes its job and clears its error; a job whose transcript was there already
/// is closed too and keeps when that was. Everything else of the job stays.
pub proof fn law_a_success_closes_its_job(job: TranscriptionJobRecord, now: String)
    ensures
        succeeded(job, now) == (TranscriptionJobRecord {
            state: JobState::Completed,
            completed_at: Some(now),
            last_error: None,
            ..job
        }),
        closed(job, now) == (TranscriptionJobRecord {
            state: JobState::Completed,
            completed_at: if job.completed_at is Some {
                job.completed_at
            } else {
                Some(now)
            },
            ..job
        }),
{
}

/// A newer transcript takes the place of the older ones of its chunk: they stay, but no
/// longer count. Transcripts of other chunks stay as they are.
pub proof fn law_a_newer_transcript_takes_the_place(
    event: TranscriptEventRecord,
    chunk_id: Seq<char>,
)
    ensures
        event.audio_chunk_id@ == chunk_id ==> superseded(event, chunk_id) == (
        TranscriptEventRecord { is_canonical: false, ..event }),
        event.audio_chunk_id@ != chunk_id ==> superseded(event, chunk_id) == event,
{
}

/// A job that failed waits for as many seconds as it is put off by, with its error and one
/// attempt more; everything else of it, and every other job, stays. Leap seconds are left
/// out.
pub proof fn law_a_failed_job_waits(
    was: Seq<TranscriptionJobRecord>,
    is: Seq<TranscriptionJobRecord>,
    job_id: Seq<char>,
    error: Seq<char>,
    delay: u64,
    now: UtcTime,
    i: int,
)
    requires
        put_off_by(was, is, job_id, error, delay, now),
        now.wf(),
        now.nanos < 1_000_000_000,
        delay <= 300,
        can_shift(now, (delay * 1000) as nat),
        0 <= i < was.len(),
    ensures
        is.len() == was.len(),
        was[i].id@ != job_id ==> is[i] == was[i],
        was[i].id@ == job_id ==> {
            &&& is[i].state == JobState::Pending
            &&& is[i].started_at is None
            &&& was[i].attempt_count < i64::MAX ==> is[i].attempt_count == was[i].attempt_count + 1
            &&& is[i].last_error matches Some(e) && e@ == error
            &&& is[i].next_retry_at matches Some(at) && at@ == rfc3339_millis(
                (now.secs + delay) as i64,
                now.nanos,
            )
            &&& is[i] == (TranscriptionJobRecord {
                state: is[i].state,
                started_at: is[i].started_at,
                attempt_count: is[i].attempt_count,
                last_error: is[i].last_error,
                next_retry_at: is[i].next_retry_at,
                ..was[i]
            })
        },
{
    let t = choose|t: UtcTime|
        (t.secs as int, t.nanos as int) == shifted(now, (usable_delay(delay) * 1000) as nat)
            && are_put_off(was, is, job_id, error, #[trigger] rfc3339_millis(t.secs, t.nanos));
    assert(usable_delay(delay) == delay);
    law_a_shift_adds_the_milliseconds(now, (delay * 1000) as nat, t);
    assert(t.secs == now.secs + delay && t.nanos == now.nanos);
    assert(is[i] == is[i]);
}

/// A job can be taken up where it waits and the time it waits for, if any, has come.
pub proof fn law_jobs_are_due_when_their_time_has_come(
    job: TranscriptionJobRecord,
    now: Seq<char>,
)
    ensures
        is_due(job, now) <==> job.state == JobState::Pending && match job.next_retry_at {
            Some(at) => text::text_le(at@, now),
            None => true,
        },
{
}

/// As many due jobs are taken up as there is room for: where fewer are, all of them. Those
/// that have waited for the earliest time go first, and of those the oldest.
pub proof fn law_the_first_due_jobs_are_taken_up(
    jobs: Seq<TranscriptionJobRecord>,
    limit: u32,
    now: Seq<char>,
    job: TranscriptionJobRecord,
    i: int,
    j: int,
)
    ensures
        ({
            let busy = jobs.filter(
                |j: TranscriptionJobRecord| j.state == JobState::Processing,
            ).len();
            let due = due_jobs(jobs, now);
            let taken = picked(jobs, limit, now);
            let free = if busy >= limit {
                0
            } else {
                limit - busy
            };
            &&& due.contains(job) <==> jobs.contains(job) && is_due(job, now)
            &&& taken.len() == if due.len() <= free {
                due.len() as int
            } else {
                free
            }
            &&& taken == due.take(taken.len() as int)
            &&& 0 <= i < j < due.len() ==> match (due[i].next_retry_at, due[j].next_retry_at) {
                (None, Some(_)) => true,
                (Some(_), None) => false,
                (Some(a), Some(b)) => if a@ == b@ {
                    text::text_le(due[i].created_at@, due[j].created_at@)
                } else {
                    text::text_le(a@, b@)
                },
                (None, None) => text::text_le(due[i].created_at@, due[j].created_at@),
            }
        }),
{
    let p = |j: TranscriptionJobRecord| is_due(j, now);
    let found = jobs.filter(p);
    let due = due_jobs(jobs, now);
    law_ranking_keeps_all_values_in_order(found);
    found.to_multiset_ensures();
    due.to_multiset_ensures();
    crate::storage::deletion::lemma_filter_keeps(jobs, p, job);
    assert(due.contains(job) <==> due.to_multiset().contains(job));
    assert(found.contains(job) <==> found.to_multiset().contains(job));
    crate::storage::jobs::law_jobs_are_counted(
        jobs,
        |j: TranscriptionJobRecord| j.state == JobState::Processing,
    );
    assert(due.take(due.len() as int) =~= due);
    if 0 <= i < j < due.len() {
        assert(due[i].ranks_before(&due[j]));
    }
}

/// A job that is taken up is in work from now on and keeps everything else; other jobs stay.
pub proof fn law_a_claimed_job_is_in_work(
    job: TranscriptionJobRecord,
    ids: Seq<Seq<char>>,
    now: String,
)
    ensures
        ids.contains(job.id@) ==> claimed(job, ids, now) == (TranscriptionJobRecord {
            state: JobState::Processing,
            started_at: Some(now),
            ..job
        }),
        !ids.contains(job.id@) ==> claimed(job, ids, now) == job,
{
}

/// A file is found by its path: the first that has it.
pub proof fn law_audio_is_found_by_its_path(files: Seq<AudioFile>, path: Seq<char>, i: int)
    requires
        0 <= i <= files.len(),
        forall|k: int| 0 <= k < i ==> (#[trigger] files[k]).path@ != path,
        i < files.len() ==> files[i].path@ == path,
    ensures
        audio_at(files, path) == if i < files.len() {
            Some(files[i].bytes@)
        } else {
            None
        },
    decreases files.len(),
{
    if i > 0 {
        let rest = files.drop_first();
        assert(files[0].path@ != path);
        assert forall|k: int| 0 <= k < i - 1 implies (#[trigger] rest[k]).path@ != path by {
            assert(rest[k] == files[k + 1]);
        }
        law_audio_is_found_by_its_path(rest, path, i - 1);
    }
}

/// Making the times anew changes the start and the end of a session's own transcripts that
/// count, and nothing else: the words, the order and every other transcript stay.
pub proof fn law_restamping_changes_times_alone(
    was: TranscriptEventRecord,
    now: TranscriptEventRecord,
    chunks: Seq<AudioChunkRecord>,
    session_id: Seq<char>,
    files: Seq<AudioFile>,
)
    requires
        is_restamped(was, now, chunks, session_id, files),
    ensures
        now == (TranscriptEventRecord {
            started_at: now.started_at,
            ended_at: now.ended_at,
            ..was
        }),
        was.session_id@ != session_id || !was.is_canonical ==> now == was,
        was.session_id@ == session_id && was.is_canonical ==> (find_chunk(
            chunks,
            was.audio_chunk_id@,
        ) matches Some(chunk) ==> (now.started_at@, now.ended_at@) == event_window(
            was.text@,
            chunk.file_path@,
            audio_at(files, chunk.file_path@),
            chunk.started_at@,
            chunk.ended_at@,
        )),
{
}

/// A chunk is transcribed where the session has a transcript of it.
pub proof fn law_transcribed_chunks_have_transcripts(
    events: Seq<TranscriptEventRecord>,
    session_id: Seq<char>,
    chunk_id: Seq<char>,
)
    ensures
        is_transcribed(events, session_id, chunk_id) <==> exists|i: int|
            0 <= i < events.len() && (#[trigger] events[i]).session_id@ == session_id
                && events[i].audio_chunk_id@ == chunk_id,
{
}

/// The transcripts that get other times are counted.
pub proof fn law_restamped_transcripts_are_counted(
    events: Seq<TranscriptEventRecord>,
    chunks: Seq<AudioChunkRecord>,
    session_id: Seq<char>,
    files: Seq<AudioFile>,
)
    ensures
        count_stale(events, chunks, session_id, files) == events.filter(
            |e: TranscriptEventRecord| is_stale(e, chunks, session_id, files),
        ).len(),
    decreases events.len(),
{
    reveal(Seq::filter);
    if events.len() > 0 {
        law_restamped_transcripts_are_counted(events.drop_last(), chunks, session_id, files);
    }
}

} // verus!
