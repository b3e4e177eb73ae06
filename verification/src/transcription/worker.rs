//! The life of a transcription job from the queue to its transcript.

use crate::config::{whisper_language, Config, ProviderKind};
use crate::error::{fails, shown, AppError, ErrorKind, Result};
use crate::runtime::UiEvent;
use crate::storage::chunks::get_chunk;
use crate::storage::events::{
    chunk_of_job, closed, contents, get_job_provider, is_canonical_of, is_event_of, mark_job_retry,
    is_restamped, no_row, no_rows, one_more, put_off_by, record_transcription_success, succeeded,
    superseded, AudioFile, TranscriptEventRecord,
};
use crate::storage::types::{AudioChunkRecord, JobState, TranscriptionJobRecord};
use crate::storage::{find_chunk, find_job, Store, Tables};
use crate::text;
use crate::timeutil::{can_shift, invalid_timestamp, rfc3339_parsed, UtcTime};
use crate::transcript::{
    jsonl, law_transcripts_that_count_are_told, line_model, markdown, told,
};
use crate::transcription::retry::{delay_after, retry_delay};
use crate::transcription::{
    is_provider, provider_for_job, AudioChunkRef, Provider, TranscriptionResult,
};
use crate::tree::json_text;
use vstd::prelude::*;

verus! {

/// How many jobs are in work at a time: as many as the settings allow, and one at least.
pub fn worker_limit(config: &Config) -> (r: u32)
    ensures
        r == if config.transcription.max_concurrent_jobs > 1 {
            config.transcription.max_concurrent_jobs
        } else {
            1
        },
{
    if config.transcription.max_concurrent_jobs > 1 {
        config.transcription.max_concurrent_jobs
    } else {
        1
    }
}

/// The seconds that a job waits that had failed this often before it failed again.
pub open spec fn wait_after(attempts: i64) -> u64 {
    let before = attempts as u32;
    delay_after(
        if before < u32::MAX {
            (before + 1) as u32
        } else {
            before
        },
    )
}

/// Puts a job off that has failed; it waits longer the more often it has failed.
pub fn schedule_retry(store: &mut Store, job_id: &str, error: &str, now: UtcTime) -> (r: Result<()>)
    requires
        now.wf(),
        can_shift(now, 300_000),
    ensures
        match find_job(old(store)@.jobs, job_id@) {
            None => fails(r, ErrorKind::Database, no_rows()) && final(store)@ == old(store)@,
            Some(job) => {
                &&& r is Ok
                &&& final(store)@ == (Tables { jobs: final(store)@.jobs, ..old(store)@ })
                &&& put_off_by(
                    old(store)@.jobs,
                    final(store)@.jobs,
                    job_id@,
                    error@,
                    wait_after(job.attempt_count),
                    now,
                )
            },
        },
        old(store)@.wf() ==> final(store)@.wf(),
{
    let attempts = match store.job_index(job_id) {
        Some(at) => store.jobs[at].attempt_count,
        None => return Err(no_row()),
    };
    let before: u32 = attempts as u32;
    let failed: u32 = if before < u32::MAX {
        before + 1
    } else {
        before
    };
    let delay = retry_delay(failed);
    mark_job_retry(store, job_id, error, delay, now);
    Ok(())
}

/// What is to be done for a job.
#[derive(Debug)]
pub enum JobStart {
    /// The chunk is handed to the provider.
    Transcribe { provider: Provider, chunk: AudioChunkRef, session_id: String },
    /// There is no provider for the job; it was put off.
    PutOff { session_id: String },
}

/// Whether there is a provider of this kind with these settings.
pub open spec fn has_provider(kind: ProviderKind, config: Config) -> bool {
    match kind {
        ProviderKind::Voxtype => true,
        ProviderKind::Openai => false,
        ProviderKind::WhisperCpp => whisper_language(
            text::views(config.transcription.languages@),
        ) is Ok,
    }
}

/// Whether there is no provider of this kind, and why.
pub open spec fn refused(
    kind: ProviderKind,
    model: Option<Seq<char>>,
    config: Config,
    message: Seq<char>,
) -> bool {
    exists|e: AppError|
        #[trigger] is_provider(Err(e), kind, model, config) && message == shown(e@)
}

/// Takes up a job: finds its chunk and its provider. A job that has no provider is put
/// off.
pub fn begin_job(store: &mut Store, config: &Config, job_id: &str, now: UtcTime) -> (r: Result<
    JobStart,
>)
    requires
        now.wf(),
        can_shift(now, 300_000),
    ensures
        match find_job(old(store)@.jobs, job_id@) {
            None => fails(r, ErrorKind::Database, no_rows()) && final(store)@ == old(store)@,
            Some(job) => match find_chunk(old(store)@.chunks, job.audio_chunk_id@) {
                None => fails(
                    r,
                    ErrorKind::Transcription,
                    "audio chunk "@ + job.audio_chunk_id@ + " missing for job "@ + job_id@,
                ) && final(store)@ == old(store)@,
                Some(chunk) => if !has_provider(job.provider, *config) {
                    &&& r matches Ok(JobStart::PutOff { session_id }) && session_id
                        == chunk.session_id
                    &&& final(store)@ == (Tables { jobs: final(store)@.jobs, ..old(store)@ })
                    &&& exists|message: Seq<char>|
                        #[trigger] refused(
                            job.provider,
                            text::text_of(job.model),
                            *config,
                            message,
                        ) && put_off_by(
                            old(store)@.jobs,
                            final(store)@.jobs,
                            job_id@,
                            message,
                            wait_after(job.attempt_count),
                            now,
                        )
                } else {
                    &&& final(store)@ == old(store)@
                    &&& match (
                        rfc3339_parsed(chunk.started_at@),
                        rfc3339_parsed(chunk.ended_at@),
                    ) {
                        (Err(e), _) => fails(
                            r,
                            ErrorKind::Other,
                            invalid_timestamp(chunk.started_at@, e),
                        ),
                        (Ok(_), Err(e)) => fails(
                            r,
                            ErrorKind::Other,
                            invalid_timestamp(chunk.ended_at@, e),
                        ),
                        (Ok(from), Ok(to)) => r matches Ok(
                            JobStart::Transcribe { provider, chunk: c, session_id },
                        ) && session_id == chunk.session_id && is_provider(
                            Ok(provider),
                            job.provider,
                            text::text_of(job.model),
                            *config,
                        ) && c == (AudioChunkRef {
                            id: chunk.id,
                            file_path: chunk.file_path,
                            source: chunk.source,
                            sequence: chunk.sequence,
                            started_at: (UtcTime { secs: from.0, nanos: from.1 }),
                            ended_at: (UtcTime { secs: to.0, nanos: to.1 }),
                        }),
                    }
                },
            },
        },
        old(store)@.wf() ==> final(store)@.wf(),
{
    let (kind, model, chunk_id) = match get_job_provider(store, job_id) {
        Ok(asked) => asked,
        Err(e) => return Err(e),
    };
    let chunk = match get_chunk(store, chunk_id.as_str()) {
        Some(chunk) => chunk,
        None => {
            let message = text::concat4(
                "audio chunk ",
                chunk_id.as_str(),
                " missing for job ",
                job_id,
            );
            return Err(AppError::transcription(message.as_str()));
        },
    };
    let asked = match &model {
        Some(m) => Some(m.as_str()),
        None => None,
    };
    assert(crate::transcription::voxtype::str_view(asked) == text::text_of(model));
    let provider = match provider_for_job(kind, asked, config) {
        Ok(provider) => provider,
        Err(e) => {
            let message = e.to_string();
            assert(refused(kind, text::text_of(model), *config, message@));
            return match schedule_retry(store, job_id, message.as_str(), now) {
                Ok(_) => Ok(JobStart::PutOff { session_id: chunk.session_id }),
                Err(e) => Err(e),
            };
        },
    };
    match AudioChunkRef::from_record(&chunk) {
        Ok(c) => Ok(
            JobStart::Transcribe { provider, chunk: c, session_id: chunk.session_id.clone() },
        ),
        Err(e) => Err(e),
    }
}

/// What became of a job.
#[derive(Clone, Copy, Debug, PartialEq, Eq, Structural)]
pub enum JobEnd {
    /// Its transcript is stored; `inserted` says whether it is new.
    Stored { inserted: bool },
    /// It was put off.
    PutOff,
}

/// Whether the tables hold the transcript of a job that has succeeded.
pub open spec fn is_stored(
    was: Tables,
    is: Tables,
    job_id: Seq<char>,
    result: TranscriptionResult,
    audio: Option<Seq<u8>>,
    event_id: Seq<char>,
    now: String,
    inserted: bool,
) -> bool {
    if was.job_has_event(job_id) {
        &&& !inserted
        &&& is == (Tables {
            jobs: was.jobs.map_values(
                |j: TranscriptionJobRecord|
                    if j.id@ == job_id {
                        closed(j, now)
                    } else {
                        j
                    },
            ),
            ..was
        })
    } else {
        chunk_of_job(was, job_id) matches Some(chunk) && {
            &&& inserted
            &&& is.events.len() == was.events.len() + 1
            &&& is_event_of(is.events.last(), chunk, job_id, result, audio, event_id, now)
            &&& is == (Tables {
                jobs: was.jobs.map_values(
                    |j: TranscriptionJobRecord|
                        if j.id@ == job_id {
                            succeeded(j, now)
                        } else {
                            j
                        },
                ),
                events: was.events.map_values(
                    |e: TranscriptEventRecord| superseded(e, chunk.id@),
                ).push(is.events.last()),
                ..was
            })
        }
    }
}

/// Ends a job: stores its transcript, or puts it off with the error that it failed with.
/// `audio` is what the chunk's file holds, where it is there; `stamp` is `now` as text.
pub fn end_job(
    store: &mut Store,
    job_id: &str,
    outcome: &Result<TranscriptionResult>,
    audio: Option<&Vec<u8>>,
    event_id: &str,
    stamp: &String,
    now: UtcTime,
) -> (r: Result<JobEnd>)
    requires
        now.wf(),
        can_shift(now, 300_000),
    ensures
        match *outcome {
            Ok(result) => if old(store)@.job_has_event(job_id@) || chunk_of_job(
                old(store)@,
                job_id@,
            ) is Some {
                r matches Ok(JobEnd::Stored { inserted }) && is_stored(
                    old(store)@,
                    final(store)@,
                    job_id@,
                    result,
                    contents(audio),
                    event_id@,
                    *stamp,
                    inserted,
                )
            } else {
                fails(r, ErrorKind::Database, no_rows()) && final(store)@ == old(store)@
            },
            Err(e) => match find_job(old(store)@.jobs, job_id@) {
                None => fails(r, ErrorKind::Database, no_rows()) && final(store)@ == old(store)@,
                Some(job) => {
                    &&& r matches Ok(end) && end == JobEnd::PutOff
                    &&& final(store)@ == (Tables { jobs: final(store)@.jobs, ..old(store)@ })
                    &&& put_off_by(
                        old(store)@.jobs,
                        final(store)@.jobs,
                        job_id@,
                        shown(e@),
                        wait_after(job.attempt_count),
                        now,
                    )
                },
            },
        },
        r matches Ok(JobEnd::Stored { .. }) ==> final(store)@.job_has_event(job_id@),
        old(store)@.wf() ==> final(store)@.wf(),
{
    let ghost was = store@;
    match outcome {
        Ok(result) => match record_transcription_success(
            store,
            job_id,
            result,
            audio,
            event_id,
            stamp,
        ) {
            Ok(inserted) => {
                proof {
                    if was.job_has_event(job_id@) {
                        let k = choose|k: int|
                            0 <= k < was.events.len() && (#[trigger] was.events[k]).job_id@
                                == job_id@;
                        assert(store@.events[k].job_id@ == job_id@);
                    } else {
                        let n = store@.events.len() - 1;
                        assert(store@.events[n].job_id@ == job_id@);
                    }
                }
                Ok(JobEnd::Stored { inserted })
            },
            Err(e) => Err(e),
        },
        Err(e) => {
            let message = e.to_string();
            match schedule_retry(store, job_id, message.as_str(), now) {
                Ok(_) => Ok(JobEnd::PutOff),
                Err(e) => Err(e),
            }
        },
    }
}

/// Whether the audio of a chunk is deleted: its transcript is stored and the meeting
/// does not keep its audio.
pub open spec fn is_deletable(end: JobEnd, retains_audio: bool) -> bool {
    end is Stored && !retains_audio
}

pub fn deletes_audio(end: JobEnd, retains_audio: bool) -> (r: bool)
    ensures
        r == is_deletable(end, retains_audio),
{
    match end {
        JobEnd::Stored { .. } => !retains_audio,
        JobEnd::PutOff => false,
    }
}

/// The audio of a chunk is deleted only where the tables hold the transcript of its job
/// and the meeting does not keep its audio. The row of the chunk stays.
pub proof fn law_audio_is_deleted_after_its_transcript(
    was: Tables,
    is: Tables,
    job_id: Seq<char>,
    result: TranscriptionResult,
    audio: Option<Seq<u8>>,
    event_id: Seq<char>,
    stamp: String,
    end: JobEnd,
    retains_audio: bool,
)
    requires
        is_deletable(end, retains_audio),
        end matches JobEnd::Stored { inserted } ==> is_stored(
            was,
            is,
            job_id,
            result,
            audio,
            event_id,
            stamp,
            inserted,
        ),
    ensures
        is.job_has_event(job_id),
        is.chunks == was.chunks,
        !retains_audio,
{
    if was.job_has_event(job_id) {
        let k = choose|k: int|
            0 <= k < was.events.len() && (#[trigger] was.events[k]).job_id@ == job_id;
        assert(is.events[k].job_id@ == job_id);
    } else {
        let n = is.events.len() - 1;
        assert(is.events[n].job_id@ == job_id);
    }
}

/// A job that fails keeps its chunk, every transcript and every other job.
pub proof fn law_a_failure_loses_nothing(
    was: Tables,
    is: Tables,
    job_id: Seq<char>,
    error: Seq<char>,
    delay: u64,
    now: UtcTime,
)
    requires
        is == (Tables { jobs: is.jobs, ..was }),
        put_off_by(was.jobs, is.jobs, job_id, error, delay, now),
    ensures
        is.chunks == was.chunks,
        is.events == was.events,
        is.jobs.len() == was.jobs.len(),
        forall|i: int|
            0 <= i < was.jobs.len() ==> {
                &&& (#[trigger] is.jobs[i]).id == was.jobs[i].id
                &&& is.jobs[i].audio_chunk_id == was.jobs[i].audio_chunk_id
                &&& was.jobs[i].id@ != job_id ==> is.jobs[i] == was.jobs[i]
            },
{
}

/// A job that fails and then succeeds: after the failure it waits with its error, one
/// attempt more and nothing lost; after the success it is completed with the provider and
/// model that it began with, its chunk has this one transcript that counts, and the
/// meeting's transcripts that count hold it.
pub proof fn law_a_job_that_fails_can_still_succeed(
    was: Tables,
    failed: Tables,
    is: Tables,
    job_id: Seq<char>,
    error: Seq<char>,
    delay: u64,
    now: UtcTime,
    result: TranscriptionResult,
    audio: Option<Seq<u8>>,
    event_id: Seq<char>,
    stamp: String,
    inserted: bool,
)
    requires
        was.wf(),
        was.has_job(job_id),
        !was.job_has_event(job_id),
        failed == (Tables { jobs: failed.jobs, ..was }),
        put_off_by(was.jobs, failed.jobs, job_id, error, delay, now),
        is_stored(failed, is, job_id, result, audio, event_id, stamp, inserted),
    ensures
        failed.chunks == was.chunks,
        failed.events == was.events,
        forall|i: int|
            0 <= i < was.jobs.len() && (#[trigger] was.jobs[i]).id@ == job_id ==> {
                &&& failed.jobs[i].state == JobState::Pending
                &&& failed.jobs[i].attempt_count == one_more(was.jobs[i].attempt_count)
                &&& failed.jobs[i].last_error matches Some(e) && e@ == error
                &&& is.jobs[i].state == JobState::Completed
                &&& is.jobs[i].last_error is None
                &&& is.jobs[i].completed_at == Some(stamp)
                &&& is.jobs[i].provider == was.jobs[i].provider
                &&& is.jobs[i].model == was.jobs[i].model
            },
        inserted,
        is.chunks == was.chunks,
        is.job_has_event(job_id),
        chunk_of_job(was, job_id) matches Some(chunk) && {
            let event = is.events.last();
            &&& event.audio_chunk_id == chunk.id
            &&& event.job_id@ == job_id
            &&& event.text == result.text
            &&& is_canonical_of(event, chunk.session_id@)
            &&& is.events.contains(event)
            &&& forall|i: int|
                0 <= i < is.events.len() && (#[trigger] is.events[i]).audio_chunk_id@ == chunk.id@
                    && is.events[i].is_canonical ==> is.events[i] == event
        },
{
    assert forall|i: int| 0 <= i < was.jobs.len() implies (#[trigger] failed.jobs[i]).id
        == was.jobs[i].id && failed.jobs[i].audio_chunk_id == was.jobs[i].audio_chunk_id by {}
    lemma_same_chunk_of_job(was.jobs, failed.jobs, job_id);
    let chunk = chunk_of_job(failed, job_id)->Some_0;
    let event = is.events.last();
    crate::storage::events::law_a_success_leaves_one_transcript_that_counts(
        failed,
        is,
        chunk.id@,
        event,
    );
    assert(is.events[is.events.len() - 1] == event);
}

/// What a job heard after it had failed is in the transcripts of its meeting when they are
/// made anew: its words in the text, and a line with them in the machine-readable form.
pub proof fn law_a_late_success_is_told(
    was: Tables,
    failed: Tables,
    is: Tables,
    told_from: Tables,
    job_id: Seq<char>,
    error: Seq<char>,
    delay: u64,
    now: UtcTime,
    result: TranscriptionResult,
    audio: Option<Seq<u8>>,
    event_id: Seq<char>,
    stamp: String,
    inserted: bool,
    files: Seq<AudioFile>,
    started: Seq<char>,
    shown: Seq<Seq<char>>,
    stamps: Seq<(Seq<char>, Seq<char>)>,
    omit: bool,
    title: Option<Seq<char>>,
)
    requires
        was.wf(),
        was.has_job(job_id),
        !was.job_has_event(job_id),
        failed == (Tables { jobs: failed.jobs, ..was }),
        put_off_by(was.jobs, failed.jobs, job_id, error, delay, now),
        is_stored(failed, is, job_id, result, audio, event_id, stamp, inserted),
        told_from.events.len() == is.events.len(),
        chunk_of_job(was, job_id) matches Some(chunk) ==> {
            &&& forall|i: int|
                0 <= i < is.events.len() ==> is_restamped(
                    #[trigger] is.events[i],
                    told_from.events[i],
                    is.chunks,
                    chunk.session_id@,
                    files,
                )
            &&& shown.len() == told(told_from.events, chunk.session_id@).len()
            &&& stamps.len() == told(told_from.events, chunk.session_id@).len()
        },
    ensures
        chunk_of_job(was, job_id) matches Some(chunk) && {
            let all = told(told_from.events, chunk.session_id@);
            &&& text::has_infix(
                markdown(chunk.session_id@, started, all, shown, omit, title),
                text::trimmed(result.text@),
            )
            &&& exists|i: int|
                0 <= i < all.len() && (#[trigger] all[i]).text == result.text
                    && all[i].job_id@ == job_id && text::has_infix(
                    jsonl(all, stamps),
                    json_text(line_model(all[i], stamps[i].0, stamps[i].1)) + "\n"@,
                )
        },
{
    law_a_job_that_fails_can_still_succeed(
        was,
        failed,
        is,
        job_id,
        error,
        delay,
        now,
        result,
        audio,
        event_id,
        stamp,
        inserted,
    );
    let chunk = chunk_of_job(was, job_id)->Some_0;
    law_transcripts_that_count_are_told(
        is.events,
        told_from.events,
        is.chunks,
        files,
        chunk.session_id@,
        is.events.last(),
        started,
        shown,
        stamps,
        omit,
        title,
    );
}

/// Jobs with the same identifiers and chunks are found alike.
proof fn lemma_same_chunk_of_job(
    a: Seq<TranscriptionJobRecord>,
    b: Seq<TranscriptionJobRecord>,
    id: Seq<char>,
)
    requires
        a.len() == b.len(),
        forall|i: int|
            0 <= i < a.len() ==> (#[trigger] b[i]).id == a[i].id && b[i].audio_chunk_id
                == a[i].audio_chunk_id,
    ensures
        match (find_job(a, id), find_job(b, id)) {
            (Some(x), Some(y)) => x.audio_chunk_id == y.audio_chunk_id,
            (None, None) => true,
            _ => false,
        },
    decreases a.len(),
{
    if a.len() > 0 {
        let (x, y) = (a.drop_first(), b.drop_first());
        assert(b[0].id == a[0].id);
        assert forall|i: int| 0 <= i < x.len() implies (#[trigger] y[i]).id == x[i].id
            && y[i].audio_chunk_id == x[i].audio_chunk_id by {
            assert(y[i] == b[i + 1] && x[i] == a[i + 1]);
        }
        lemma_same_chunk_of_job(x, y, id);
    }
}

/// The chunk that a job transcribes.
pub fn job_chunk(store: &Store, job_id: &str) -> (r: Result<AudioChunkRecord>)
    ensures
        match find_job(store.jobs@, job_id@) {
            None => fails(r, ErrorKind::Database, no_rows()),
            Some(job) => match find_chunk(store.chunks@, job.audio_chunk_id@) {
                None => fails(
                    r,
                    ErrorKind::Transcription,
                    "audio chunk "@ + job.audio_chunk_id@ + " missing"@,
                ),
                Some(chunk) => r matches Ok(c) && c == chunk,
            },
        },
{
    let chunk_id = match get_job_provider(store, job_id) {
        Ok((_, _, chunk_id)) => chunk_id,
        Err(e) => return Err(e),
    };
    match get_chunk(store, chunk_id.as_str()) {
        Some(chunk) => Ok(chunk),
        None => {
            let message = text::concat3("audio chunk ", chunk_id.as_str(), " missing");
            Err(AppError::transcription(message.as_str()))
        },
    }
}

/// The message that a job was looked after.
pub fn job_event(session_id: &str) -> (r: UiEvent)
    ensures
        r.event@ == "transcription_job_updated"@,
        r.session_id matches Some(id) && id@ == session_id@,
        r.message is None,
{
    UiEvent::new("transcription_job_updated").session(session_id)
}

/// How long a job waits that fails again, by how often it had failed before.
pub proof fn law_the_wait_grows_with_the_failures(attempts: i64)
    ensures
        wait_after(0) == 5,
        wait_after(1) == 15,
        wait_after(2) == 30,
        wait_after(3) == 60,
        4 <= attempts < u32::MAX ==> wait_after(attempts) == 300,
{
}

/// The audio of a chunk goes once its transcript is stored, unless the meeting keeps its
/// audio; a job that failed never deletes any.
pub proof fn law_audio_stays_until_it_is_transcribed(end: JobEnd, retains_audio: bool)
    ensures
        is_deletable(end, retains_audio) <==> end is Stored && !retains_audio,
{
}

/// A success stores one transcript with the words that were heard, which counts in place of
/// the older ones of its chunk; it closes its job and leaves every other row as it is.
pub proof fn law_a_success_is_stored(
    was: Tables,
    is: Tables,
    job_id: Seq<char>,
    result: TranscriptionResult,
    audio: Option<Seq<u8>>,
    event_id: Seq<char>,
    now: String,
    inserted: bool,
    i: int,
    e: int,
)
    requires
        is_stored(was, is, job_id, result, audio, event_id, now, inserted),
        0 <= i < was.jobs.len(),
        0 <= e < was.events.len(),
    ensures
        is.sessions == was.sessions,
        is.runs == was.runs,
        is.chunks == was.chunks,
        is.jobs.len() == was.jobs.len(),
        was.jobs[i].id@ == job_id ==> is.jobs[i].state == JobState::Completed,
        was.jobs[i].id@ != job_id ==> is.jobs[i] == was.jobs[i],
        inserted <==> !was.job_has_event(job_id),
        !inserted ==> is.events == was.events,
        inserted ==> {
            let new = is.events.last();
            &&& is.events.len() == was.events.len() + 1
            &&& new.text == result.text
            &&& new.provider == result.provider
            &&& new.model == result.model
            &&& new.job_id@ == job_id
            &&& new.is_canonical
            &&& chunk_of_job(was, job_id) matches Some(chunk) && new.audio_chunk_id == chunk.id
                && new.session_id == chunk.session_id && new.source == chunk.source
                && new.sequence == chunk.sequence
            &&& is.events[e] == (TranscriptEventRecord {
                is_canonical: was.events[e].is_canonical && was.events[e].audio_chunk_id@
                    != new.audio_chunk_id@,
                ..was.events[e]
            })
            &&& was.jobs[i].id@ == job_id ==> is.jobs[i] == (TranscriptionJobRecord {
                state: JobState::Completed,
                completed_at: Some(now),
                last_error: None,
                ..was.jobs[i]
            })
        },
{
}

/// A provider is there for every kind but the one that was removed, and for whisper.cpp
/// where the settings name at most one language.
pub proof fn law_which_providers_there_are(kind: ProviderKind, config: Config)
    ensures
        has_provider(kind, config) <==> kind == ProviderKind::Voxtype || kind
            == ProviderKind::WhisperCpp && config.transcription.languages@.len() <= 1,
{
    crate::config::law_whisper_takes_one_language(text::views(config.transcription.languages@));
}

} // verus!
