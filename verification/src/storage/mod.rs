//! The records of all meetings.

use crate::audio::AudioSource;
use crate::config::ProviderKind;
use crate::encode::{chunk_file_name, holds_signal, persist_chunk, widened, ChunkFile};
use crate::error::{fails, AppError, ErrorKind, Result};
use crate::text;
use crate::timeutil::{rfc3339_millis, UtcTime};
use chunks::{
    insert_chunk_and_job, last_sequence, next_sequence, sequence_taken, NewAudioChunk,
    NUMBER_COLUMNS,
};
use events::TranscriptEventRecord;
use jobs::is_new_job;
use types::{AudioChunkRecord, SessionRecord, TranscriptionJobRecord, TranscriptionRunRecord};
use vstd::prelude::*;

pub mod chunks;
pub mod deletion;
pub mod events;
pub mod jobs;
pub mod recovery;
pub mod sessions;
pub mod types;

pub use types::{JobState, SessionState};

verus! {

/// The tables. A row is found by its identifier; rows stand in the order in which
/// they were written.
#[derive(Debug)]
pub struct Store {
    pub sessions: Vec<SessionRecord>,
    pub runs: Vec<TranscriptionRunRecord>,
    pub chunks: Vec<AudioChunkRecord>,
    pub jobs: Vec<TranscriptionJobRecord>,
    pub events: Vec<TranscriptEventRecord>,
}

/// The rows of the tables.
#[verifier::ext_equal]
pub struct Tables {
    pub sessions: Seq<SessionRecord>,
    pub runs: Seq<TranscriptionRunRecord>,
    pub chunks: Seq<AudioChunkRecord>,
    pub jobs: Seq<TranscriptionJobRecord>,
    pub events: Seq<TranscriptEventRecord>,
}

impl View for Store {
    type V = Tables;

    open spec fn view(&self) -> Tables {
        Tables {
            sessions: self.sessions@,
            runs: self.runs@,
            chunks: self.chunks@,
            jobs: self.jobs@,
            events: self.events@,
        }
    }
}

/// The first session with this identifier.
pub open spec fn find_session(sessions: Seq<SessionRecord>, id: Seq<char>) -> Option<SessionRecord>
    decreases sessions.len(),
{
    if sessions.len() == 0 {
        None
    } else if sessions[0].id@ == id {
        Some(sessions[0])
    } else {
        find_session(sessions.drop_first(), id)
    }
}

/// The first chunk with this identifier.
pub open spec fn find_chunk(chunks: Seq<AudioChunkRecord>, id: Seq<char>) -> Option<AudioChunkRecord>
    decreases chunks.len(),
{
    if chunks.len() == 0 {
        None
    } else if chunks[0].id@ == id {
        Some(chunks[0])
    } else {
        find_chunk(chunks.drop_first(), id)
    }
}

/// The first job with this identifier.
pub open spec fn find_job(
    jobs: Seq<TranscriptionJobRecord>,
    id: Seq<char>,
) -> Option<TranscriptionJobRecord>
    decreases jobs.len(),
{
    if jobs.len() == 0 {
        None
    } else if jobs[0].id@ == id {
        Some(jobs[0])
    } else {
        find_job(jobs.drop_first(), id)
    }
}

proof fn lemma_find_session(sessions: Seq<SessionRecord>, id: Seq<char>, i: int)
    requires
        0 <= i <= sessions.len(),
        forall|k: int| 0 <= k < i ==> (#[trigger] sessions[k]).id@ != id,
        i < sessions.len() ==> sessions[i].id@ == id,
    ensures
        find_session(sessions, id) == if i < sessions.len() {
            Some(sessions[i])
        } else {
            None
        },
    decreases sessions.len(),
{
    if i > 0 {
        let rest = sessions.drop_first();
        assert forall|k: int| 0 <= k < i - 1 implies (#[trigger] rest[k]).id@ != id by {
            assert(rest[k] == sessions[k + 1]);
        }
        assert(sessions[0].id@ != id);
        lemma_find_session(rest, id, i - 1);
    }
}

pub proof fn lemma_find_chunk(chunks: Seq<AudioChunkRecord>, id: Seq<char>, i: int)
    requires
        0 <= i <= chunks.len(),
        forall|k: int| 0 <= k < i ==> (#[trigger] chunks[k]).id@ != id,
        i < chunks.len() ==> chunks[i].id@ == id,
    ensures
        find_chunk(chunks, id) == if i < chunks.len() {
            Some(chunks[i])
        } else {
            None
        },
    decreases chunks.len(),
{
    if i > 0 {
        let rest = chunks.drop_first();
        assert forall|k: int| 0 <= k < i - 1 implies (#[trigger] rest[k]).id@ != id by {
            assert(rest[k] == chunks[k + 1]);
        }
        assert(chunks[0].id@ != id);
        lemma_find_chunk(rest, id, i - 1);
    }
}

pub proof fn lemma_find_job(jobs: Seq<TranscriptionJobRecord>, id: Seq<char>, i: int)
    requires
        0 <= i <= jobs.len(),
        forall|k: int| 0 <= k < i ==> (#[trigger] jobs[k]).id@ != id,
        i < jobs.len() ==> jobs[i].id@ == id,
    ensures
        find_job(jobs, id) == if i < jobs.len() {
            Some(jobs[i])
        } else {
            None
        },
    decreases jobs.len(),
{
    if i > 0 {
        let rest = jobs.drop_first();
        assert forall|k: int| 0 <= k < i - 1 implies (#[trigger] rest[k]).id@ != id by {
            assert(rest[k] == jobs[k + 1]);
        }
        assert(jobs[0].id@ != id);
        lemma_find_job(rest, id, i - 1);
    }
}

/// Whether two chunks are of one source of a session and have the same number.
pub open spec fn same_number(a: AudioChunkRecord, b: AudioChunkRecord) -> bool {
    a.session_id@ == b.session_id@ && a.source == b.source && a.sequence == b.sequence
}

impl Tables {
    pub open spec fn has_session(self, id: Seq<char>) -> bool {
        exists|i: int| 0 <= i < self.sessions.len() && (#[trigger] self.sessions[i]).id@ == id
    }

    pub open spec fn has_run(self, id: Seq<char>) -> bool {
        exists|i: int| 0 <= i < self.runs.len() && (#[trigger] self.runs[i]).id@ == id
    }

    pub open spec fn has_chunk(self, id: Seq<char>) -> bool {
        exists|i: int| 0 <= i < self.chunks.len() && (#[trigger] self.chunks[i]).id@ == id
    }

    pub open spec fn has_job(self, id: Seq<char>) -> bool {
        exists|i: int| 0 <= i < self.jobs.len() && (#[trigger] self.jobs[i]).id@ == id
    }

    /// Whether the job has a transcript.
    pub open spec fn job_has_event(self, job_id: Seq<char>) -> bool {
        exists|i: int| 0 <= i < self.events.len() && (#[trigger] self.events[i]).job_id@ == job_id
    }

    /// Whether the chunk has a transcript.
    pub open spec fn chunk_has_event(self, chunk_id: Seq<char>) -> bool {
        exists|i: int|
            0 <= i < self.events.len() && (#[trigger] self.events[i]).audio_chunk_id@ == chunk_id
    }

    /// What every operation keeps that gives a chunk a run of its own session: identifiers
    /// are unique, the chunks of a source are numbered differently, rows refer to rows that
    /// are there, a job has at most one transcript and a chunk at most one that counts.
    pub open spec fn wf(self) -> bool {
        &&& self.ids_unique()
        &&& self.numbers_unique()
        &&& self.references_hold()
        &&& self.rows_belong()
        &&& self.one_event_per_job()
        &&& self.one_canonical_event_per_chunk()
    }

    /// Whether the job and its run are of the session of its chunk.
    pub open spec fn job_belongs(self, job: TranscriptionJobRecord) -> bool {
        exists|c: int, r: int|
            #![trigger self.chunks[c], self.runs[r]]
            0 <= c < self.chunks.len() && 0 <= r < self.runs.len() && self.chunks[c].id@
                == job.audio_chunk_id@ && self.runs[r].id@ == job.run_id@
                && self.chunks[c].session_id@ == self.runs[r].session_id@
    }

    /// Whether the transcript, its job and its chunk go together.
    pub open spec fn event_belongs(self, event: TranscriptEventRecord) -> bool {
        &&& exists|j: int|
            0 <= j < self.jobs.len() && (#[trigger] self.jobs[j]).id@ == event.job_id@
                && self.jobs[j].audio_chunk_id@ == event.audio_chunk_id@
        &&& exists|c: int|
            0 <= c < self.chunks.len() && (#[trigger] self.chunks[c]).id@ == event.audio_chunk_id@
                && self.chunks[c].session_id@ == event.session_id@
    }

    /// No row refers to rows of two sessions.
    pub open spec fn rows_belong(self) -> bool {
        &&& forall|i: int| 0 <= i < self.jobs.len() ==> self.job_belongs(#[trigger] self.jobs[i])
        &&& forall|i: int|
            0 <= i < self.events.len() ==> self.event_belongs(#[trigger] self.events[i])
    }

    /// Whether there is a run with this identifier of this session.
    pub open spec fn has_run_of(self, id: Seq<char>, session_id: Seq<char>) -> bool {
        exists|i: int|
            0 <= i < self.runs.len() && (#[trigger] self.runs[i]).id@ == id
                && self.runs[i].session_id@ == session_id
    }

    pub open spec fn ids_unique(self) -> bool {
        &&& forall|i: int, j: int|
            0 <= i < j < self.sessions.len() ==> (#[trigger] self.sessions[i]).id@ != (
            #[trigger] self.sessions[j]).id@
        &&& forall|i: int, j: int|
            0 <= i < j < self.runs.len() ==> (#[trigger] self.runs[i]).id@ != (
            #[trigger] self.runs[j]).id@
        &&& forall|i: int, j: int|
            0 <= i < j < self.chunks.len() ==> (#[trigger] self.chunks[i]).id@ != (
            #[trigger] self.chunks[j]).id@
        &&& forall|i: int, j: int|
            0 <= i < j < self.jobs.len() ==> (#[trigger] self.jobs[i]).id@ != (
            #[trigger] self.jobs[j]).id@
    }

    /// No two chunks of one source of a session have the same number.
    pub open spec fn numbers_unique(self) -> bool {
        forall|i: int, j: int|
            0 <= i < j < self.chunks.len() ==> !same_number(
                #[trigger] self.chunks[i],
                #[trigger] self.chunks[j],
            )
    }

    pub open spec fn references_hold(self) -> bool {
        &&& forall|i: int|
            0 <= i < self.runs.len() ==> self.has_session((#[trigger] self.runs[i]).session_id@)
        &&& forall|i: int|
            0 <= i < self.chunks.len() ==> self.has_session(
                (#[trigger] self.chunks[i]).session_id@,
            )
        &&& forall|i: int|
            0 <= i < self.jobs.len() ==> self.has_chunk((#[trigger] self.jobs[i]).audio_chunk_id@)
                && self.has_run(self.jobs[i].run_id@)
        &&& forall|i: int|
            0 <= i < self.events.len() ==> self.has_job((#[trigger] self.events[i]).job_id@)
                && self.has_chunk(self.events[i].audio_chunk_id@)
    }

    pub open spec fn one_event_per_job(self) -> bool {
        forall|i: int, j: int|
            0 <= i < j < self.events.len() ==> (#[trigger] self.events[i]).job_id@ != (
            #[trigger] self.events[j]).job_id@
    }

    pub open spec fn one_canonical_event_per_chunk(self) -> bool {
        forall|i: int, j: int|
            0 <= i < j < self.events.len() && self.events[i].is_canonical
                && self.events[j].is_canonical ==> (#[trigger] self.events[i]).audio_chunk_id@ != (
            #[trigger] self.events[j]).audio_chunk_id@
    }
}

/// Rows still belong together when rows are added that do and the keys of the others
/// stay.
pub proof fn lemma_rows_still_belong(was: Tables, now: Tables)
    requires
        was.rows_belong(),
        was.chunks.len() <= now.chunks.len(),
        was.runs.len() <= now.runs.len(),
        was.jobs.len() <= now.jobs.len(),
        was.events.len() <= now.events.len(),
        forall|i: int|
            0 <= i < was.chunks.len() ==> (#[trigger] now.chunks[i]).id == was.chunks[i].id
                && now.chunks[i].session_id == was.chunks[i].session_id,
        forall|i: int|
            0 <= i < was.runs.len() ==> (#[trigger] now.runs[i]).id == was.runs[i].id
                && now.runs[i].session_id == was.runs[i].session_id,
        forall|i: int|
            0 <= i < was.jobs.len() ==> (#[trigger] now.jobs[i]).id == was.jobs[i].id
                && now.jobs[i].audio_chunk_id == was.jobs[i].audio_chunk_id && now.jobs[i].run_id
                == was.jobs[i].run_id,
        forall|i: int|
            0 <= i < was.events.len() ==> (#[trigger] now.events[i]).job_id == was.events[i].job_id
                && now.events[i].audio_chunk_id == was.events[i].audio_chunk_id
                && now.events[i].session_id == was.events[i].session_id,
        forall|i: int|
            was.jobs.len() <= i < now.jobs.len() ==> now.job_belongs(#[trigger] now.jobs[i]),
        forall|i: int|
            was.events.len() <= i < now.events.len() ==> now.event_belongs(
                #[trigger] now.events[i],
            ),
    ensures
        now.rows_belong(),
{
    assert forall|i: int| 0 <= i < now.jobs.len() implies now.job_belongs(
        #[trigger] now.jobs[i],
    ) by {
        if i < was.jobs.len() {
            assert(was.job_belongs(was.jobs[i]));
            let (c, r) = choose|c: int, r: int|
                #![trigger was.chunks[c], was.runs[r]]
                0 <= c < was.chunks.len() && 0 <= r < was.runs.len() && was.chunks[c].id@
                    == was.jobs[i].audio_chunk_id@ && was.runs[r].id@ == was.jobs[i].run_id@
                    && was.chunks[c].session_id@ == was.runs[r].session_id@;
            assert(now.chunks[c].session_id@ == now.runs[r].session_id@);
        }
    }
    assert forall|i: int| 0 <= i < now.events.len() implies now.event_belongs(
        #[trigger] now.events[i],
    ) by {
        if i < was.events.len() {
            let e = was.events[i];
            assert(was.event_belongs(e));
            let j = choose|j: int|
                0 <= j < was.jobs.len() && (#[trigger] was.jobs[j]).id@ == e.job_id@
                    && was.jobs[j].audio_chunk_id@ == e.audio_chunk_id@;
            assert(now.jobs[j].id@ == now.events[i].job_id@);
            let c = choose|c: int|
                0 <= c < was.chunks.len() && (#[trigger] was.chunks[c]).id@ == e.audio_chunk_id@
                    && was.chunks[c].session_id@ == e.session_id@;
            assert(now.chunks[c].id@ == now.events[i].audio_chunk_id@);
        }
    }
}

impl Store {
    /// Tables without rows.
    pub fn new() -> (r: Store)
        ensures
            r@.wf(),
            r@.sessions.len() == 0,
            r@.runs.len() == 0,
            r@.chunks.len() == 0,
            r@.jobs.len() == 0,
            r@.events.len() == 0,
    {
        Store {
            sessions: Vec::new(),
            runs: Vec::new(),
            chunks: Vec::new(),
            jobs: Vec::new(),
            events: Vec::new(),
        }
    }

    /// The row of a session.
    pub fn session_index(&self, id: &str) -> (r: Option<usize>)
        ensures
            match r {
                Some(i) => i < self.sessions@.len() && self.sessions@[i as int].id@ == id@ && (
                forall|k: int| 0 <= k < i ==> (#[trigger] self.sessions@[k]).id@ != id@),
                None => !self@.has_session(id@),
            },
            find_session(self.sessions@, id@) == match r {
                Some(i) => Some(self.sessions@[i as int]),
                None => None,
            },
    {
        let mut i: usize = 0;
        while i < self.sessions.len()
            invariant
                i <= self.sessions@.len(),
                forall|k: int| 0 <= k < i ==> (#[trigger] self.sessions@[k]).id@ != id@,
            decreases self.sessions.len() - i,
        {
            if text::same(self.sessions[i].id.as_str(), id) {
                proof {
                    lemma_find_session(self.sessions@, id@, i as int);
                }
                return Some(i);
            }
            i += 1;
        }
        proof {
            lemma_find_session(self.sessions@, id@, i as int);
        }
        None
    }

    /// The row of a chunk.
    pub fn chunk_index(&self, id: &str) -> (r: Option<usize>)
        ensures
            match r {
                Some(i) => i < self.chunks@.len() && self.chunks@[i as int].id@ == id@ && (forall|
                    k: int,
                |
                    0 <= k < i ==> (#[trigger] self.chunks@[k]).id@ != id@),
                None => !self@.has_chunk(id@),
            },
            find_chunk(self.chunks@, id@) == match r {
                Some(i) => Some(self.chunks@[i as int]),
                None => None,
            },
    {
        let mut i: usize = 0;
        while i < self.chunks.len()
            invariant
                i <= self.chunks@.len(),
                forall|k: int| 0 <= k < i ==> (#[trigger] self.chunks@[k]).id@ != id@,
            decreases self.chunks.len() - i,
        {
            if text::same(self.chunks[i].id.as_str(), id) {
                proof {
                    lemma_find_chunk(self.chunks@, id@, i as int);
                }
                return Some(i);
            }
            i += 1;
        }
        proof {
            lemma_find_chunk(self.chunks@, id@, i as int);
        }
        None
    }

    /// The row of a job.
    pub fn job_index(&self, id: &str) -> (r: Option<usize>)
        ensures
            match r {
                Some(i) => i < self.jobs@.len() && self.jobs@[i as int].id@ == id@ && (forall|
                    k: int,
                |
                    0 <= k < i ==> (#[trigger] self.jobs@[k]).id@ != id@),
                None => !self@.has_job(id@),
            },
            find_job(self.jobs@, id@) == match r {
                Some(i) => Some(self.jobs@[i as int]),
                None => None,
            },
    {
        let mut i: usize = 0;
        while i < self.jobs.len()
            invariant
                i <= self.jobs@.len(),
                forall|k: int| 0 <= k < i ==> (#[trigger] self.jobs@[k]).id@ != id@,
            decreases self.jobs.len() - i,
        {
            if text::same(self.jobs[i].id.as_str(), id) {
                proof {
                    lemma_find_job(self.jobs@, id@, i as int);
                }
                return Some(i);
            }
            i += 1;
        }
        proof {
            lemma_find_job(self.jobs@, id@, i as int);
        }
        None
    }

    /// Whether there is a run with this identifier.
    pub fn has_run_row(&self, id: &str) -> (r: bool)
        ensures
            r == self@.has_run(id@),
    {
        let mut i: usize = 0;
        while i < self.runs.len()
            invariant
                i <= self.runs@.len(),
                forall|k: int| 0 <= k < i ==> (#[trigger] self.runs@[k]).id@ != id@,
            decreases self.runs.len() - i,
        {
            if text::same(self.runs[i].id.as_str(), id) {
                return true;
            }
            i += 1;
        }
        false
    }

    /// Whether the job has a transcript.
    pub fn has_event_for_job(&self, job_id: &str) -> (r: bool)
        ensures
            r == self@.job_has_event(job_id@),
    {
        let mut i: usize = 0;
        while i < self.events.len()
            invariant
                i <= self.events@.len(),
                forall|k: int| 0 <= k < i ==> (#[trigger] self.events@[k]).job_id@ != job_id@,
            decreases self.events.len() - i,
        {
            if text::same(self.events[i].job_id.as_str(), job_id) {
                return true;
            }
            i += 1;
        }
        false
    }

    /// Whether the chunk has a transcript.
    pub fn has_event_for_chunk(&self, chunk_id: &str) -> (r: bool)
        ensures
            r == self@.chunk_has_event(chunk_id@),
    {
        let mut i: usize = 0;
        while i < self.events.len()
            invariant
                i <= self.events@.len(),
                forall|k: int|
                    0 <= k < i ==> (#[trigger] self.events@[k]).audio_chunk_id@ != chunk_id@,
            decreases self.events.len() - i,
        {
            if text::same(self.events[i].audio_chunk_id.as_str(), chunk_id) {
                return true;
            }
            i += 1;
        }
        false
    }
}

pub open spec fn audio_source_named(value: Seq<char>) -> Option<AudioSource> {
    if value == "mic"@ {
        Some(AudioSource::Mic)
    } else if value == "system"@ {
        Some(AudioSource::System)
    } else {
        None
    }
}

pub fn source_from_str(value: &str) -> (r: Result<AudioSource>)
    ensures
        match audio_source_named(value@) {
            Some(source) => r matches Ok(s) && s == source,
            None => fails(r, ErrorKind::Other, "invalid audio source '"@ + value@ + "'"@),
        },
{
    if text::same(value, "mic") {
        Ok(AudioSource::Mic)
    } else if text::same(value, "system") {
        Ok(AudioSource::System)
    } else {
        let message = text::concat3("invalid audio source '", value, "'");
        Err(AppError::other(message.as_str()))
    }
}

/// The name of an audio source is read back as the source.
pub proof fn law_audio_source_round_trip(source: AudioSource)
    ensures
        audio_source_named(source.name()) == Some(source),
{
    reveal_strlit("mic");
    reveal_strlit("system");
    assert("mic"@[0] == 'm' && "system"@[0] == 's');
}

/// The message for a row whose identifier is taken.
pub open spec fn taken(column: Seq<char>) -> Seq<char> {
    "UNIQUE constraint failed: "@ + column
}

/// The error for a row whose identifier is taken.
pub fn id_taken(column: &str) -> (e: AppError)
    ensures
        e@ == (ErrorKind::Database, taken(column@)),
{
    AppError::Database(text::concat2("UNIQUE constraint failed: ", column))
}

/// The message for a row that would refer to one that is not there.
pub open spec fn no_reference() -> Seq<char> {
    "FOREIGN KEY constraint failed"@
}

/// The error for a row that would refer to one that is not there.
pub fn missing_reference() -> (e: AppError)
    ensures
        e@ == (ErrorKind::Database, no_reference()),
{
    AppError::Database("FOREIGN KEY constraint failed".to_owned())
}

/// A turn that is stored: what is known of it before it has a place.
pub struct PersistChunk<'a> {
    pub session_id: &'a str,
    pub run_id: &'a str,
    pub provider: ProviderKind,
    pub model: &'a str,
    pub source: AudioSource,
    pub started_at: UtcTime,
    pub ended_at: UtcTime,
    pub samples: &'a [i16],
}

/// The file of a turn and the number that it has.
#[derive(Debug)]
pub struct NumberedFile {
    pub sequence: u64,
    pub file: ChunkFile,
}

/// The file of a turn: it is written before the turn is recorded in the tables, so that
/// no row is without its audio.
pub fn chunk_file(store: &Store, chunk: &PersistChunk<'_>) -> (r: Result<NumberedFile>)
    requires
        chunk.started_at.wf(),
        last_sequence(store.chunks@, chunk.session_id@, chunk.source) < u64::MAX,
    ensures
        chunk.samples@.len() == 0 ==> fails(
            r,
            ErrorKind::Encode,
            "cannot encode an empty PCM buffer as FLAC"@,
        ),
        match r {
            Ok(n) => {
                &&& n.sequence == last_sequence(store.chunks@, chunk.session_id@, chunk.source) + 1
                &&& n.file.name@ == chunk_file_name(n.sequence, chunk.started_at)
                &&& holds_signal(n.file.bytes@, widened(chunk.samples@))
            },
            Err(e) => e@.0 == ErrorKind::Encode,
        },
        0 < chunk.samples@.len() < 0x10_0000_0000 ==> r is Ok,
{
    let sequence = next_sequence(store, chunk.session_id, chunk.source);
    match persist_chunk(sequence, chunk.started_at, chunk.samples) {
        Ok(file) => Ok(NumberedFile { sequence, file }),
        Err(e) => Err(e),
    }
}

/// Records a turn whose file is in its place, and the job that transcribes it.
pub fn persist_recorded_chunk(
    store: &mut Store,
    chunk: &PersistChunk<'_>,
    sequence: u64,
    file_path: &str,
    chunk_id: &str,
    job_id: &str,
    now: &String,
) -> (r: Result<(AudioChunkRecord, TranscriptionJobRecord)>)
    requires
        chunk.started_at.wf(),
        chunk.ended_at.wf(),
        chunk.samples@.len() * 1000 <= i64::MAX,
    ensures
        if old(store)@.has_chunk(chunk_id@) {
            fails(r, ErrorKind::Database, taken("audio_chunks.id"@)) && final(store)@ == old(store)@
        } else if sequence_taken(
            old(store)@.chunks,
            chunk.session_id@,
            chunk.source,
            sequence,
        ) {
            fails(r, ErrorKind::Database, taken(NUMBER_COLUMNS@)) && final(store)@ == old(store)@
        } else if !old(store)@.has_session(chunk.session_id@) {
            fails(r, ErrorKind::Database, no_reference()) && final(store)@ == old(store)@
        } else if old(store)@.has_job(job_id@) {
            fails(r, ErrorKind::Database, taken("transcription_jobs.id"@)) && final(store)@ == old(
                store,
            )@
        } else if !old(store)@.has_run(chunk.run_id@) {
            fails(r, ErrorKind::Database, no_reference()) && final(store)@ == old(store)@
        } else {
            &&& r matches Ok((row, job)) && {
                &&& row.id@ == chunk_id@
                &&& row.session_id@ == chunk.session_id@
                &&& row.source == chunk.source
                &&& row.sequence == sequence
                &&& row.started_at@ == rfc3339_millis(chunk.started_at.secs, chunk.started_at.nanos)
                &&& row.ended_at@ == rfc3339_millis(chunk.ended_at.secs, chunk.ended_at.nanos)
                &&& row.file_path@ == file_path@
                &&& row.duration_ms == chunk.samples@.len() * 1000 / 16_000
                &&& row.created_at == *now
                &&& is_new_job(
                    job,
                    job_id@,
                    chunk_id@,
                    chunk.run_id@,
                    chunk.provider,
                    chunk.model@,
                    *now,
                )
                &&& final(store)@ == (Tables {
                    chunks: old(store)@.chunks.push(row),
                    jobs: old(store)@.jobs.push(job),
                    ..old(store)@
                })
            }
        },
        old(store)@.wf() && (old(store)@.has_run(chunk.run_id@) ==> old(store)@.has_run_of(
            chunk.run_id@,
            chunk.session_id@,
        )) ==> final(store)@.wf(),
{
    let duration_ms: i64 = (chunk.samples.len() as i64 * 1000) / 16_000;
    insert_chunk_and_job(
        store,
        NewAudioChunk {
            session_id: chunk.session_id,
            run_id: chunk.run_id,
            source: chunk.source,
            sequence,
            started_at: chunk.started_at,
            ended_at: chunk.ended_at,
            file_path,
            duration_ms,
            provider: chunk.provider,
            model: chunk.model,
        },
        chunk_id,
        job_id,
        now,
    )
}

/// The steps that bring the tables to the form of now.
pub open spec fn needed_migrations(known: bool, has_first: bool, has_second: bool) -> Seq<u32> {
    (if known && has_first {
        Seq::<u32>::empty()
    } else {
        seq![1u32]
    }) + (if known && has_second {
        Seq::<u32>::empty()
    } else {
        seq![2u32]
    })
}

/// The steps that bring the tables to the form of now, in order. `known` is whether steps
/// were ever noted down, `has_first` and `has_second` which of them were.
pub fn migrations(known: bool, has_first: bool, has_second: bool) -> (r: Vec<u32>)
    ensures
        r@ == needed_migrations(known, has_first, has_second),
{
    let mut steps: Vec<u32> = Vec::new();
    if !(known && has_first) {
        steps.push(1);
    }
    if !(known && has_second) {
        steps.push(2);
    }
    assert(steps@ =~= needed_migrations(known, has_first, has_second));
    steps
}

/// Tables that were brought to the form of now need no further step.
pub proof fn law_migrating_again_changes_nothing(known: bool, has_first: bool, has_second: bool)
    ensures
        ({
            let done = needed_migrations(known, has_first, has_second);
            needed_migrations(
                true,
                known && has_first || done.contains(1),
                known && has_second || done.contains(2),
            ).len() == 0
        }),
{
    let done = needed_migrations(known, has_first, has_second);
    if !(known && has_first) {
        assert(done[0] == 1);
    }
    if !(known && has_second) {
        assert(done.last() == 2);
    }
}

/// The names under which sources are stored.
pub proof fn law_stored_sources_go_by_their_names(value: Seq<char>)
    ensures
        audio_source_named(value) == Some(AudioSource::Mic) <==> value == "mic"@,
        audio_source_named(value) == Some(AudioSource::System) <==> value == "system"@,
{
    reveal_strlit("mic");
    reveal_strlit("system");
    assert("mic"@.len() == 3 && "system"@.len() == 6);
}

/// A row is found by its identifier: the first that has it, and none only where no row has.
pub proof fn law_rows_are_found_by_their_identifiers(
    tables: Tables,
    id: Seq<char>,
    s: int,
    c: int,
    j: int,
)
    requires
        0 <= s <= tables.sessions.len(),
        forall|k: int| 0 <= k < s ==> (#[trigger] tables.sessions[k]).id@ != id,
        s < tables.sessions.len() ==> tables.sessions[s].id@ == id,
        0 <= c <= tables.chunks.len(),
        forall|k: int| 0 <= k < c ==> (#[trigger] tables.chunks[k]).id@ != id,
        c < tables.chunks.len() ==> tables.chunks[c].id@ == id,
        0 <= j <= tables.jobs.len(),
        forall|k: int| 0 <= k < j ==> (#[trigger] tables.jobs[k]).id@ != id,
        j < tables.jobs.len() ==> tables.jobs[j].id@ == id,
    ensures
        find_session(tables.sessions, id) == if s < tables.sessions.len() {
            Some(tables.sessions[s])
        } else {
            None
        },
        find_chunk(tables.chunks, id) == if c < tables.chunks.len() {
            Some(tables.chunks[c])
        } else {
            None
        },
        find_job(tables.jobs, id) == if j < tables.jobs.len() {
            Some(tables.jobs[j])
        } else {
            None
        },
{
    lemma_find_session_at(tables.sessions, id, s);
    lemma_find_chunk(tables.chunks, id, c);
    lemma_find_job(tables.jobs, id, j);
}

proof fn lemma_find_session_at(sessions: Seq<SessionRecord>, id: Seq<char>, i: int)
    requires
        0 <= i <= sessions.len(),
        forall|k: int| 0 <= k < i ==> (#[trigger] sessions[k]).id@ != id,
        i < sessions.len() ==> sessions[i].id@ == id,
    ensures
        find_session(sessions, id) == if i < sessions.len() {
            Some(sessions[i])
        } else {
            None
        },
    decreases sessions.len(),
{
    if i > 0 {
        let rest = sessions.drop_first();
        assert(sessions[0].id@ != id);
        assert forall|k: int| 0 <= k < i - 1 implies (#[trigger] rest[k]).id@ != id by {
            assert(rest[k] == sessions[k + 1]);
        }
        lemma_find_session_at(rest, id, i - 1);
    }
}

/// A step of the tables is taken exactly where it was not recorded before.
pub proof fn law_missing_migrations_are_taken(known: bool, has_first: bool, has_second: bool)
    ensures
        needed_migrations(known, has_first, has_second).contains(1u32) <==> !(known && has_first),
        needed_migrations(known, has_first, has_second).contains(2u32) <==> !(known && has_second),
        !known ==> needed_migrations(known, has_first, has_second) == seq![1u32, 2u32],
{
    let steps = needed_migrations(known, has_first, has_second);
    if !(known && has_first) {
        assert(steps[0] == 1);
    }
    if !(known && has_second) {
        assert(steps[steps.len() - 1] == 2);
    }
    if !known {
        assert(steps =~= seq![1u32, 2u32]);
    }
}

} // verus!
