//! Stored audio chunks.

use crate::audio::AudioSource;
use crate::config::ProviderKind;
use crate::error::{fails, ErrorKind, Result};
use crate::sorting::{rank, ranked, Ranked};
use crate::storage::jobs::{is_new_job, new_job};
use crate::storage::types::{AudioChunkRecord, TranscriptionJobRecord};
use crate::storage::{
    find_chunk, id_taken, lemma_rows_still_belong, missing_reference, no_reference, same_number,
    taken, Store, Tables,
};
use crate::text;
use crate::timeutil::{datetime_rfc3339, rfc3339_millis, UtcTime};
use vstd::prelude::*;

verus! {

/// Whether a chunk belongs to this session and source.
pub open spec fn is_from(chunk: AudioChunkRecord, session_id: Seq<char>, source: AudioSource) -> bool {
    chunk.session_id@ == session_id && chunk.source == source
}

/// The highest number of a chunk of this session and source, or 0.
pub open spec fn last_sequence(
    chunks: Seq<AudioChunkRecord>,
    session_id: Seq<char>,
    source: AudioSource,
) -> u64
    decreases chunks.len(),
{
    if chunks.len() == 0 {
        0
    } else {
        let before = last_sequence(chunks.drop_last(), session_id, source);
        if is_from(chunks.last(), session_id, source) && chunks.last().sequence > before {
            chunks.last().sequence
        } else {
            before
        }
    }
}

/// The number of the next chunk of this session and source.
pub fn next_sequence(store: &Store, session_id: &str, source: AudioSource) -> (r: u64)
    requires
        last_sequence(store.chunks@, session_id@, source) < u64::MAX,
    ensures
        r == last_sequence(store.chunks@, session_id@, source) + 1,
{
    let mut last: u64 = 0;
    let mut i: usize = 0;
    while i < store.chunks.len()
        invariant
            i <= store.chunks@.len(),
            last == last_sequence(store.chunks@.take(i as int), session_id@, source),
        decreases store.chunks.len() - i,
    {
        proof {
            assert(store.chunks@.take(i + 1).drop_last() =~= store.chunks@.take(i as int));
        }
        if store.chunks[i].source == source && text::same(
            store.chunks[i].session_id.as_str(),
            session_id,
        ) && store.chunks[i].sequence > last {
            last = store.chunks[i].sequence;
        }
        i += 1;
    }
    assert(store.chunks@.take(i as int) =~= store.chunks@);
    last + 1
}

/// Whether the number is taken.
pub open spec fn sequence_taken(
    chunks: Seq<AudioChunkRecord>,
    session_id: Seq<char>,
    source: AudioSource,
    sequence: u64,
) -> bool {
    exists|i: int|
        0 <= i < chunks.len() && is_from(#[trigger] chunks[i], session_id, source)
            && chunks[i].sequence == sequence
}

pub fn sequence_exists(
    store: &Store,
    session_id: &str,
    source: AudioSource,
    sequence: u64,
) -> (r: bool)
    ensures
        r == sequence_taken(store.chunks@, session_id@, source, sequence),
{
    let mut i: usize = 0;
    while i < store.chunks.len()
        invariant
            i <= store.chunks@.len(),
            forall|k: int|
                0 <= k < i ==> !(is_from(#[trigger] store.chunks@[k], session_id@, source)
                    && store.chunks@[k].sequence == sequence),
        decreases store.chunks.len() - i,
    {
        if store.chunks[i].source == source && store.chunks[i].sequence == sequence && text::same(
            store.chunks[i].session_id.as_str(),
            session_id,
        ) {
            assert(is_from(store.chunks@[i as int], session_id@, source));
            return true;
        }
        i += 1;
    }
    false
}

pub open spec fn path_taken(chunks: Seq<AudioChunkRecord>, path: Seq<char>) -> bool {
    exists|i: int| 0 <= i < chunks.len() && (#[trigger] chunks[i]).file_path@ == path
}

pub fn chunk_exists_for_path(store: &Store, file_path: &str) -> (r: bool)
    ensures
        r == path_taken(store.chunks@, file_path@),
{
    let mut i: usize = 0;
    while i < store.chunks.len()
        invariant
            i <= store.chunks@.len(),
            forall|k: int| 0 <= k < i ==> (#[trigger] store.chunks@[k]).file_path@ != file_path@,
        decreases store.chunks.len() - i,
    {
        if text::same(store.chunks[i].file_path.as_str(), file_path) {
            return true;
        }
        i += 1;
    }
    false
}

/// The next number is not taken.
pub proof fn law_next_sequence_is_free(
    chunks: Seq<AudioChunkRecord>,
    session_id: Seq<char>,
    source: AudioSource,
    sequence: u64,
)
    requires
        sequence > last_sequence(chunks, session_id, source),
    ensures
        !sequence_taken(chunks, session_id, source, sequence),
    decreases chunks.len(),
{
    if chunks.len() > 0 {
        law_next_sequence_is_free(chunks.drop_last(), session_id, source, sequence);
        if sequence_taken(chunks, session_id, source, sequence) {
            let i = choose|i: int|
                0 <= i < chunks.len() && is_from(#[trigger] chunks[i], session_id, source)
                    && chunks[i].sequence == sequence;
            if i < chunks.len() - 1 {
                assert(chunks.drop_last()[i] == chunks[i]);
                assert(sequence_taken(chunks.drop_last(), session_id, source, sequence));
            }
        }
    }
}

/// The columns that tell the chunks of a source apart.
pub const NUMBER_COLUMNS: &'static str =
    "audio_chunks.session_id, audio_chunks.source, audio_chunks.sequence";

/// What is known of a chunk before it is stored.
pub struct NewAudioChunk<'a> {
    pub session_id: &'a str,
    pub run_id: &'a str,
    pub source: AudioSource,
    pub sequence: u64,
    pub started_at: UtcTime,
    pub ended_at: UtcTime,
    pub file_path: &'a str,
    pub duration_ms: i64,
    pub provider: ProviderKind,
    pub model: &'a str,
}

/// Whether `chunk` is the record of a new chunk.
pub open spec fn is_new_chunk(
    chunk: AudioChunkRecord,
    new: NewAudioChunk<'_>,
    id: Seq<char>,
    now: String,
) -> bool {
    &&& chunk.id@ == id
    &&& chunk.session_id@ == new.session_id@
    &&& chunk.source == new.source
    &&& chunk.sequence == new.sequence
    &&& chunk.started_at@ == rfc3339_millis(new.started_at.secs, new.started_at.nanos)
    &&& chunk.ended_at@ == rfc3339_millis(new.ended_at.secs, new.ended_at.nanos)
    &&& chunk.file_path@ == new.file_path@
    &&& chunk.duration_ms == new.duration_ms
    &&& chunk.created_at == now
}

/// Stores a chunk of a session and the job of a run that transcribes it.
pub fn insert_chunk_and_job(
    store: &mut Store,
    spec: NewAudioChunk<'_>,
    chunk_id: &str,
    job_id: &str,
    now: &String,
) -> (r: Result<(AudioChunkRecord, TranscriptionJobRecord)>)
    requires
        spec.started_at.wf(),
        spec.ended_at.wf(),
    ensures
        if old(store)@.has_chunk(chunk_id@) {
            fails(r, ErrorKind::Database, taken("audio_chunks.id"@)) && final(store)@ == old(store)@
        } else if sequence_taken(
            old(store)@.chunks,
            spec.session_id@,
            spec.source,
            spec.sequence,
        ) {
            fails(r, ErrorKind::Database, taken(NUMBER_COLUMNS@)) && final(store)@ == old(store)@
        } else if !old(store)@.has_session(spec.session_id@) {
            fails(r, ErrorKind::Database, no_reference()) && final(store)@ == old(store)@
        } else if old(store)@.has_job(job_id@) {
            fails(r, ErrorKind::Database, taken("transcription_jobs.id"@)) && final(store)@ == old(
                store,
            )@
        } else if !old(store)@.has_run(spec.run_id@) {
            fails(r, ErrorKind::Database, no_reference()) && final(store)@ == old(store)@
        } else {
            r matches Ok((chunk, job)) && is_new_chunk(chunk, spec, chunk_id@, *now) && is_new_job(
                job,
                job_id@,
                chunk_id@,
                spec.run_id@,
                spec.provider,
                spec.model@,
                *now,
            ) && final(store)@ == (Tables {
                chunks: old(store)@.chunks.push(chunk),
                jobs: old(store)@.jobs.push(job),
                ..old(store)@
            })
        },
        old(store)@.wf() && (old(store)@.has_run(spec.run_id@) ==> old(store)@.has_run_of(
            spec.run_id@,
            spec.session_id@,
        )) ==> final(store)@.wf(),
{
    if store.chunk_index(chunk_id).is_some() {
        return Err(id_taken("audio_chunks.id"));
    }
    if sequence_exists(store, spec.session_id, spec.source, spec.sequence) {
        return Err(id_taken(NUMBER_COLUMNS));
    }
    if store.session_index(spec.session_id).is_none() {
        return Err(missing_reference());
    }
    if store.job_index(job_id).is_some() {
        return Err(id_taken("transcription_jobs.id"));
    }
    if !store.has_run_row(spec.run_id) {
        return Err(missing_reference());
    }
    let ghost was = store@;
    let chunk = AudioChunkRecord {
        id: chunk_id.to_owned(),
        session_id: spec.session_id.to_owned(),
        source: spec.source,
        sequence: spec.sequence,
        started_at: datetime_rfc3339(spec.started_at),
        ended_at: datetime_rfc3339(spec.ended_at),
        file_path: spec.file_path.to_owned(),
        duration_ms: spec.duration_ms,
        created_at: now.clone(),
    };
    let job = new_job(job_id, chunk_id, spec.run_id, spec.provider, spec.model, now);
    store.chunks.push(chunk.clone());
    store.jobs.push(job.clone());
    proof {
        if was.wf() && was.has_run_of(spec.run_id@, spec.session_id@) {
            lemma_chunk_and_job_keep_wf(was, store@, chunk, job);
        }
    }
    Ok((chunk, job))
}

proof fn lemma_chunk_and_job_keep_wf(
    was: Tables,
    now: Tables,
    chunk: AudioChunkRecord,
    job: TranscriptionJobRecord,
)
    requires
        was.wf(),
        now == (Tables { chunks: was.chunks.push(chunk), jobs: was.jobs.push(job), ..was }),
        was.has_session(chunk.session_id@),
        was.has_run_of(job.run_id@, chunk.session_id@),
        job.audio_chunk_id@ == chunk.id@,
        !was.has_chunk(chunk.id@),
        !sequence_taken(was.chunks, chunk.session_id@, chunk.source, chunk.sequence),
        !was.has_job(job.id@),
    ensures
        now.wf(),
{
    assert forall|i: int, j: int| 0 <= i < j < now.chunks.len() implies !same_number(
        #[trigger] now.chunks[i],
        #[trigger] now.chunks[j],
    ) by {
        assert(now.chunks[i] == was.chunks[i]);
        if j == was.chunks.len() && same_number(now.chunks[i], now.chunks[j]) {
            assert(is_from(was.chunks[i], chunk.session_id@, chunk.source));
        }
    }
    assert forall|id: Seq<char>| was.has_chunk(id) implies #[trigger] now.has_chunk(id) by {
        let i = choose|i: int| 0 <= i < was.chunks.len() && (#[trigger] was.chunks[i]).id@ == id;
        assert(now.chunks[i].id@ == id);
    }
    assert forall|id: Seq<char>| was.has_job(id) implies #[trigger] now.has_job(id) by {
        let i = choose|i: int| 0 <= i < was.jobs.len() && (#[trigger] was.jobs[i]).id@ == id;
        assert(now.jobs[i].id@ == id);
    }
    let n = was.chunks.len() as int;
    assert(now.chunks[n].id@ == chunk.id@);
    assert(now.has_chunk(chunk.id@));
    let q = choose|q: int|
        0 <= q < was.runs.len() && (#[trigger] was.runs[q]).id@ == job.run_id@
            && was.runs[q].session_id@ == chunk.session_id@;
    assert(was.has_run(job.run_id@));
    assert(now.chunks[n].session_id@ == now.runs[q].session_id@);
    assert(now.job_belongs(job));
    lemma_rows_still_belong(was, now);
    assert forall|i: int, j: int| 0 <= i < j < now.chunks.len() implies (
    #[trigger] now.chunks[i]).id@ != (#[trigger] now.chunks[j]).id@ by {
        assert(now.chunks[i] == was.chunks[i]);
    }
    assert forall|i: int, j: int| 0 <= i < j < now.jobs.len() implies (#[trigger] now.jobs[i]).id@
        != (#[trigger] now.jobs[j]).id@ by {
        assert(now.jobs[i] == was.jobs[i]);
    }
    assert forall|i: int| 0 <= i < now.runs.len() implies now.has_session(
        (#[trigger] now.runs[i]).session_id@,
    ) by {
        assert(was.has_session(was.runs[i].session_id@));
    }
    assert forall|i: int| 0 <= i < now.chunks.len() implies now.has_session(
        (#[trigger] now.chunks[i]).session_id@,
    ) by {
        if i < was.chunks.len() {
            assert(was.has_session(was.chunks[i].session_id@));
        }
        assert(was.has_session(now.chunks[i].session_id@));
    }
    assert forall|i: int| 0 <= i < now.jobs.len() implies now.has_chunk(
        (#[trigger] now.jobs[i]).audio_chunk_id@,
    ) && now.has_run(now.jobs[i].run_id@) by {
        if i < was.jobs.len() {
            assert(was.has_chunk(was.jobs[i].audio_chunk_id@));
            assert(was.has_run(was.jobs[i].run_id@));
        }
        assert(was.has_run(now.jobs[i].run_id@));
    }
    assert forall|i: int| 0 <= i < now.events.len() implies now.has_job(
        (#[trigger] now.events[i]).job_id@,
    ) && now.has_chunk(now.events[i].audio_chunk_id@) by {
        assert(was.has_job(was.events[i].job_id@));
        assert(was.has_chunk(was.events[i].audio_chunk_id@));
    }
}

pub fn get_chunk(store: &Store, id: &str) -> (r: Option<AudioChunkRecord>)
    ensures
        r == find_chunk(store.chunks@, id@),
{
    match store.chunk_index(id) {
        Some(i) => Some(store.chunks[i].clone()),
        None => None,
    }
}

/// Chunks stand by their start, then by the name of their source, then by number.
impl Ranked for AudioChunkRecord {
    open spec fn ranks_before(&self, other: &Self) -> bool {
        if self.started_at@ != other.started_at@ {
            text::text_le(self.started_at@, other.started_at@)
        } else if self.source != other.source {
            text::text_le(self.source.name(), other.source.name())
        } else {
            self.sequence <= other.sequence
        }
    }

    proof fn lemma_total(a: &Self, b: &Self) {
        text::lemma_text_le_total(a.started_at@, b.started_at@);
        text::lemma_text_le_total(a.source.name(), b.source.name());
    }

    proof fn lemma_transitive(a: &Self, b: &Self, c: &Self) {
        lemma_source_names_differ();
        text::lemma_text_le_total(a.started_at@, b.started_at@);
        text::lemma_text_le_total(b.started_at@, c.started_at@);
        text::lemma_text_le_total(a.started_at@, c.started_at@);
        text::lemma_text_le_total(a.source.name(), b.source.name());
        if text::text_le(a.started_at@, b.started_at@) && text::text_le(
            b.started_at@,
            c.started_at@,
        ) {
            text::lemma_text_le_transitive(a.started_at@, b.started_at@, c.started_at@);
        }
    }

    fn may_precede(&self, other: &Self) -> (r: bool) {
        if !text::same(self.started_at.as_str(), other.started_at.as_str()) {
            text::at_most(self.started_at.as_str(), other.started_at.as_str())
        } else if self.source != other.source {
            text::at_most(self.source.as_str(), other.source.as_str())
        } else {
            self.sequence <= other.sequence
        }
    }
}

/// `mic` stands before `system`.
pub proof fn lemma_source_names_differ()
    ensures
        AudioSource::Mic.name() != AudioSource::System.name(),
        text::text_le(AudioSource::Mic.name(), AudioSource::System.name()),
        !text::text_le(AudioSource::System.name(), AudioSource::Mic.name()),
{
    reveal_strlit("mic");
    reveal_strlit("system");
    assert("mic"@[0] == 'm' && "system"@[0] == 's');
}

pub open spec fn in_session(session_id: Seq<char>) -> spec_fn(AudioChunkRecord) -> bool {
    |c: AudioChunkRecord| c.session_id@ == session_id
}

pub open spec fn chunks_of(chunks: Seq<AudioChunkRecord>, session_id: Seq<char>) -> Seq<
    AudioChunkRecord,
> {
    chunks.filter(in_session(session_id))
}

/// The chunks of a session, in order of their start.
pub fn list_chunks_for_session(store: &Store, session_id: &str) -> (r: Vec<AudioChunkRecord>)
    ensures
        r@ == ranked(chunks_of(store.chunks@, session_id@)),
{
    let ghost p = in_session(session_id@);
    let mut found: Vec<AudioChunkRecord> = Vec::new();
    let mut i: usize = 0;
    assert(store.chunks@.take(0).filter(p) =~= Seq::empty()) by {
        reveal(Seq::filter);
    }
    while i < store.chunks.len()
        invariant
            i <= store.chunks@.len(),
            p == in_session(session_id@),
            found@ == store.chunks@.take(i as int).filter(p),
        decreases store.chunks.len() - i,
    {
        proof {
            assert(store.chunks@.take(i + 1).drop_last() =~= store.chunks@.take(i as int));
            reveal(Seq::filter);
        }
        if text::same(store.chunks[i].session_id.as_str(), session_id) {
            found.push(store.chunks[i].clone());
        }
        i += 1;
    }
    assert(store.chunks@.take(i as int) =~= store.chunks@);
    rank(found)
}

/// The last number of a source is one that a chunk of it has, and none has a higher one; it
/// is 0 where the source has no numbered chunk.
pub proof fn law_the_last_number_is_in_use(
    chunks: Seq<AudioChunkRecord>,
    session_id: Seq<char>,
    source: AudioSource,
)
    ensures
        forall|i: int|
            0 <= i < chunks.len() && (#[trigger] chunks[i]).session_id@ == session_id
                && chunks[i].source == source ==> chunks[i].sequence <= last_sequence(
                chunks,
                session_id,
                source,
            ),
        last_sequence(chunks, session_id, source) > 0 ==> exists|i: int|
            0 <= i < chunks.len() && (#[trigger] chunks[i]).session_id@ == session_id
                && chunks[i].source == source && chunks[i].sequence == last_sequence(
                chunks,
                session_id,
                source,
            ),
    decreases chunks.len(),
{
    if chunks.len() > 0 {
        let front = chunks.drop_last();
        law_the_last_number_is_in_use(front, session_id, source);
        let n = last_sequence(chunks, session_id, source);
        let before = last_sequence(front, session_id, source);
        assert forall|i: int|
            0 <= i < chunks.len() && (#[trigger] chunks[i]).session_id@ == session_id
                && chunks[i].source == source implies chunks[i].sequence <= n by {
            if i < chunks.len() - 1 {
                assert(front[i] == chunks[i]);
            }
        }
        if n > 0 {
            if n == before {
                let i = choose|i: int|
                    0 <= i < front.len() && (#[trigger] front[i]).session_id@ == session_id
                        && front[i].source == source && front[i].sequence == before;
                assert(chunks[i] == front[i]);
            } else {
                assert(chunks[chunks.len() - 1].sequence == n);
            }
        }
    }
}

/// A number is taken where a chunk of this session and source has it, and a path where a
/// chunk has it.
pub proof fn law_numbers_are_taken_by_source(
    chunks: Seq<AudioChunkRecord>,
    session_id: Seq<char>,
    source: AudioSource,
    sequence: u64,
    path: Seq<char>,
)
    ensures
        sequence_taken(chunks, session_id, source, sequence) <==> exists|i: int|
            0 <= i < chunks.len() && (#[trigger] chunks[i]).session_id@ == session_id
                && chunks[i].source == source && chunks[i].sequence == sequence,
        path_taken(chunks, path) <==> exists|i: int|
            0 <= i < chunks.len() && (#[trigger] chunks[i]).file_path@ == path,
{
    if exists|i: int|
        0 <= i < chunks.len() && (#[trigger] chunks[i]).session_id@ == session_id
            && chunks[i].source == source && chunks[i].sequence == sequence {
        let i = choose|i: int|
            0 <= i < chunks.len() && (#[trigger] chunks[i]).session_id@ == session_id
                && chunks[i].source == source && chunks[i].sequence == sequence;
        assert(is_from(chunks[i], session_id, source));
    }
}

/// The chunks of a session are listed by their start, then microphone before system, then
/// by number; all of them and no others.
pub proof fn law_chunks_are_listed_in_order(
    chunks: Seq<AudioChunkRecord>,
    session_id: Seq<char>,
    chunk: AudioChunkRecord,
    i: int,
    j: int,
)
    ensures
        ({
            let listed = ranked(chunks_of(chunks, session_id));
            &&& listed.contains(chunk) <==> chunks.contains(chunk) && chunk.session_id@
                == session_id
            &&& 0 <= i < j < listed.len() ==> {
                let a = listed[i];
                let b = listed[j];
                ||| a.started_at@ != b.started_at@ && text::text_le(a.started_at@, b.started_at@)
                ||| a.started_at@ == b.started_at@ && a.source == AudioSource::Mic && b.source
                    == AudioSource::System
                ||| a.started_at@ == b.started_at@ && a.source == b.source && a.sequence
                    <= b.sequence
            }
        }),
{
    let own = chunks_of(chunks, session_id);
    let listed = ranked(own);
    crate::sorting::law_ranking_keeps_all_values_in_order(own);
    own.to_multiset_ensures();
    listed.to_multiset_ensures();
    crate::storage::deletion::lemma_filter_keeps(chunks, in_session(session_id), chunk);
    assert(listed.contains(chunk) <==> listed.to_multiset().contains(chunk));
    assert(own.contains(chunk) <==> own.to_multiset().contains(chunk));
    if 0 <= i < j < listed.len() {
        assert(listed[i].ranks_before(&listed[j]));
        lemma_source_names_differ();
    }
}

/// A new chunk is stored as it was recorded.
pub proof fn law_a_new_chunk_is_what_was_recorded(
    chunk: AudioChunkRecord,
    new: NewAudioChunk<'_>,
    id: Seq<char>,
    now: String,
)
    requires
        is_new_chunk(chunk, new, id, now),
    ensures
        chunk.id@ == id,
        chunk.session_id@ == new.session_id@,
        chunk.source == new.source,
        chunk.sequence == new.sequence,
        chunk.started_at@ == rfc3339_millis(new.started_at.secs, new.started_at.nanos),
        chunk.ended_at@ == rfc3339_millis(new.ended_at.secs, new.ended_at.nanos),
        chunk.file_path@ == new.file_path@,
        chunk.duration_ms == new.duration_ms,
        chunk.created_at@ == now@,
{
}

/// A path is taken where a chunk lies there.
pub proof fn law_paths_are_taken_by_chunks(
    chunks: Seq<AudioChunkRecord>,
    chunk: AudioChunkRecord,
    path: Seq<char>,
)
    ensures
        path_taken(chunks.push(chunk), path) <==> path_taken(chunks, path) || chunk.file_path@
            == path,
        !path_taken(Seq::empty(), path),
{
    let more = chunks.push(chunk);
    assert(more[chunks.len() as int] == chunk);
    if path_taken(chunks, path) {
        let i = choose|i: int| 0 <= i < chunks.len() && (#[trigger] chunks[i]).file_path@ == path;
        assert(more[i] == chunks[i]);
    }
    if path_taken(more, path) && chunk.file_path@ != path {
        let i = choose|i: int| 0 <= i < more.len() && (#[trigger] more[i]).file_path@ == path;
        assert(more[i] == chunks[i]);
    }
}

} // verus!
