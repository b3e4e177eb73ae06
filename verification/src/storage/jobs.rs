//! Transcription jobs as a queue.

use crate::config::ProviderKind;
use crate::error::{fails, ErrorKind, Result};
use crate::sorting::{law_ranking_keeps_all_values_in_order, ranked};
use crate::storage::chunks::{chunks_of, in_session, list_chunks_for_session};
use crate::storage::sessions::{insert_run, is_new_run, not_found, session_not_found};
use crate::storage::types::{AudioChunkRecord, JobState, TranscriptionJobRecord};
use crate::storage::{find_job, id_taken, lemma_rows_still_belong, taken, Store, Tables};
use crate::text;
use vstd::prelude::*;

verus! {

/// How many jobs have the property.
pub open spec fn count_jobs(
    jobs: Seq<TranscriptionJobRecord>,
    p: spec_fn(TranscriptionJobRecord) -> bool,
) -> nat
    decreases jobs.len(),
{
    if jobs.len() == 0 {
        0
    } else {
        count_jobs(jobs.drop_last(), p) + if p(jobs.last()) {
            1nat
        } else {
            0nat
        }
    }
}

pub proof fn lemma_count_at_most(
    jobs: Seq<TranscriptionJobRecord>,
    p: spec_fn(TranscriptionJobRecord) -> bool,
)
    ensures
        count_jobs(jobs, p) <= jobs.len(),
    decreases jobs.len(),
{
    if jobs.len() > 0 {
        lemma_count_at_most(jobs.drop_last(), p);
    }
}

/// A job that was left in work and has no transcript waits again.
pub open spec fn reset(job: TranscriptionJobRecord, tables: Tables) -> TranscriptionJobRecord {
    if is_abandoned(job, tables) {
        TranscriptionJobRecord { state: JobState::Pending, started_at: None, ..job }
    } else {
        job
    }
}

pub open spec fn is_abandoned(job: TranscriptionJobRecord, tables: Tables) -> bool {
    job.state == JobState::Processing && !tables.job_has_event(job.id@)
}

/// Jobs that were left in work and have no transcript wait again. Returns how many.
pub fn reset_processing_without_event(store: &mut Store) -> (r: usize)
    ensures
        final(store)@ == (Tables {
            jobs: old(store)@.jobs.map_values(
                |j: TranscriptionJobRecord| reset(j, old(store)@),
            ),
            ..old(store)@
        }),
        r == count_jobs(
            old(store)@.jobs,
            |j: TranscriptionJobRecord| is_abandoned(j, old(store)@),
        ),
        old(store)@.wf() ==> final(store)@.wf(),
{
    let ghost was = store@;
    let ghost p = |j: TranscriptionJobRecord| is_abandoned(j, was);
    let mut changed: usize = 0;
    let mut i: usize = 0;
    while i < store.jobs.len()
        invariant
            i <= store.jobs@.len(),
            store.jobs@.len() == was.jobs.len(),
            store@ == (Tables { jobs: store@.jobs, ..was }),
            forall|k: int| 0 <= k < i ==> store.jobs@[k] == reset(#[trigger] was.jobs[k], was),
            forall|k: int| i <= k < was.jobs.len() ==> store.jobs@[k] == #[trigger] was.jobs[k],
            p == (|j: TranscriptionJobRecord| is_abandoned(j, was)),
            changed == count_jobs(was.jobs.take(i as int), p),
            changed <= i,
        decreases store.jobs.len() - i,
    {
        proof {
            assert(was.jobs.take(i + 1).drop_last() =~= was.jobs.take(i as int));
            assert(store@.job_has_event(was.jobs[i as int].id@) == was.job_has_event(
                was.jobs[i as int].id@,
            ));
        }
        if store.jobs[i].state == JobState::Processing && !store.has_event_for_job(
            store.jobs[i].id.as_str(),
        ) {
            let mut job = store.jobs[i].clone();
            job.state = JobState::Pending;
            job.started_at = None;
            store.jobs[i] = job;
            changed += 1;
        }
        i += 1;
    }
    assert(was.jobs.take(i as int) =~= was.jobs);
    proof {
        lemma_same_job_keys(was, store@);
    }
    changed
}

/// Changing what is not a key of the jobs keeps the tables well formed.
pub proof fn lemma_same_job_keys(before: Tables, after: Tables)
    requires
        after == (Tables { jobs: after.jobs, ..before }),
        after.jobs.len() == before.jobs.len(),
        forall|i: int|
            0 <= i < before.jobs.len() ==> (#[trigger] after.jobs[i]).id == before.jobs[i].id
                && after.jobs[i].audio_chunk_id == before.jobs[i].audio_chunk_id
                && after.jobs[i].run_id == before.jobs[i].run_id,
    ensures
        before.wf() ==> after.wf(),
{
    if before.wf() {
        lemma_rows_still_belong(before, after);
        assert forall|id: Seq<char>| before.has_job(id) implies #[trigger] after.has_job(id) by {
            let i = choose|i: int|
                0 <= i < before.jobs.len() && (#[trigger] before.jobs[i]).id@ == id;
            assert(after.jobs[i].id@ == id);
        }
        assert forall|i: int| 0 <= i < after.jobs.len() implies after.has_chunk(
            (#[trigger] after.jobs[i]).audio_chunk_id@,
        ) && after.has_run(after.jobs[i].run_id@) by {
            assert(before.has_chunk(before.jobs[i].audio_chunk_id@));
            assert(before.has_run(before.jobs[i].run_id@));
            let c = choose|c: int|
                0 <= c < before.chunks.len() && (#[trigger] before.chunks[c]).id@
                    == before.jobs[i].audio_chunk_id@;
            assert(after.chunks[c].id@ == after.jobs[i].audio_chunk_id@);
            let q = choose|q: int|
                0 <= q < before.runs.len() && (#[trigger] before.runs[q]).id@
                    == before.jobs[i].run_id@;
            assert(after.runs[q].id@ == after.jobs[i].run_id@);
        }
        assert forall|i: int| 0 <= i < after.runs.len() implies after.has_session(
            (#[trigger] after.runs[i]).session_id@,
        ) by {
            assert(before.has_session(before.runs[i].session_id@));
        }
        assert forall|i: int| 0 <= i < after.chunks.len() implies after.has_session(
            (#[trigger] after.chunks[i]).session_id@,
        ) by {
            assert(before.has_session(before.chunks[i].session_id@));
        }
        assert forall|i: int| 0 <= i < after.events.len() implies after.has_job(
            (#[trigger] after.events[i]).job_id@,
        ) && after.has_chunk(after.events[i].audio_chunk_id@) by {
            assert(before.has_job(before.events[i].job_id@));
            assert(before.has_chunk(before.events[i].audio_chunk_id@));
        }
    }
}

/// The first of two values that is there.
pub open spec fn coalesce(a: Option<String>, b: String) -> Option<String> {
    match a {
        Some(s) => Some(s),
        None => Some(b),
    }
}

pub fn coalesced(a: &Option<String>, b: &String) -> (r: Option<String>)
    ensures
        r == coalesce(*a, *b),
{
    match a {
        Some(s) => Some(s.clone()),
        None => Some(b.clone()),
    }
}

pub open spec fn is_done(job: TranscriptionJobRecord, tables: Tables) -> bool {
    job.state == JobState::Processing && tables.job_has_event(job.id@)
}

/// A job that was left in work and has its transcript is complete.
pub open spec fn finished(
    job: TranscriptionJobRecord,
    tables: Tables,
    now: String,
) -> TranscriptionJobRecord {
    if is_done(job, tables) {
        TranscriptionJobRecord {
            state: JobState::Completed,
            completed_at: coalesce(job.completed_at, now),
            ..job
        }
    } else {
        job
    }
}

/// Jobs that were left in work and have their transcript are complete. Returns how
/// many.
pub fn complete_jobs_that_already_have_events(store: &mut Store, now: &String) -> (r: usize)
    ensures
        final(store)@ == (Tables {
            jobs: old(store)@.jobs.map_values(
                |j: TranscriptionJobRecord| finished(j, old(store)@, *now),
            ),
            ..old(store)@
        }),
        r == count_jobs(
            old(store)@.jobs,
            |j: TranscriptionJobRecord| is_done(j, old(store)@),
        ),
        old(store)@.wf() ==> final(store)@.wf(),
{
    let ghost was = store@;
    let ghost p = |j: TranscriptionJobRecord| is_done(j, was);
    let mut changed: usize = 0;
    let mut i: usize = 0;
    while i < store.jobs.len()
        invariant
            i <= store.jobs@.len(),
            store.jobs@.len() == was.jobs.len(),
            store@ == (Tables { jobs: store@.jobs, ..was }),
            forall|k: int|
                0 <= k < i ==> store.jobs@[k] == finished(#[trigger] was.jobs[k], was, *now),
            forall|k: int| i <= k < was.jobs.len() ==> store.jobs@[k] == #[trigger] was.jobs[k],
            p == (|j: TranscriptionJobRecord| is_done(j, was)),
            changed == count_jobs(was.jobs.take(i as int), p),
            changed <= i,
        decreases store.jobs.len() - i,
    {
        proof {
            assert(was.jobs.take(i + 1).drop_last() =~= was.jobs.take(i as int));
            assert(store@.job_has_event(was.jobs[i as int].id@) == was.job_has_event(
                was.jobs[i as int].id@,
            ));
        }
        if store.jobs[i].state == JobState::Processing && store.has_event_for_job(
            store.jobs[i].id.as_str(),
        ) {
            let mut job = store.jobs[i].clone();
            job.state = JobState::Completed;
            job.completed_at = coalesced(&store.jobs[i].completed_at, now);
            store.jobs[i] = job;
            changed += 1;
        }
        i += 1;
    }
    assert(was.jobs.take(i as int) =~= was.jobs);
    proof {
        lemma_same_job_keys(was, store@);
    }
    changed
}

pub open spec fn is_pending(job: TranscriptionJobRecord) -> bool {
    job.state == JobState::Pending
}

/// A waiting job that is due at once, with another provider where one is given.
pub open spec fn hurried(
    job: TranscriptionJobRecord,
    provider: Option<(ProviderKind, String)>,
    now: String,
) -> TranscriptionJobRecord {
    if !is_pending(job) {
        job
    } else {
        match provider {
            Some((kind, model)) => TranscriptionJobRecord {
                provider: kind,
                model: Some(model),
                next_retry_at: Some(now),
                ..job
            },
            None => TranscriptionJobRecord { next_retry_at: Some(now), ..job },
        }
    }
}

/// Makes every waiting job due at once. Returns how many there are.
pub fn retry_pending(
    store: &mut Store,
    override_provider: Option<(ProviderKind, String)>,
    now: &String,
) -> (r: usize)
    ensures
        final(store)@ == (Tables {
            jobs: old(store)@.jobs.map_values(
                |j: TranscriptionJobRecord| hurried(j, override_provider, *now),
            ),
            ..old(store)@
        }),
        r == count_jobs(old(store)@.jobs, |j: TranscriptionJobRecord| is_pending(j)),
        old(store)@.wf() ==> final(store)@.wf(),
{
    let ghost was = store@;
    let ghost p = |j: TranscriptionJobRecord| is_pending(j);
    let mut changed: usize = 0;
    let mut i: usize = 0;
    while i < store.jobs.len()
        invariant
            i <= store.jobs@.len(),
            store.jobs@.len() == was.jobs.len(),
            store@ == (Tables { jobs: store@.jobs, ..was }),
            forall|k: int|
                0 <= k < i ==> store.jobs@[k] == hurried(
                    #[trigger] was.jobs[k],
                    override_provider,
                    *now,
                ),
            forall|k: int| i <= k < was.jobs.len() ==> store.jobs@[k] == #[trigger] was.jobs[k],
            p == (|j: TranscriptionJobRecord| is_pending(j)),
            changed == count_jobs(was.jobs.take(i as int), p),
            changed <= i,
        decreases store.jobs.len() - i,
    {
        proof {
            assert(was.jobs.take(i + 1).drop_last() =~= was.jobs.take(i as int));
        }
        if store.jobs[i].state == JobState::Pending {
            let mut job = store.jobs[i].clone();
            if let Some((kind, model)) = &override_provider {
                job.provider = *kind;
                job.model = Some(model.clone());
            }
            job.next_retry_at = Some(now.clone());
            store.jobs[i] = job;
            changed += 1;
        }
        i += 1;
    }
    assert(was.jobs.take(i as int) =~= was.jobs);
    proof {
        lemma_same_job_keys(was, store@);
    }
    changed
}

/// Whether the job transcribes a chunk of the session.
pub open spec fn belongs_to(
    job: TranscriptionJobRecord,
    chunks: Seq<AudioChunkRecord>,
    session_id: Seq<char>,
) -> bool {
    exists|c: int|
        0 <= c < chunks.len() && (#[trigger] chunks[c]).id@ == job.audio_chunk_id@
            && chunks[c].session_id@ == session_id
}

fn job_belongs_to(store: &Store, at: usize, session_id: &str) -> (r: bool)
    requires
        at < store.jobs@.len(),
    ensures
        r == belongs_to(store.jobs@[at as int], store.chunks@, session_id@),
{
    let mut c: usize = 0;
    while c < store.chunks.len()
        invariant
            at < store.jobs@.len(),
            c <= store.chunks@.len(),
            forall|k: int|
                0 <= k < c ==> !((#[trigger] store.chunks@[k]).id@
                    == store.jobs@[at as int].audio_chunk_id@ && store.chunks@[k].session_id@
                    == session_id@),
        decreases store.chunks.len() - c,
    {
        if text::same(store.chunks[c].id.as_str(), store.jobs[at].audio_chunk_id.as_str())
            && text::same(store.chunks[c].session_id.as_str(), session_id) {
            return true;
        }
        c += 1;
    }
    false
}

/// Makes the waiting jobs of a session due at once. Returns how many there are.
pub fn retry_session_pending(store: &mut Store, session_id: &str, now: &String) -> (r: usize)
    ensures
        final(store)@ == (Tables {
            jobs: old(store)@.jobs.map_values(
                |j: TranscriptionJobRecord|
                    if belongs_to(j, old(store)@.chunks, session_id@) {
                        hurried(j, None, *now)
                    } else {
                        j
                    },
            ),
            ..old(store)@
        }),
        r == count_jobs(
            old(store)@.jobs,
            |j: TranscriptionJobRecord|
                is_pending(j) && belongs_to(j, old(store)@.chunks, session_id@),
        ),
        old(store)@.wf() ==> final(store)@.wf(),
{
    let ghost was = store@;
    let ghost p = |j: TranscriptionJobRecord|
        is_pending(j) && belongs_to(j, was.chunks, session_id@);
    let mut changed: usize = 0;
    let mut i: usize = 0;
    while i < store.jobs.len()
        invariant
            i <= store.jobs@.len(),
            store.jobs@.len() == was.jobs.len(),
            store@ == (Tables { jobs: store@.jobs, ..was }),
            forall|k: int|
                0 <= k < i ==> store.jobs@[k] == if belongs_to(
                    #[trigger] was.jobs[k],
                    was.chunks,
                    session_id@,
                ) {
                    hurried(was.jobs[k], None, *now)
                } else {
                    was.jobs[k]
                },
            forall|k: int| i <= k < was.jobs.len() ==> store.jobs@[k] == #[trigger] was.jobs[k],
            p == (|j: TranscriptionJobRecord|
                is_pending(j) && belongs_to(j, was.chunks, session_id@)),
            changed == count_jobs(was.jobs.take(i as int), p),
            changed <= i,
        decreases store.jobs.len() - i,
    {
        proof {
            assert(was.jobs.take(i + 1).drop_last() =~= was.jobs.take(i as int));
        }
        if store.jobs[i].state == JobState::Pending && job_belongs_to(store, i, session_id) {
            let mut job = store.jobs[i].clone();
            job.next_retry_at = Some(now.clone());
            store.jobs[i] = job;
            changed += 1;
        }
        i += 1;
    }
    assert(was.jobs.take(i as int) =~= was.jobs);
    proof {
        lemma_same_job_keys(was, store@);
    }
    changed
}

/// Whether a job is of a session.
pub open spec fn of_session(
    chunks: Seq<AudioChunkRecord>,
    session_id: Seq<char>,
) -> spec_fn(TranscriptionJobRecord) -> bool {
    |j: TranscriptionJobRecord| belongs_to(j, chunks, session_id)
}

/// The jobs of a session, in the order in which they were written.
pub open spec fn jobs_of_session(tables: Tables, session_id: Seq<char>) -> Seq<
    TranscriptionJobRecord,
> {
    tables.jobs.filter(of_session(tables.chunks, session_id))
}

/// The jobs of a session, in the order in which they were written.
pub fn list_jobs_for_session(store: &Store, session_id: &str) -> (r: Vec<TranscriptionJobRecord>)
    ensures
        r@ == jobs_of_session(store@, session_id@),
{
    let ghost p = of_session(store.chunks@, session_id@);
    let mut r: Vec<TranscriptionJobRecord> = Vec::new();
    let mut i: usize = 0;
    assert(store.jobs@.take(0).filter(p) =~= Seq::empty()) by {
        reveal(Seq::filter);
    }
    while i < store.jobs.len()
        invariant
            i <= store.jobs@.len(),
            p == of_session(store.chunks@, session_id@),
            r@ == store.jobs@.take(i as int).filter(p),
        decreases store.jobs.len() - i,
    {
        proof {
            let now = store.jobs@.take(i + 1);
            assert(now.drop_last() =~= store.jobs@.take(i as int));
            reveal(Seq::filter);
        }
        if job_belongs_to(store, i, session_id) {
            r.push(store.jobs[i].clone());
        }
        i += 1;
    }
    assert(store.jobs@.take(i as int) =~= store.jobs@);
    r
}

pub fn count_by_state(store: &Store, state: JobState) -> (r: usize)
    ensures
        r == count_jobs(store.jobs@, |j: TranscriptionJobRecord| j.state == state),
{
    let ghost p = |j: TranscriptionJobRecord| j.state == state;
    let mut count: usize = 0;
    let mut i: usize = 0;
    while i < store.jobs.len()
        invariant
            i <= store.jobs@.len(),
            p == (|j: TranscriptionJobRecord| j.state == state),
            count == count_jobs(store.jobs@.take(i as int), p),
            count <= i,
        decreases store.jobs.len() - i,
    {
        proof {
            assert(store.jobs@.take(i + 1).drop_last() =~= store.jobs@.take(i as int));
        }
        if store.jobs[i].state == state {
            count += 1;
        }
        i += 1;
    }
    assert(store.jobs@.take(i as int) =~= store.jobs@);
    count
}

/// How many jobs wait, are in work and are complete.
pub fn counts(store: &Store) -> (r: (usize, usize, usize))
    ensures
        r.0 == count_jobs(store.jobs@, |j: TranscriptionJobRecord| j.state == JobState::Pending),
        r.1 == count_jobs(
            store.jobs@,
            |j: TranscriptionJobRecord| j.state == JobState::Processing,
        ),
        r.2 == count_jobs(store.jobs@, |j: TranscriptionJobRecord| j.state == JobState::Completed),
{
    (
        count_by_state(store, JobState::Pending),
        count_by_state(store, JobState::Processing),
        count_by_state(store, JobState::Completed),
    )
}

pub fn get_job(store: &Store, id: &str) -> (r: Option<TranscriptionJobRecord>)
    ensures
        r == find_job(store.jobs@, id@),
{
    match store.job_index(id) {
        Some(i) => Some(store.jobs[i].clone()),
        None => None,
    }
}

/// Every job waits, is in work or is complete.
pub proof fn law_job_counts_add_up(jobs: Seq<TranscriptionJobRecord>)
    ensures
        count_jobs(jobs, |j: TranscriptionJobRecord| j.state == JobState::Pending) + count_jobs(
            jobs,
            |j: TranscriptionJobRecord| j.state == JobState::Processing,
        ) + count_jobs(jobs, |j: TranscriptionJobRecord| j.state == JobState::Completed)
            == jobs.len(),
    decreases jobs.len(),
{
    if jobs.len() > 0 {
        law_job_counts_add_up(jobs.drop_last());
    }
}

/// After the two steps of a restart no job is in work: each waits again or has its
/// transcript and is complete, and no job that waited or was complete has changed.
pub proof fn law_restart_leaves_no_job_in_work(tables: Tables, now: String)
    ensures
        ({
            let done = Tables {
                jobs: tables.jobs.map_values(
                    |j: TranscriptionJobRecord| finished(j, tables, now),
                ),
                ..tables
            };
            let after = done.jobs.map_values(|j: TranscriptionJobRecord| reset(j, done));
            &&& after.len() == tables.jobs.len()
            &&& forall|i: int|
                #![trigger after[i]]
                0 <= i < after.len() ==> {
                    &&& after[i].state != JobState::Processing
                    &&& tables.jobs[i].state != JobState::Processing ==> after[i] == tables.jobs[i]
                    &&& tables.jobs[i].state == JobState::Processing ==> (after[i].state
                        == JobState::Completed <==> tables.job_has_event(tables.jobs[i].id@))
                }
        }),
{
    let done = Tables {
        jobs: tables.jobs.map_values(|j: TranscriptionJobRecord| finished(j, tables, now)),
        ..tables
    };
    let after = done.jobs.map_values(|j: TranscriptionJobRecord| reset(j, done));
    assert forall|i: int| #![trigger after[i]] 0 <= i < after.len() implies ({
        &&& after[i].state != JobState::Processing
        &&& tables.jobs[i].state != JobState::Processing ==> after[i] == tables.jobs[i]
        &&& tables.jobs[i].state == JobState::Processing ==> (after[i].state == JobState::Completed
            <==> tables.job_has_event(tables.jobs[i].id@))
    }) by {
        assert(after[i] == reset(done.jobs[i], done));
        assert(done.jobs[i] == finished(tables.jobs[i], tables, now));
        assert(done.job_has_event(done.jobs[i].id@) == tables.job_has_event(tables.jobs[i].id@));
    }
}

/// A new job: it waits and is due at once.
pub open spec fn is_new_job(
    job: TranscriptionJobRecord,
    id: Seq<char>,
    chunk_id: Seq<char>,
    run_id: Seq<char>,
    provider: ProviderKind,
    model: Seq<char>,
    now: String,
) -> bool {
    &&& job.id@ == id
    &&& job.audio_chunk_id@ == chunk_id
    &&& job.run_id@ == run_id
    &&& job.provider == provider
    &&& job.model matches Some(m) && m@ == model
    &&& job.state == JobState::Pending
    &&& job.attempt_count == 0
    &&& job.last_error is None
    &&& job.next_retry_at == Some(now)
    &&& job.created_at == now
    &&& job.started_at is None
    &&& job.completed_at is None
}

pub fn new_job(
    id: &str,
    chunk_id: &str,
    run_id: &str,
    provider: ProviderKind,
    model: &str,
    now: &String,
) -> (r: TranscriptionJobRecord)
    ensures
        is_new_job(r, id@, chunk_id@, run_id@, provider, model@, *now),
{
    TranscriptionJobRecord {
        id: id.to_owned(),
        audio_chunk_id: chunk_id.to_owned(),
        run_id: run_id.to_owned(),
        provider,
        model: Some(model.to_owned()),
        state: JobState::Pending,
        attempt_count: 0,
        last_error: None,
        next_retry_at: Some(now.clone()),
        created_at: now.clone(),
        started_at: None,
        completed_at: None,
    }
}

/// Whether `jobs` are those of a new run: one for each chunk, in the order of the
/// chunks.
pub open spec fn are_run_jobs(
    jobs: Seq<TranscriptionJobRecord>,
    chunks: Seq<AudioChunkRecord>,
    job_ids: Seq<String>,
    run_id: Seq<char>,
    provider: ProviderKind,
    model: Seq<char>,
    now: String,
) -> bool {
    &&& jobs.len() == chunks.len()
    &&& forall|i: int|
        #![trigger jobs[i]]
        0 <= i < jobs.len() ==> is_new_job(
            jobs[i],
            job_ids[i]@,
            chunks[i].id@,
            run_id,
            provider,
            model,
            now,
        )
}

/// Whether the identifiers are new to the tables and differ from each other.
pub open spec fn are_fresh(tables: Tables, job_ids: Seq<String>) -> bool {
    &&& forall|i: int| 0 <= i < job_ids.len() ==> !tables.has_job((#[trigger] job_ids[i])@)
    &&& forall|i: int, j: int|
        0 <= i < j < job_ids.len() ==> (#[trigger] job_ids[i])@ != (#[trigger] job_ids[j])@
}

/// Whether the first `count` identifiers are new to the tables and differ.
fn first_are_fresh(store: &Store, job_ids: &Vec<String>, count: usize) -> (r: bool)
    requires
        count <= job_ids@.len(),
    ensures
        r == are_fresh(store@, job_ids@.take(count as int)),
{
    let ghost ids = job_ids@.take(count as int);
    let mut i: usize = 0;
    while i < count
        invariant
            i <= count <= job_ids@.len(),
            ids == job_ids@.take(count as int),
            forall|k: int| 0 <= k < i ==> !store@.has_job((#[trigger] ids[k])@),
            forall|k: int, l: int|
                0 <= k < l < count && k < i ==> (#[trigger] ids[k])@ != (#[trigger] ids[l])@,
        decreases count - i,
    {
        if store.job_index(job_ids[i].as_str()).is_some() {
            assert(store@.has_job(ids[i as int]@));
            return false;
        }
        let mut j: usize = i + 1;
        while j < count
            invariant
                i < j <= count <= job_ids@.len(),
                ids == job_ids@.take(count as int),
                forall|l: int| i < l < j ==> ids[i as int]@ != (#[trigger] ids[l])@,
            decreases count - j,
        {
            if text::same(job_ids[i].as_str(), job_ids[j].as_str()) {
                assert(ids[i as int]@ == ids[j as int]@);
                return false;
            }
            j += 1;
        }
        i += 1;
    }
    true
}

/// Starts a new run of a session: every chunk gets a new job. Returns the run and how
/// many jobs there are.
pub fn queue_retranscribe(
    store: &mut Store,
    session_id: &str,
    provider: ProviderKind,
    model: &str,
    run_id: &str,
    job_ids: &Vec<String>,
    now: &String,
) -> (r: Result<(String, usize)>)
    requires
        job_ids@.len() >= chunks_of(old(store)@.chunks, session_id@).len(),
    ensures
        if !old(store)@.has_session(session_id@) {
            fails(r, ErrorKind::Other, session_not_found(session_id@)) && final(store)@ == old(
                store,
            )@
        } else if old(store)@.has_run(run_id@) {
            fails(r, ErrorKind::Database, taken("transcription_runs.id"@)) && final(store)@ == old(
                store,
            )@
        } else if !are_fresh(
            old(store)@,
            job_ids@.take(chunks_of(old(store)@.chunks, session_id@).len() as int),
        ) {
            fails(r, ErrorKind::Database, taken("transcription_jobs.id"@)) && final(store)@ == old(
                store,
            )@
        } else {
            let chunks = ranked(chunks_of(old(store)@.chunks, session_id@));
            let was = old(store)@;
            let is = final(store)@;
            &&& r matches Ok((id, count)) && id@ == run_id@ && count == chunks.len()
            &&& is.runs.len() == was.runs.len() + 1
            &&& is.runs.drop_last() == was.runs
            &&& is_new_run(is.runs.last(), run_id@, session_id@, provider, model@, *now)
            &&& is.jobs.len() == was.jobs.len() + chunks.len()
            &&& is.jobs.take(was.jobs.len() as int) == was.jobs
            &&& are_run_jobs(
                is.jobs.skip(was.jobs.len() as int),
                chunks,
                job_ids@,
                run_id@,
                provider,
                model@,
                *now,
            )
            &&& is == (Tables { runs: is.runs, jobs: is.jobs, ..was })
        },
        old(store)@.wf() ==> final(store)@.wf(),
{
    let ghost was = store@;
    if store.session_index(session_id).is_none() {
        return Err(not_found(session_id));
    }
    let chunks = list_chunks_for_session(store, session_id);
    proof {
        law_ranking_keeps_all_values_in_order(chunks_of(was.chunks, session_id@));
    }
    if store.has_run_row(run_id) {
        return Err(id_taken("transcription_runs.id"));
    }
    if !first_are_fresh(store, job_ids, chunks.len()) {
        return Err(id_taken("transcription_jobs.id"));
    }
    let run = match insert_run(store, session_id, provider, model, run_id, now) {
        Ok(run) => run,
        Err(e) => return Err(e),
    };
    let ghost begun = store@;
    let mut i: usize = 0;
    while i < chunks.len()
        invariant
            i <= chunks@.len(),
            chunks@.len() <= job_ids@.len(),
            store@ == (Tables { jobs: store@.jobs, ..begun }),
            begun.jobs == was.jobs,
            store@.jobs.len() == was.jobs.len() + i,
            store@.jobs.take(was.jobs.len() as int) == was.jobs,
            are_run_jobs(
                store@.jobs.skip(was.jobs.len() as int),
                chunks@.take(i as int),
                job_ids@,
                run_id@,
                provider,
                model@,
                *now,
            ),
        decreases chunks.len() - i,
    {
        let ghost before = store@.jobs;
        let job = new_job(
            job_ids[i].as_str(),
            chunks[i].id.as_str(),
            run_id,
            provider,
            model,
            now,
        );
        store.jobs.push(job);
        i += 1;
        proof {
            let n = was.jobs.len() as int;
            assert(store@.jobs.take(n) =~= before.take(n));
            assert(store@.jobs.skip(n) =~= before.skip(n).push(job));
            let fresh = store@.jobs.skip(n);
            assert forall|k: int|
                #![trigger fresh[k]]
                0 <= k < fresh.len() implies is_new_job(
                fresh[k],
                job_ids@[k]@,
                chunks@.take(i as int)[k].id@,
                run_id@,
                provider,
                model@,
                *now,
            ) by {
                if k < i - 1 {
                    assert(fresh[k] == before.skip(n)[k]);
                    assert(chunks@.take(i - 1)[k] == chunks@.take(i as int)[k]);
                }
            }
        }
    }
    assert(chunks@.take(i as int) =~= chunks@);
    proof {
        if was.wf() {
            let used = job_ids@.take(chunks@.len() as int);
            let n = was.jobs.len() as int;
            assert forall|k: int| #![trigger store@.jobs[k]] n <= k < store@.jobs.len() implies
                store@.jobs[k].id@ == used[k - n]@ && store@.jobs[k].audio_chunk_id@
                == chunks@[k - n].id@ && store@.jobs[k].run_id@ == run_id@ by {
                assert(store@.jobs.skip(n)[k - n] == store@.jobs[k]);
            }
            assert(begun.runs[was.runs.len() as int].id@ == run_id@);
            lemma_run_jobs_keep_wf(was, begun, store@, session_id@, chunks@, used, run_id@);
        }
    }
    Ok((run.id, chunks.len()))
}

proof fn lemma_run_jobs_keep_wf(
    was: Tables,
    begun: Tables,
    is: Tables,
    session_id: Seq<char>,
    chunks: Seq<AudioChunkRecord>,
    job_ids: Seq<String>,
    run_id: Seq<char>,
)
    requires
        begun.wf(),
        begun.has_run_of(run_id, session_id),
        begun.jobs == was.jobs,
        begun.chunks == was.chunks,
        chunks == ranked(chunks_of(was.chunks, session_id)),
        chunks.len() <= job_ids.len(),
        are_fresh(was, job_ids),
        is == (Tables { jobs: is.jobs, ..begun }),
        is.jobs.len() == was.jobs.len() + chunks.len(),
        is.jobs.take(was.jobs.len() as int) == was.jobs,
        forall|i: int|
            #![trigger is.jobs[i]]
            was.jobs.len() <= i < is.jobs.len() ==> is.jobs[i].id@ == job_ids[i - was.jobs.len()]@
                && is.jobs[i].audio_chunk_id@ == chunks[i - was.jobs.len()].id@
                && is.jobs[i].run_id@ == run_id,
    ensures
        is.wf(),
{
    let n = was.jobs.len() as int;
    assert forall|i: int| 0 <= i < n implies #[trigger] is.jobs[i] == was.jobs[i] by {
        assert(is.jobs.take(n)[i] == is.jobs[i]);
    }
    assert forall|i: int, j: int| 0 <= i < j < is.jobs.len() implies (#[trigger] is.jobs[i]).id@
        != (#[trigger] is.jobs[j]).id@ by {
        if j < n {
            assert(was.jobs[i].id@ != was.jobs[j].id@);
        } else if i < n {
            assert(was.jobs[i].id@ == is.jobs[i].id@);
            assert(!was.has_job(job_ids[j - n]@));
        } else {
            assert(job_ids[i - n]@ != job_ids[j - n]@);
        }
    }
    assert forall|i: int| 0 <= i < is.jobs.len() implies is.has_chunk(
        (#[trigger] is.jobs[i]).audio_chunk_id@,
    ) && is.has_run(is.jobs[i].run_id@) && (i >= n ==> is.job_belongs(is.jobs[i])) by {
        if i < n {
            assert(begun.has_chunk(begun.jobs[i].audio_chunk_id@));
            assert(begun.has_run(begun.jobs[i].run_id@));
            lemma_same_rows(begun, is, begun.jobs[i].audio_chunk_id@, begun.jobs[i].run_id@);
        } else {
            let c = chunks[i - n];
            let all = chunks_of(was.chunks, session_id);
            law_ranking_keeps_all_values_in_order(all);
            vstd::seq_lib::to_multiset_contains(chunks, c);
            vstd::seq_lib::to_multiset_contains(all, c);
            assert(all.contains(c));
            was.chunks.lemma_filter_contains_rev(in_session(session_id), c);
            let q = choose|q: int| 0 <= q < was.chunks.len() && was.chunks[q] == c;
            assert(begun.chunks[q].id@ == c.id@);
            assert(begun.has_chunk(c.id@));
            let w = choose|w: int|
                0 <= w < begun.runs.len() && (#[trigger] begun.runs[w]).id@ == run_id
                    && begun.runs[w].session_id@ == session_id;
            assert(begun.runs[w].id@ == run_id);
            lemma_same_rows(begun, is, c.id@, run_id);
            assert(is.chunks[q].session_id@ == is.runs[w].session_id@);
            assert(is.job_belongs(is.jobs[i]));
        }
    }
    lemma_rows_still_belong(begun, is);
    assert forall|id: Seq<char>| begun.has_job(id) implies #[trigger] is.has_job(id) by {
        let i = choose|i: int| 0 <= i < begun.jobs.len() && (#[trigger] begun.jobs[i]).id@ == id;
        assert(is.jobs[i].id@ == id);
    }
    assert forall|i: int| 0 <= i < is.runs.len() implies is.has_session(
        (#[trigger] is.runs[i]).session_id@,
    ) by {
        assert(begun.has_session(begun.runs[i].session_id@));
    }
    assert forall|i: int| 0 <= i < is.chunks.len() implies is.has_session(
        (#[trigger] is.chunks[i]).session_id@,
    ) by {
        assert(begun.has_session(begun.chunks[i].session_id@));
    }
    assert forall|i: int| 0 <= i < is.events.len() implies is.has_job(
        (#[trigger] is.events[i]).job_id@,
    ) && is.has_chunk(is.events[i].audio_chunk_id@) by {
        assert(begun.has_job(begun.events[i].job_id@));
        assert(begun.has_chunk(begun.events[i].audio_chunk_id@));
    }
}

proof fn lemma_same_rows(a: Tables, b: Tables, chunk_id: Seq<char>, run_id: Seq<char>)
    requires
        a.chunks == b.chunks,
        a.runs == b.runs,
        a.has_chunk(chunk_id),
        a.has_run(run_id),
    ensures
        b.has_chunk(chunk_id),
        b.has_run(run_id),
{
}

/// Jobs with a property are counted one by one.
pub proof fn law_jobs_are_counted(
    jobs: Seq<TranscriptionJobRecord>,
    p: spec_fn(TranscriptionJobRecord) -> bool,
)
    ensures
        count_jobs(jobs, p) == jobs.filter(p).len(),
    decreases jobs.len(),
{
    reveal(Seq::filter);
    if jobs.len() > 0 {
        law_jobs_are_counted(jobs.drop_last(), p);
    }
}

/// A start puts jobs that were in work right: with a transcript they are complete, without
/// one they wait again, with their attempts, error and time as they were. Other jobs stay.
pub proof fn law_a_start_puts_jobs_right(job: TranscriptionJobRecord, tables: Tables, now: String)
    ensures
        ({
            let has_transcript = exists|i: int|
                0 <= i < tables.events.len() && (#[trigger] tables.events[i]).job_id@ == job.id@;
            let in_work = job.state == JobState::Processing;
            &&& in_work && !has_transcript ==> reset(job, tables) == (TranscriptionJobRecord {
                state: JobState::Pending,
                started_at: None,
                ..job
            })
            &&& !in_work || has_transcript ==> reset(job, tables) == job
            &&& in_work && has_transcript ==> finished(job, tables, now) == (
            TranscriptionJobRecord {
                state: JobState::Completed,
                completed_at: if job.completed_at is Some {
                    job.completed_at
                } else {
                    Some(now)
                },
                ..job
            })
            &&& !in_work || !has_transcript ==> finished(job, tables, now) == job
        }),
{
}

/// A retry makes waiting jobs due now, with another provider and model where these are
/// given; jobs that do not wait stay as they are.
pub proof fn law_a_retry_makes_waiting_jobs_due(
    job: TranscriptionJobRecord,
    provider: Option<(ProviderKind, String)>,
    now: String,
)
    ensures
        ({
            let next = hurried(job, provider, now);
            &&& job.state != JobState::Pending ==> next == job
            &&& job.state == JobState::Pending ==> {
                &&& next.next_retry_at == Some(now)
                &&& match provider {
                    Some((kind, model)) => next.provider == kind && next.model == Some(model),
                    None => next.provider == job.provider && next.model == job.model,
                }
                &&& next == (TranscriptionJobRecord {
                    next_retry_at: next.next_retry_at,
                    provider: next.provider,
                    model: next.model,
                    ..job
                })
            }
        }),
{
}

/// The jobs of a session are those that transcribe one of its chunks, in their order.
pub proof fn law_jobs_belong_by_their_chunks(
    tables: Tables,
    session_id: Seq<char>,
    job: TranscriptionJobRecord,
)
    ensures
        jobs_of_session(tables, session_id).contains(job) <==> tables.jobs.contains(job)
            && exists|c: int|
            0 <= c < tables.chunks.len() && (#[trigger] tables.chunks[c]).id@
                == job.audio_chunk_id@ && tables.chunks[c].session_id@ == session_id,
{
    crate::storage::deletion::lemma_filter_keeps(
        tables.jobs,
        of_session(tables.chunks, session_id),
        job,
    );
}

/// A new job waits, is due at once and has not been tried.
pub proof fn law_a_new_job_is_due_at_once(
    job: TranscriptionJobRecord,
    id: Seq<char>,
    chunk_id: Seq<char>,
    run_id: Seq<char>,
    provider: ProviderKind,
    model: Seq<char>,
    now: String,
)
    requires
        is_new_job(job, id, chunk_id, run_id, provider, model, now),
    ensures
        job.id@ == id,
        job.audio_chunk_id@ == chunk_id,
        job.run_id@ == run_id,
        job.provider == provider,
        job.model matches Some(m) && m@ == model,
        job.state == JobState::Pending,
        job.attempt_count == 0,
        job.last_error is None,
        job.completed_at is None,
        crate::storage::events::is_due(job, now@),
{
    crate::text::lemma_text_le_total(now@, now@);
}

/// A new run of a session has one new job for each of its chunks.
pub proof fn law_a_new_run_covers_every_chunk(
    jobs: Seq<TranscriptionJobRecord>,
    chunks: Seq<AudioChunkRecord>,
    job_ids: Seq<String>,
    run_id: Seq<char>,
    provider: ProviderKind,
    model: Seq<char>,
    now: String,
    i: int,
)
    requires
        are_run_jobs(jobs, chunks, job_ids, run_id, provider, model, now),
        0 <= i < chunks.len(),
    ensures
        jobs.len() == chunks.len(),
        jobs[i].audio_chunk_id@ == chunks[i].id@,
        jobs[i].run_id@ == run_id,
        jobs[i].provider == provider,
        jobs[i].model matches Some(m) && m@ == model,
        jobs[i].state == JobState::Pending,
        jobs[i].id@ == job_ids[i]@,
{
}

} // verus!
