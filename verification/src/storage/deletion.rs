//! Forgetting a session.

use crate::error::{fails, ErrorKind, Result};
use crate::storage::events::TranscriptEventRecord;
use crate::storage::jobs::belongs_to;
use crate::storage::types::{
    AudioChunkRecord, SessionRecord, TranscriptionJobRecord, TranscriptionRunRecord,
};
use crate::storage::{missing_reference, no_reference, same_number, Store, Tables};
use crate::text;
use vstd::prelude::*;

verus! {

/// Transcripts of other sessions.
pub open spec fn other_events(id: Seq<char>) -> spec_fn(TranscriptEventRecord) -> bool {
    |e: TranscriptEventRecord| e.session_id@ != id
}

/// Jobs that transcribe no chunk of the session.
pub open spec fn other_jobs(chunks: Seq<AudioChunkRecord>, id: Seq<char>) -> spec_fn(
    TranscriptionJobRecord,
) -> bool {
    |j: TranscriptionJobRecord| !belongs_to(j, chunks, id)
}

/// Chunks of other sessions.
pub open spec fn other_chunks(id: Seq<char>) -> spec_fn(AudioChunkRecord) -> bool {
    |c: AudioChunkRecord| c.session_id@ != id
}

/// Runs of other sessions.
pub open spec fn other_runs(id: Seq<char>) -> spec_fn(TranscriptionRunRecord) -> bool {
    |r: TranscriptionRunRecord| r.session_id@ != id
}

/// Other sessions.
pub open spec fn other_sessions(id: Seq<char>) -> spec_fn(SessionRecord) -> bool {
    |s: SessionRecord| s.id@ != id
}

/// Says which values are kept.
trait Keeper<T> {
    spec fn keeps(&self) -> spec_fn(T) -> bool;

    fn wants(&self, x: &T) -> (r: bool)
        ensures
            r == self.keeps()(*x),
    ;
}

/// Keeps what is not of this session.
struct NotOf<'a> {
    id: &'a str,
}

impl<'a> Keeper<TranscriptEventRecord> for NotOf<'a> {
    spec fn keeps(&self) -> spec_fn(TranscriptEventRecord) -> bool {
        other_events(self.id@)
    }

    fn wants(&self, x: &TranscriptEventRecord) -> (r: bool) {
        !text::same(x.session_id.as_str(), self.id)
    }
}

impl<'a> Keeper<AudioChunkRecord> for NotOf<'a> {
    spec fn keeps(&self) -> spec_fn(AudioChunkRecord) -> bool {
        other_chunks(self.id@)
    }

    fn wants(&self, x: &AudioChunkRecord) -> (r: bool) {
        !text::same(x.session_id.as_str(), self.id)
    }
}

impl<'a> Keeper<TranscriptionRunRecord> for NotOf<'a> {
    spec fn keeps(&self) -> spec_fn(TranscriptionRunRecord) -> bool {
        other_runs(self.id@)
    }

    fn wants(&self, x: &TranscriptionRunRecord) -> (r: bool) {
        !text::same(x.session_id.as_str(), self.id)
    }
}

impl<'a> Keeper<SessionRecord> for NotOf<'a> {
    spec fn keeps(&self) -> spec_fn(SessionRecord) -> bool {
        other_sessions(self.id@)
    }

    fn wants(&self, x: &SessionRecord) -> (r: bool) {
        !text::same(x.id.as_str(), self.id)
    }
}

/// Keeps the jobs that transcribe no chunk of this session.
struct JobNotOf<'a> {
    chunks: &'a Vec<AudioChunkRecord>,
    id: &'a str,
}

impl<'a> Keeper<TranscriptionJobRecord> for JobNotOf<'a> {
    spec fn keeps(&self) -> spec_fn(TranscriptionJobRecord) -> bool {
        other_jobs(self.chunks@, self.id@)
    }

    fn wants(&self, x: &TranscriptionJobRecord) -> (r: bool) {
        !job_is_of(self.chunks, x, self.id)
    }
}

proof fn lemma_keep_one<A>(x: A, p: spec_fn(A) -> bool)
    ensures
        seq![x].filter(p) == if p(x) {
            seq![x]
        } else {
            Seq::<A>::empty()
        },
{
    reveal(Seq::filter);
    let one = seq![x];
    assert(one.drop_last() =~= Seq::<A>::empty());
    assert(one.drop_last().filter(p) =~= Seq::<A>::empty());
    assert(Seq::<A>::empty().push(x) =~= one);
}

/// The values that are kept, in their order.
fn kept<T, K: Keeper<T>>(v: Vec<T>, keeper: &K) -> (r: Vec<T>)
    ensures
        r@ == v@.filter(keeper.keeps()),
{
    let ghost p = keeper.keeps();
    let ghost all = v@;
    let mut rest = v;
    let mut back: Vec<T> = Vec::new();
    proof {
        assert(all.skip(all.len() as int).filter(p) =~= Seq::empty()) by {
            reveal(Seq::filter);
        }
        assert(back@.reverse() =~= Seq::empty());
        assert(rest@ =~= all.take(all.len() as int));
    }
    while rest.len() > 0
        invariant
            rest@.len() <= all.len(),
            rest@ == all.take(rest@.len() as int),
            back@.reverse() == all.skip(rest@.len() as int).filter(p),
            p == keeper.keeps(),
        decreases rest@.len(),
    {
        let ghost n = rest@.len() as int;
        let ghost before = back@;
        match rest.pop() {
            Some(x) => {
                proof {
                    assert(rest@ =~= all.take(n - 1));
                    assert(x == all[n - 1]);
                    assert(all.skip(n - 1) =~= seq![x] + all.skip(n));
                    Seq::filter_distributes_over_add(seq![x], all.skip(n), p);
                    lemma_keep_one(x, p);
                }
                let wanted = keeper.wants(&x);
                if wanted {
                    back.push(x);
                    assert(back@.reverse() =~= seq![x] + before.reverse());
                } else {
                    assert(Seq::empty() + before.reverse() =~= before.reverse());
                }
            },
            None => {},
        }
    }
    assert(all.skip(0) =~= all);
    let ghost found = back@;
    let mut r: Vec<T> = Vec::new();
    assert(found.reverse().take(0) =~= r@);
    while back.len() > 0
        invariant
            back@.len() <= found.len(),
            back@ == found.take(back@.len() as int),
            r@ == found.reverse().take(found.len() - back@.len()),
        decreases back@.len(),
    {
        let ghost n = back@.len() as int;
        match back.pop() {
            Some(x) => {
                r.push(x);
                proof {
                    assert(back@ =~= found.take(n - 1));
                    assert(found.reverse()[found.len() - n] == x);
                    assert(r@ =~= found.reverse().take(found.len() - (n - 1)));
                }
            },
            None => {},
        }
    }
    assert(found.reverse().take(found.len() as int) =~= found.reverse());
    r
}

/// The tables without a session and all that belongs to it.
pub open spec fn without_session(tables: Tables, id: Seq<char>) -> Tables {
    Tables {
        events: tables.events.filter(other_events(id)),
        jobs: tables.jobs.filter(
            other_jobs(tables.chunks, id),
        ),
        chunks: tables.chunks.filter(other_chunks(id)),
        runs: tables.runs.filter(other_runs(id)),
        sessions: tables.sessions.filter(other_sessions(id)),
    }
}

fn job_is_of(chunks: &Vec<AudioChunkRecord>, job: &TranscriptionJobRecord, id: &str) -> (r: bool)
    ensures
        r == belongs_to(*job, chunks@, id@),
{
    let mut c: usize = 0;
    while c < chunks.len()
        invariant
            c <= chunks@.len(),
            forall|k: int|
                0 <= k < c ==> !((#[trigger] chunks@[k]).id@ == job.audio_chunk_id@
                    && chunks@[k].session_id@ == id@),
        decreases chunks.len() - c,
    {
        if text::same(chunks[c].id.as_str(), job.audio_chunk_id.as_str()) && text::same(
            chunks[c].session_id.as_str(),
            id,
        ) {
            return true;
        }
        c += 1;
    }
    false
}

/// Whether a job that stays is of a run of the session.
pub open spec fn needs_run_of(tables: Tables, job: TranscriptionJobRecord, id: Seq<char>) -> bool {
    !belongs_to(job, tables.chunks, id) && tables.has_run_of(job.run_id@, id)
}

/// Whether a transcript that stays is of a job or a chunk of the session.
pub open spec fn needs_rows_of(
    tables: Tables,
    event: TranscriptEventRecord,
    id: Seq<char>,
) -> bool {
    event.session_id@ != id && ((exists|c: int|
        0 <= c < tables.chunks.len() && (#[trigger] tables.chunks[c]).id@ == event.audio_chunk_id@
            && tables.chunks[c].session_id@ == id) || (exists|j: int|
        0 <= j < tables.jobs.len() && (#[trigger] tables.jobs[j]).id@ == event.job_id@
            && belongs_to(tables.jobs[j], tables.chunks, id)))
}

/// Whether something that stays refers to the session.
pub open spec fn is_needed(tables: Tables, id: Seq<char>) -> bool {
    ||| exists|i: int| 0 <= i < tables.jobs.len() && needs_run_of(tables, #[trigger] tables.jobs[i], id)
    ||| exists|i: int|
        0 <= i < tables.events.len() && needs_rows_of(tables, #[trigger] tables.events[i], id)
}

fn run_is_of(runs: &Vec<TranscriptionRunRecord>, run_id: &str, id: &str) -> (r: bool)
    ensures
        r == exists|i: int|
            0 <= i < runs@.len() && (#[trigger] runs@[i]).id@ == run_id@ && runs@[i].session_id@
                == id@,
{
    let mut i: usize = 0;
    while i < runs.len()
        invariant
            i <= runs@.len(),
            forall|k: int|
                0 <= k < i ==> !((#[trigger] runs@[k]).id@ == run_id@ && runs@[k].session_id@
                    == id@),
        decreases runs.len() - i,
    {
        if text::same(runs[i].id.as_str(), run_id) && text::same(runs[i].session_id.as_str(), id) {
            return true;
        }
        i += 1;
    }
    false
}

fn event_needs(store: &Store, event: &TranscriptEventRecord, id: &str) -> (r: bool)
    ensures
        r == needs_rows_of(store@, *event, id@),
{
    if text::same(event.session_id.as_str(), id) {
        return false;
    }
    let mut c: usize = 0;
    while c < store.chunks.len()
        invariant
            c <= store.chunks@.len(),
            event.session_id@ != id@,
            forall|k: int|
                0 <= k < c ==> !((#[trigger] store@.chunks[k]).id@ == event.audio_chunk_id@
                    && store@.chunks[k].session_id@ == id@),
        decreases store.chunks.len() - c,
    {
        if text::same(store.chunks[c].id.as_str(), event.audio_chunk_id.as_str()) && text::same(
            store.chunks[c].session_id.as_str(),
            id,
        ) {
            assert(store@.chunks[c as int].session_id@ == id@);
            return true;
        }
        c += 1;
    }
    let mut j: usize = 0;
    while j < store.jobs.len()
        invariant
            j <= store.jobs@.len(),
            event.session_id@ != id@,
            forall|k: int|
                0 <= k < j ==> !((#[trigger] store@.jobs[k]).id@ == event.job_id@ && belongs_to(
                    store@.jobs[k],
                    store@.chunks,
                    id@,
                )),
        decreases store.jobs.len() - j,
    {
        if text::same(store.jobs[j].id.as_str(), event.job_id.as_str()) && job_is_of(
            &store.chunks,
            &store.jobs[j],
            id,
        ) {
            assert(store@.jobs[j as int].id@ == event.job_id@);
            return true;
        }
        j += 1;
    }
    false
}

fn is_still_needed(store: &Store, id: &str) -> (r: bool)
    ensures
        r == is_needed(store@, id@),
{
    let mut j: usize = 0;
    while j < store.jobs.len()
        invariant
            j <= store.jobs@.len(),
            forall|k: int| 0 <= k < j ==> !needs_run_of(store@, #[trigger] store@.jobs[k], id@),
        decreases store.jobs.len() - j,
    {
        if !job_is_of(&store.chunks, &store.jobs[j], id) && run_is_of(
            &store.runs,
            store.jobs[j].run_id.as_str(),
            id,
        ) {
            assert(needs_run_of(store@, store@.jobs[j as int], id@));
            return true;
        }
        j += 1;
    }
    let mut e: usize = 0;
    while e < store.events.len()
        invariant
            e <= store.events@.len(),
            forall|k: int| 0 <= k < e ==> !needs_rows_of(store@, #[trigger] store@.events[k], id@),
        decreases store.events.len() - e,
    {
        if event_needs(store, &store.events[e], id) {
            assert(needs_rows_of(store@, store@.events[e as int], id@));
            return true;
        }
        e += 1;
    }
    false
}

/// Where every row belongs to one session, no session is needed by what stays without it.
pub proof fn law_no_session_is_needed_by_others(tables: Tables, id: Seq<char>)
    requires
        tables.wf(),
    ensures
        !is_needed(tables, id),
{
    assert forall|i: int| 0 <= i < tables.jobs.len() implies !needs_run_of(
        tables,
        #[trigger] tables.jobs[i],
        id,
    ) by {
        let job = tables.jobs[i];
        assert(tables.job_belongs(job));
        let (c, r) = choose|c: int, r: int|
            #![trigger tables.chunks[c], tables.runs[r]]
            0 <= c < tables.chunks.len() && 0 <= r < tables.runs.len() && tables.chunks[c].id@
                == job.audio_chunk_id@ && tables.runs[r].id@ == job.run_id@
                && tables.chunks[c].session_id@ == tables.runs[r].session_id@;
        if tables.has_run_of(job.run_id@, id) {
            let q = choose|q: int|
                0 <= q < tables.runs.len() && (#[trigger] tables.runs[q]).id@ == job.run_id@
                    && tables.runs[q].session_id@ == id;
            if q < r {
                assert(tables.runs[q].id@ != tables.runs[r].id@);
            } else if r < q {
                assert(tables.runs[r].id@ != tables.runs[q].id@);
            }
            assert(tables.chunks[c].session_id@ == id);
        }
    }
    assert forall|i: int| 0 <= i < tables.events.len() implies !needs_rows_of(
        tables,
        #[trigger] tables.events[i],
        id,
    ) by {
        let event = tables.events[i];
        assert(tables.event_belongs(event));
        let j = choose|j: int|
            0 <= j < tables.jobs.len() && (#[trigger] tables.jobs[j]).id@ == event.job_id@
                && tables.jobs[j].audio_chunk_id@ == event.audio_chunk_id@;
        let c = choose|c: int|
            0 <= c < tables.chunks.len() && (#[trigger] tables.chunks[c]).id@
                == event.audio_chunk_id@ && tables.chunks[c].session_id@ == event.session_id@;
        assert forall|d: int|
            0 <= d < tables.chunks.len() && (#[trigger] tables.chunks[d]).id@
                == event.audio_chunk_id@ implies tables.chunks[d].session_id@
            == event.session_id@ by {
            if d < c {
                assert(tables.chunks[d].id@ != tables.chunks[c].id@);
            } else if c < d {
                assert(tables.chunks[c].id@ != tables.chunks[d].id@);
            }
        }
        assert forall|k: int|
            0 <= k < tables.jobs.len() && (#[trigger] tables.jobs[k]).id@
                == event.job_id@ implies tables.jobs[k].audio_chunk_id@
            == event.audio_chunk_id@ by {
            if k < j {
                assert(tables.jobs[k].id@ != tables.jobs[j].id@);
            } else if j < k {
                assert(tables.jobs[j].id@ != tables.jobs[k].id@);
            }
        }
    }
}

/// Deletes a session and all that belongs to it, unless something that stays refers to
/// it.
pub fn delete_session_rows(store: &mut Store, id: &str) -> (r: Result<()>)
    ensures
        if is_needed(old(store)@, id@) {
            fails(r, ErrorKind::Database, no_reference()) && final(store)@ == old(store)@
        } else {
            r is Ok && final(store)@ == without_session(old(store)@, id@)
        },
        old(store)@.wf() ==> r is Ok && final(store)@.wf(),
{
    let ghost was = store@;
    proof {
        if was.wf() {
            law_no_session_is_needed_by_others(was, id@);
        }
    }
    if is_still_needed(store, id) {
        return Err(missing_reference());
    }
    let mut events: Vec<TranscriptEventRecord> = Vec::new();
    std::mem::swap(&mut events, &mut store.events);
    let mut jobs: Vec<TranscriptionJobRecord> = Vec::new();
    std::mem::swap(&mut jobs, &mut store.jobs);
    let mut chunks: Vec<AudioChunkRecord> = Vec::new();
    std::mem::swap(&mut chunks, &mut store.chunks);
    let mut runs: Vec<TranscriptionRunRecord> = Vec::new();
    std::mem::swap(&mut runs, &mut store.runs);
    let mut sessions: Vec<SessionRecord> = Vec::new();
    std::mem::swap(&mut sessions, &mut store.sessions);
    let others = NotOf { id };
    store.events = kept(events, &others);
    store.jobs = kept(jobs, &JobNotOf { chunks: &chunks, id });
    store.chunks = kept(chunks, &others);
    store.runs = kept(runs, &others);
    store.sessions = kept(sessions, &others);
    assert(store@ =~= without_session(was, id@));
    proof {
        if was.wf() {
            lemma_deletion_keeps_wf(was, id@);
        }
    }
    Ok(())
}

/// Two values that were kept stood in the same order before.
proof fn lemma_kept_in_order<A>(s: Seq<A>, p: spec_fn(A) -> bool, i: int, j: int) -> (r: (int, int))
    requires
        0 <= i < j < s.filter(p).len(),
    ensures
        0 <= r.0 < r.1 < s.len(),
        s[r.0] == s.filter(p)[i],
        s[r.1] == s.filter(p)[j],
    decreases s.len(),
{
    reveal(Seq::filter);
    let front = s.drop_last();
    let f = front.filter(p);
    if j < f.len() {
        lemma_kept_in_order(front, p, i, j)
    } else {
        front.lemma_filter_contains_rev(p, f[i]);
        let k = choose|k: int| 0 <= k < front.len() && front[k] == f[i];
        (k, s.len() - 1)
    }
}

/// A value that has the property is kept, and every value that is kept was there and
/// has it.
pub proof fn lemma_kept<A>(s: Seq<A>, p: spec_fn(A) -> bool)
    ensures
        forall|i: int| 0 <= i < s.len() && p(#[trigger] s[i]) ==> s.filter(p).contains(s[i]),
        forall|i: int|
            0 <= i < s.filter(p).len() ==> s.contains(#[trigger] s.filter(p)[i]) && p(
                s.filter(p)[i],
            ),
{
    assert forall|i: int| 0 <= i < s.len() && p(#[trigger] s[i]) implies s.filter(p).contains(
        s[i],
    ) by {
        s.lemma_filter_contains(p, i);
    }
    assert forall|i: int| 0 <= i < s.filter(p).len() implies s.contains(
        #[trigger] s.filter(p)[i],
    ) && p(s.filter(p)[i]) by {
        s.lemma_filter_pred(p, i);
        s.lemma_filter_contains_rev(p, s.filter(p)[i]);
    }
}

pub proof fn lemma_deletion_keeps_wf(was: Tables, id: Seq<char>)
    requires
        was.wf(),
    ensures
        without_session(was, id).wf(),
{
    let now = without_session(was, id);
    lemma_kept(was.events, other_events(id));
    lemma_kept(was.jobs, other_jobs(was.chunks, id));
    lemma_kept(was.chunks, other_chunks(id));
    lemma_kept(was.runs, other_runs(id));
    lemma_kept(was.sessions, other_sessions(id));
    lemma_ids_stay_unique(was, id);
    lemma_references_stay(was, id);
    assert forall|i: int, j: int| 0 <= i < j < now.events.len() implies (
    #[trigger] now.events[i]).job_id@ != (#[trigger] now.events[j]).job_id@ by {
        let (a, b) = lemma_kept_in_order(
            was.events,
            other_events(id),
            i,
            j,
        );
        assert(was.events[a].job_id@ != was.events[b].job_id@);
    }
    assert forall|i: int, j: int|
        0 <= i < j < now.events.len() && now.events[i].is_canonical
            && now.events[j].is_canonical implies (#[trigger] now.events[i]).audio_chunk_id@ != (
    #[trigger] now.events[j]).audio_chunk_id@ by {
        let (a, b) = lemma_kept_in_order(
            was.events,
            other_events(id),
            i,
            j,
        );
        assert(was.events[a].audio_chunk_id@ != was.events[b].audio_chunk_id@);
    }
}

proof fn lemma_ids_stay_unique(was: Tables, id: Seq<char>)
    requires
        was.wf(),
    ensures
        without_session(was, id).ids_unique(),
        without_session(was, id).numbers_unique(),
{
    let now = without_session(was, id);
    assert forall|i: int, j: int| 0 <= i < j < now.chunks.len() implies !same_number(
        #[trigger] now.chunks[i],
        #[trigger] now.chunks[j],
    ) by {
        let (a, b) = lemma_kept_in_order(was.chunks, other_chunks(id), i, j);
        assert(!same_number(was.chunks[a], was.chunks[b]));
    }
    assert forall|i: int, j: int| 0 <= i < j < now.sessions.len() implies (
    #[trigger] now.sessions[i]).id@ != (#[trigger] now.sessions[j]).id@ by {
        let (a, b) = lemma_kept_in_order(was.sessions, other_sessions(id), i, j);
        assert(was.sessions[a].id@ != was.sessions[b].id@);
    }
    assert forall|i: int, j: int| 0 <= i < j < now.runs.len() implies (#[trigger] now.runs[i]).id@
        != (#[trigger] now.runs[j]).id@ by {
        let (a, b) = lemma_kept_in_order(
            was.runs,
            other_runs(id),
            i,
            j,
        );
        assert(was.runs[a].id@ != was.runs[b].id@);
    }
    assert forall|i: int, j: int| 0 <= i < j < now.chunks.len() implies (
    #[trigger] now.chunks[i]).id@ != (#[trigger] now.chunks[j]).id@ by {
        let (a, b) = lemma_kept_in_order(
            was.chunks,
            other_chunks(id),
            i,
            j,
        );
        assert(was.chunks[a].id@ != was.chunks[b].id@);
    }
    assert forall|i: int, j: int| 0 <= i < j < now.jobs.len() implies (#[trigger] now.jobs[i]).id@
        != (#[trigger] now.jobs[j]).id@ by {
        let (a, b) = lemma_kept_in_order(
            was.jobs,
            other_jobs(was.chunks, id),
            i,
            j,
        );
        assert(was.jobs[a].id@ != was.jobs[b].id@);
    }
}

/// A session that is not deleted is still there.
proof fn lemma_session_stays(was: Tables, id: Seq<char>, other: Seq<char>)
    requires
        was.has_session(other),
        other != id,
    ensures
        without_session(was, id).has_session(other),
{
    let now = without_session(was, id);
    lemma_kept(was.sessions, other_sessions(id));
    let k = choose|k: int| 0 <= k < was.sessions.len() && (#[trigger] was.sessions[k]).id@ == other;
    assert(now.sessions.contains(was.sessions[k]));
    let n = choose|n: int| 0 <= n < now.sessions.len() && now.sessions[n] == was.sessions[k];
    assert(now.sessions[n].id@ == other);
}

proof fn lemma_references_stay(was: Tables, id: Seq<char>)
    requires
        was.wf(),
    ensures
        without_session(was, id).references_hold(),
        without_session(was, id).rows_belong(),
{
    let now = without_session(was, id);
    let keep_event = other_events(id);
    let keep_job = other_jobs(was.chunks, id);
    let keep_chunk = other_chunks(id);
    let keep_run = other_runs(id);
    lemma_kept(was.events, keep_event);
    lemma_kept(was.jobs, keep_job);
    lemma_kept(was.chunks, keep_chunk);
    lemma_kept(was.runs, keep_run);
    assert(now.events == was.events.filter(keep_event));
    assert(now.jobs == was.jobs.filter(keep_job));
    assert(now.chunks == was.chunks.filter(keep_chunk));
    assert(now.runs == was.runs.filter(keep_run));
    assert forall|i: int| 0 <= i < now.runs.len() implies now.has_session(
        (#[trigger] now.runs[i]).session_id@,
    ) by {
        let k = choose|k: int| 0 <= k < was.runs.len() && was.runs[k] == now.runs[i];
        assert(was.has_session(was.runs[k].session_id@));
        lemma_session_stays(was, id, now.runs[i].session_id@);
    }
    assert forall|i: int| 0 <= i < now.chunks.len() implies now.has_session(
        (#[trigger] now.chunks[i]).session_id@,
    ) by {
        let k = choose|k: int| 0 <= k < was.chunks.len() && was.chunks[k] == now.chunks[i];
        assert(was.has_session(was.chunks[k].session_id@));
        lemma_session_stays(was, id, now.chunks[i].session_id@);
    }
    assert forall|i: int| 0 <= i < now.jobs.len() implies now.has_chunk(
        (#[trigger] now.jobs[i]).audio_chunk_id@,
    ) && now.has_run(now.jobs[i].run_id@) && now.job_belongs(now.jobs[i]) by {
        let job = now.jobs[i];
        let k = choose|k: int| 0 <= k < was.jobs.len() && was.jobs[k] == job;
        assert(was.job_belongs(was.jobs[k]));
        let (c, r) = choose|c: int, r: int|
            #![trigger was.chunks[c], was.runs[r]]
            0 <= c < was.chunks.len() && 0 <= r < was.runs.len() && was.chunks[c].id@
                == job.audio_chunk_id@ && was.runs[r].id@ == job.run_id@
                && was.chunks[c].session_id@ == was.runs[r].session_id@;
        assert(keep_job(job));
        assert(was.chunks[c].session_id@ != id);
        assert(keep_chunk(was.chunks[c]));
        assert(keep_run(was.runs[r]));
        assert(now.chunks.contains(was.chunks[c]));
        assert(now.runs.contains(was.runs[r]));
        let d = choose|d: int| 0 <= d < now.chunks.len() && now.chunks[d] == was.chunks[c];
        let q = choose|q: int| 0 <= q < now.runs.len() && now.runs[q] == was.runs[r];
        assert(now.chunks[d].id@ == job.audio_chunk_id@);
        assert(now.runs[q].id@ == job.run_id@);
    }
    assert forall|i: int| 0 <= i < now.events.len() implies now.has_job(
        (#[trigger] now.events[i]).job_id@,
    ) && now.has_chunk(now.events[i].audio_chunk_id@) && now.event_belongs(now.events[i]) by {
        let event = now.events[i];
        let k = choose|k: int| 0 <= k < was.events.len() && was.events[k] == event;
        assert(was.event_belongs(was.events[k]));
        let j = choose|j: int|
            0 <= j < was.jobs.len() && (#[trigger] was.jobs[j]).id@ == event.job_id@
                && was.jobs[j].audio_chunk_id@ == event.audio_chunk_id@;
        let c = choose|c: int|
            0 <= c < was.chunks.len() && (#[trigger] was.chunks[c]).id@ == event.audio_chunk_id@
                && was.chunks[c].session_id@ == event.session_id@;
        assert(keep_event(event));
        assert(keep_chunk(was.chunks[c]));
        assert(keep_job(was.jobs[j])) by {
            if belongs_to(was.jobs[j], was.chunks, id) {
                let x = choose|x: int|
                    0 <= x < was.chunks.len() && (#[trigger] was.chunks[x]).id@
                        == was.jobs[j].audio_chunk_id@ && was.chunks[x].session_id@ == id;
                if x < c {
                    assert(was.chunks[x].id@ != was.chunks[c].id@);
                } else if c < x {
                    assert(was.chunks[c].id@ != was.chunks[x].id@);
                }
            }
        }
        assert(now.jobs.contains(was.jobs[j]));
        assert(now.chunks.contains(was.chunks[c]));
        let m = choose|m: int| 0 <= m < now.jobs.len() && now.jobs[m] == was.jobs[j];
        let d = choose|d: int| 0 <= d < now.chunks.len() && now.chunks[d] == was.chunks[c];
        assert(now.jobs[m].id@ == event.job_id@);
        assert(now.chunks[d].id@ == event.audio_chunk_id@);
    }
}

/// Deleting a session deletes every trace of it and nothing of another session.
pub proof fn law_deletion_spares_other_sessions(tables: Tables, id: Seq<char>)
    ensures
        ({
            let after = without_session(tables, id);
            &&& !after.has_session(id)
            &&& forall|i: int|
                0 <= i < after.chunks.len() ==> (#[trigger] after.chunks[i]).session_id@ != id
            &&& forall|i: int|
                0 <= i < after.events.len() ==> (#[trigger] after.events[i]).session_id@ != id
            &&& forall|i: int|
                0 <= i < tables.sessions.len() && (#[trigger] tables.sessions[i]).id@ != id
                    ==> after.sessions.contains(tables.sessions[i])
            &&& forall|i: int|
                0 <= i < tables.chunks.len() && (#[trigger] tables.chunks[i]).session_id@ != id
                    ==> after.chunks.contains(tables.chunks[i])
            &&& forall|i: int|
                0 <= i < tables.events.len() && (#[trigger] tables.events[i]).session_id@ != id
                    ==> after.events.contains(tables.events[i])
        }),
{
    let after = without_session(tables, id);
    let keep_event = other_events(id);
    let keep_chunk = other_chunks(id);
    let keep_session = other_sessions(id);
    lemma_kept(tables.events, keep_event);
    lemma_kept(tables.chunks, keep_chunk);
    lemma_kept(tables.sessions, keep_session);
    assert(after.events == tables.events.filter(keep_event));
    assert(after.chunks == tables.chunks.filter(keep_chunk));
    assert(after.sessions == tables.sessions.filter(keep_session));
    assert forall|i: int| 0 <= i < after.sessions.len() implies (#[trigger] after.sessions[i]).id@
        != id by {
        assert(keep_session(after.sessions[i]));
    }
    assert forall|i: int| 0 <= i < after.chunks.len() implies (
    #[trigger] after.chunks[i]).session_id@ != id by {
        assert(keep_chunk(after.chunks[i]));
    }
    assert forall|i: int| 0 <= i < after.events.len() implies (
    #[trigger] after.events[i]).session_id@ != id by {
        assert(keep_event(after.events[i]));
    }
    assert forall|i: int|
        0 <= i < tables.sessions.len() && (#[trigger] tables.sessions[i]).id@
            != id implies after.sessions.contains(tables.sessions[i]) by {
        assert(keep_session(tables.sessions[i]));
    }
    assert forall|i: int|
        0 <= i < tables.chunks.len() && (#[trigger] tables.chunks[i]).session_id@
            != id implies after.chunks.contains(tables.chunks[i]) by {
        assert(keep_chunk(tables.chunks[i]));
    }
    assert forall|i: int|
        0 <= i < tables.events.len() && (#[trigger] tables.events[i]).session_id@
            != id implies after.events.contains(tables.events[i]) by {
        assert(keep_event(tables.events[i]));
    }
}

/// Once a session is deleted, exactly the rows of others are left: no chunk, run or
/// transcript of it, and no job that transcribes one of its chunks.
pub proof fn law_deletion_takes_the_rows_of_a_session(
    tables: Tables,
    id: Seq<char>,
    session: SessionRecord,
    run: TranscriptionRunRecord,
    chunk: AudioChunkRecord,
    job: TranscriptionJobRecord,
    event: TranscriptEventRecord,
)
    ensures
        ({
            let after = without_session(tables, id);
            &&& after.sessions.contains(session) <==> tables.sessions.contains(session)
                && session.id@ != id
            &&& after.runs.contains(run) <==> tables.runs.contains(run) && run.session_id@ != id
            &&& after.chunks.contains(chunk) <==> tables.chunks.contains(chunk)
                && chunk.session_id@ != id
            &&& after.events.contains(event) <==> tables.events.contains(event)
                && event.session_id@ != id
            &&& after.jobs.contains(job) <==> tables.jobs.contains(job) && !exists|c: int|
                0 <= c < tables.chunks.len() && (#[trigger] tables.chunks[c]).id@
                    == job.audio_chunk_id@ && tables.chunks[c].session_id@ == id
        }),
{
    lemma_filter_keeps(tables.sessions, other_sessions(id), session);
    lemma_filter_keeps(tables.runs, other_runs(id), run);
    lemma_filter_keeps(tables.chunks, other_chunks(id), chunk);
    lemma_filter_keeps(tables.events, other_events(id), event);
    lemma_filter_keeps(tables.jobs, other_jobs(tables.chunks, id), job);
}

/// What a filter keeps of a sequence.
pub proof fn lemma_filter_keeps<A>(s: Seq<A>, p: spec_fn(A) -> bool, x: A)
    ensures
        s.filter(p).contains(x) <==> s.contains(x) && p(x),
{
    lemma_kept(s, p);
    if s.contains(x) && p(x) {
        let i = choose|i: int| 0 <= i < s.len() && s[i] == x;
        assert(s.filter(p).contains(s[i]));
    }
    if s.filter(p).contains(x) {
        let i = choose|i: int| 0 <= i < s.filter(p).len() && s.filter(p)[i] == x;
        assert(s.contains(s.filter(p)[i]) && p(s.filter(p)[i]));
    }
}

} // verus!
