//! Deleting meetings that are fully transcribed.

use crate::disk::{format_bytes, size_text};
use crate::error::{fails, ErrorKind, Result};
use crate::storage::deletion::{
    delete_session_rows, is_needed, law_no_session_is_needed_by_others, lemma_deletion_keeps_wf,
    lemma_kept, other_chunks, other_events, other_jobs, other_runs, other_sessions,
    without_session,
};
use crate::storage::jobs::belongs_to;
use crate::storage::types::{
    AudioChunkRecord, SessionRecord, SessionState, TranscriptionJobRecord,
};
use crate::storage::{no_reference, Store, Tables};
use crate::text;
use vstd::prelude::*;

verus! {

/// Whether a meeting may be deleted: it is complete and every chunk of it has a
/// transcript.
pub open spec fn is_eligible(tables: Tables) -> spec_fn(SessionRecord) -> bool {
    |s: SessionRecord|
        s.state == SessionState::Completed && forall|c: int|
            0 <= c < tables.chunks.len() && (#[trigger] tables.chunks[c]).session_id@ == s.id@
                ==> tables.chunk_has_event(tables.chunks[c].id@)
}

fn eligible(store: &Store, session: &SessionRecord) -> (r: bool)
    ensures
        r == is_eligible(store@)(*session),
{
    if session.state != SessionState::Completed {
        return false;
    }
    let mut c: usize = 0;
    while c < store.chunks.len()
        invariant
            c <= store.chunks@.len(),
            forall|k: int|
                0 <= k < c && (#[trigger] store@.chunks[k]).session_id@ == session.id@
                    ==> store@.chunk_has_event(store@.chunks[k].id@),
        decreases store.chunks.len() - c,
    {
        if text::same(store.chunks[c].session_id.as_str(), session.id.as_str())
            && !store.has_event_for_chunk(store.chunks[c].id.as_str()) {
            assert(store@.chunks[c as int].session_id@ == session.id@);
            return false;
        }
        c += 1;
    }
    true
}

/// The meetings that may be deleted.
pub fn list_eligible(store: &Store) -> (r: Vec<SessionRecord>)
    ensures
        r@ == store.sessions@.filter(is_eligible(store@)),
{
    let ghost p = is_eligible(store@);
    let mut r: Vec<SessionRecord> = Vec::new();
    let mut i: usize = 0;
    assert(store.sessions@.take(0).filter(p) =~= Seq::empty()) by {
        reveal(Seq::filter);
    }
    while i < store.sessions.len()
        invariant
            i <= store.sessions@.len(),
            p == is_eligible(store@),
            r@ == store.sessions@.take(i as int).filter(p),
        decreases store.sessions.len() - i,
    {
        proof {
            assert(store.sessions@.take(i + 1).drop_last() =~= store.sessions@.take(i as int));
            reveal(Seq::filter);
        }
        if eligible(store, &store.sessions[i]) {
            r.push(store.sessions[i].clone());
        }
        i += 1;
    }
    assert(store.sessions@.take(i as int) =~= store.sessions@);
    r
}

/// A meeting that may be deleted, and what its directory holds.
#[derive(Debug)]
pub struct EligibleSession {
    pub id: String,
    pub files: u64,
    pub bytes: u64,
}

/// A sum as far as 64 bits can hold it.
pub open spec fn capped(a: u64, b: u64) -> u64 {
    if a + b > u64::MAX {
        u64::MAX
    } else {
        (a + b) as u64
    }
}

pub fn capped_sum(a: u64, b: u64) -> (r: u64)
    ensures
        r == capped(a, b),
{
    if a > u64::MAX - b {
        u64::MAX
    } else {
        a + b
    }
}

/// How many files the meetings hold, and how many bytes.
pub open spec fn totals(sessions: Seq<EligibleSession>) -> (u64, u64)
    decreases sessions.len(),
{
    if sessions.len() == 0 {
        (0, 0)
    } else {
        let before = totals(sessions.drop_last());
        (capped(before.0, sessions.last().files), capped(before.1, sessions.last().bytes))
    }
}

/// How many files and bytes would be deleted, and of how many meetings.
pub fn preview_stats(sessions: &Vec<EligibleSession>) -> (r: (u64, u64, usize))
    ensures
        (r.0, r.1) == totals(sessions@),
        r.2 == sessions@.len(),
{
    let mut files: u64 = 0;
    let mut bytes: u64 = 0;
    let mut i: usize = 0;
    while i < sessions.len()
        invariant
            i <= sessions@.len(),
            (files, bytes) == totals(sessions@.take(i as int)),
        decreases sessions.len() - i,
    {
        assert(sessions@.take(i + 1).drop_last() =~= sessions@.take(i as int));
        files = capped_sum(files, sessions[i].files);
        bytes = capped_sum(bytes, sessions[i].bytes);
        i += 1;
    }
    assert(sessions@.take(i as int) =~= sessions@);
    (files, bytes, sessions.len())
}

/// What is said of one meeting.
pub open spec fn session_line(session: EligibleSession) -> Seq<char> {
    "session "@ + session.id@ + " — "@ + text::decimal(session.files as nat) + " files, "@
        + size_text(session.bytes) + "\n"@
}

pub open spec fn session_lines(sessions: Seq<EligibleSession>) -> Seq<char>
    decreases sessions.len(),
{
    if sessions.len() == 0 {
        Seq::empty()
    } else {
        session_lines(sessions.drop_last()) + session_line(sessions.last())
    }
}

/// What is said of all that is, or would be, deleted.
pub open spec fn summary_line(sessions: Seq<EligibleSession>, apply: bool) -> Seq<char> {
    let (files, bytes) = totals(sessions);
    let amount = text::decimal(files as nat) + " files ("@ + size_text(bytes) + ") across "@
        + text::decimal(sessions.len());
    if apply {
        "Deleting "@ + amount + " sessions.\n"@
    } else {
        "Would delete "@ + amount + " sessions. Re-run with --apply to delete.\n"@
    }
}

/// What the user is told before meetings are deleted, or instead of that.
pub fn cleanup_report(sessions: &Vec<EligibleSession>, apply: bool) -> (r: String)
    ensures
        r@ == if sessions@.len() == 0 {
            "No fully transcribed completed sessions are eligible for cleanup.\n"@
        } else {
            session_lines(sessions@) + summary_line(sessions@, apply)
        },
{
    if sessions.len() == 0 {
        return "No fully transcribed completed sessions are eligible for cleanup.\n".to_owned();
    }
    let mut out = String::new();
    let mut i: usize = 0;
    assert(out@ =~= session_lines(sessions@.take(0)));
    while i < sessions.len()
        invariant
            i <= sessions@.len(),
            out@ == session_lines(sessions@.take(i as int)),
        decreases sessions.len() - i,
    {
        assert(sessions@.take(i + 1).drop_last() =~= sessions@.take(i as int));
        let files = text::decimal_of(sessions[i].files);
        let size = format_bytes(sessions[i].bytes);
        let head = text::concat4("session ", sessions[i].id.as_str(), " — ", files.as_str());
        let line = text::concat4(head.as_str(), " files, ", size.as_str(), "\n");
        assert(line@ =~= session_line(sessions@[i as int]));
        out.append(line.as_str());
        i += 1;
    }
    assert(sessions@.take(i as int) =~= sessions@);
    let (files, bytes, count) = preview_stats(sessions);
    let files = text::decimal_of(files);
    let size = format_bytes(bytes);
    let count = text::decimal_of(count as u64);
    let amount = text::concat5(
        files.as_str(),
        " files (",
        size.as_str(),
        ") across ",
        count.as_str(),
    );
    let last = if apply {
        text::concat3("Deleting ", amount.as_str(), " sessions.\n")
    } else {
        text::concat3(
            "Would delete ",
            amount.as_str(),
            " sessions. Re-run with --apply to delete.\n",
        )
    };
    assert(last@ =~= summary_line(sessions@, apply));
    out.append(last.as_str());
    out
}

/// The tables without these meetings.
pub open spec fn without_all(tables: Tables, ids: Seq<Seq<char>>) -> Tables
    decreases ids.len(),
{
    if ids.len() == 0 {
        tables
    } else {
        without_session(without_all(tables, ids.drop_last()), ids.last())
    }
}

/// Forgets a meeting whose directory was deleted.
pub fn apply_session(store: &mut Store, id: &str) -> (r: Result<()>)
    ensures
        if is_needed(old(store)@, id@) {
            fails(r, ErrorKind::Database, no_reference()) && final(store)@ == old(store)@
        } else {
            r is Ok && final(store)@ == without_session(old(store)@, id@)
        },
        old(store)@.wf() ==> r is Ok && final(store)@.wf(),
{
    delete_session_rows(store, id)
}

/// The tables without these meetings, deleted one after the other, up to the first that
/// something else refers to; and whether all are deleted.
pub open spec fn cleaned(tables: Tables, ids: Seq<Seq<char>>) -> (Tables, bool)
    decreases ids.len(),
{
    if ids.len() == 0 {
        (tables, true)
    } else {
        let (before, all) = cleaned(tables, ids.drop_last());
        if !all || is_needed(before, ids.last()) {
            (before, false)
        } else {
            (without_session(before, ids.last()), true)
        }
    }
}

/// The identifiers of the meetings.
pub open spec fn ids_of(sessions: Seq<EligibleSession>) -> Seq<Seq<char>> {
    sessions.map_values(|s: EligibleSession| s.id@)
}

/// A meeting that cannot be deleted ends the cleanup.
proof fn lemma_cleaning_stops(tables: Tables, ids: Seq<Seq<char>>, n: int)
    requires
        0 <= n <= ids.len(),
        !cleaned(tables, ids.take(n)).1,
    ensures
        cleaned(tables, ids) == cleaned(tables, ids.take(n)),
    decreases ids.len() - n,
{
    if n == ids.len() {
        assert(ids.take(n) =~= ids);
    } else {
        assert(ids.take(n + 1).drop_last() =~= ids.take(n));
        lemma_cleaning_stops(tables, ids, n + 1);
    }
}

/// Forgets all meetings whose directories were deleted. Says how many files and bytes they
/// held, and how many they are.
pub fn apply_all(store: &mut Store, sessions: &Vec<EligibleSession>) -> (r: Result<
    (u64, u64, usize),
>)
    ensures
        final(store)@ == cleaned(old(store)@, ids_of(sessions@)).0,
        if cleaned(old(store)@, ids_of(sessions@)).1 {
            r matches Ok(t) && (t.0, t.1) == totals(sessions@) && t.2 == sessions@.len()
        } else {
            fails(r, ErrorKind::Database, no_reference())
        },
        old(store)@.wf() ==> r is Ok && final(store)@ == without_all(
            old(store)@,
            ids_of(sessions@),
        ) && final(store)@.wf(),
{
    let ghost was = store@;
    let ghost all = ids_of(sessions@);
    let mut i: usize = 0;
    while i < sessions.len()
        invariant
            i <= sessions@.len(),
            all == ids_of(sessions@),
            was == old(store)@,
            (store@, true) == cleaned(was, all.take(i as int)),
            was.wf() ==> store@.wf() && store@ == without_all(was, all.take(i as int)),
        decreases sessions.len() - i,
    {
        proof {
            assert(all.take(i + 1).drop_last() =~= all.take(i as int));
            assert(all.take(i + 1).last() == sessions@[i as int].id@);
        }
        match apply_session(store, sessions[i].id.as_str()) {
            Ok(()) => {},
            Err(e) => {
                proof {
                    assert(cleaned(was, all.take(i + 1)) == (store@, false));
                    lemma_cleaning_stops(was, all, i + 1);
                }
                return Err(e);
            },
        }
        i += 1;
    }
    assert(all.take(i as int) =~= all);
    Ok(preview_stats(sessions))
}

/// No meeting is deleted that runs, was interrupted, or has a chunk without a
/// transcript.
pub proof fn law_cleanup_takes_only_transcribed_meetings(tables: Tables, i: int)
    requires
        0 <= i < tables.sessions.filter(is_eligible(tables)).len(),
    ensures
        ({
            let s = tables.sessions.filter(is_eligible(tables))[i];
            &&& s.state == SessionState::Completed
            &&& forall|c: int|
                0 <= c < tables.chunks.len() && (#[trigger] tables.chunks[c]).session_id@ == s.id@
                    ==> tables.chunk_has_event(tables.chunks[c].id@)
        }),
{
    tables.sessions.lemma_filter_pred(is_eligible(tables), i);
}

/// The identifiers of the meetings that may be deleted.
pub open spec fn eligible_ids(tables: Tables) -> Seq<Seq<char>> {
    tables.sessions.filter(is_eligible(tables)).map_values(|s: SessionRecord| s.id@)
}

/// Whether a job transcribes a chunk of one of these meetings.
pub open spec fn is_of_any(
    job: TranscriptionJobRecord,
    chunks: Seq<AudioChunkRecord>,
    ids: Seq<Seq<char>>,
) -> bool {
    exists|c: int|
        0 <= c < chunks.len() && (#[trigger] chunks[c]).id@ == job.audio_chunk_id@ && ids.contains(
            chunks[c].session_id@,
        )
}

/// What is left without some meetings is what is of no such meeting.
proof fn lemma_without_all(tables: Tables, ids: Seq<Seq<char>>)
    ensures
        ({
            let after = without_all(tables, ids);
            &&& forall|i: int|
                0 <= i < after.sessions.len() ==> tables.sessions.contains(
                    #[trigger] after.sessions[i],
                ) && !ids.contains(after.sessions[i].id@)
            &&& forall|i: int|
                0 <= i < after.chunks.len() ==> tables.chunks.contains(#[trigger] after.chunks[i])
                    && !ids.contains(after.chunks[i].session_id@)
            &&& forall|i: int|
                0 <= i < after.events.len() ==> tables.events.contains(#[trigger] after.events[i])
                    && !ids.contains(after.events[i].session_id@)
            &&& forall|i: int|
                0 <= i < tables.sessions.len() && !ids.contains(
                    (#[trigger] tables.sessions[i]).id@,
                ) ==> after.sessions.contains(tables.sessions[i])
            &&& forall|i: int|
                0 <= i < tables.chunks.len() && !ids.contains(
                    (#[trigger] tables.chunks[i]).session_id@,
                ) ==> after.chunks.contains(tables.chunks[i])
            &&& forall|i: int|
                0 <= i < tables.events.len() && !ids.contains(
                    (#[trigger] tables.events[i]).session_id@,
                ) ==> after.events.contains(tables.events[i])
            &&& forall|i: int|
                0 <= i < after.runs.len() ==> tables.runs.contains(#[trigger] after.runs[i])
                    && !ids.contains(after.runs[i].session_id@)
            &&& forall|i: int|
                0 <= i < tables.runs.len() && !ids.contains(
                    (#[trigger] tables.runs[i]).session_id@,
                ) ==> after.runs.contains(tables.runs[i])
            &&& forall|i: int|
                0 <= i < after.jobs.len() ==> tables.jobs.contains(#[trigger] after.jobs[i])
                    && !is_of_any(after.jobs[i], tables.chunks, ids)
            &&& forall|i: int|
                0 <= i < tables.jobs.len() && !is_of_any(
                    #[trigger] tables.jobs[i],
                    tables.chunks,
                    ids,
                ) ==> after.jobs.contains(tables.jobs[i])
        }),
    decreases ids.len(),
{
    if ids.len() > 0 {
        let front = ids.drop_last();
        let id = ids.last();
        let before = without_all(tables, front);
        let after = without_all(tables, ids);
        lemma_without_all(tables, front);
        lemma_kept(before.sessions, other_sessions(id));
        lemma_kept(before.chunks, other_chunks(id));
        lemma_kept(before.events, other_events(id));
        assert forall|x: Seq<char>| #[trigger] ids.contains(x) == (front.contains(x) || x == id) by {
            if ids.contains(x) {
                let k = choose|k: int| 0 <= k < ids.len() && ids[k] == x;
                if k < front.len() {
                    assert(front[k] == x);
                }
            }
            if front.contains(x) {
                let k = choose|k: int| 0 <= k < front.len() && front[k] == x;
                assert(ids[k] == x);
            }
            assert(ids[ids.len() - 1] == id);
        }
        assert forall|i: int| 0 <= i < after.sessions.len() implies tables.sessions.contains(
            #[trigger] after.sessions[i],
        ) && !ids.contains(after.sessions[i].id@) by {
            let x = after.sessions[i];
            assert(other_sessions(id)(x));
            let k = choose|k: int| 0 <= k < before.sessions.len() && before.sessions[k] == x;
            assert(tables.sessions.contains(before.sessions[k]));
        }
        assert forall|i: int| 0 <= i < after.chunks.len() implies tables.chunks.contains(
            #[trigger] after.chunks[i],
        ) && !ids.contains(after.chunks[i].session_id@) by {
            let x = after.chunks[i];
            assert(other_chunks(id)(x));
            let k = choose|k: int| 0 <= k < before.chunks.len() && before.chunks[k] == x;
            assert(tables.chunks.contains(before.chunks[k]));
        }
        assert forall|i: int| 0 <= i < after.events.len() implies tables.events.contains(
            #[trigger] after.events[i],
        ) && !ids.contains(after.events[i].session_id@) by {
            let x = after.events[i];
            assert(other_events(id)(x));
            let k = choose|k: int| 0 <= k < before.events.len() && before.events[k] == x;
            assert(tables.events.contains(before.events[k]));
        }
        assert forall|i: int|
            0 <= i < tables.sessions.len() && !ids.contains(
                (#[trigger] tables.sessions[i]).id@,
            ) implies after.sessions.contains(tables.sessions[i]) by {
            let x = tables.sessions[i];
            assert(before.sessions.contains(x));
            let k = choose|k: int| 0 <= k < before.sessions.len() && before.sessions[k] == x;
            assert(other_sessions(id)(before.sessions[k]));
        }
        assert forall|i: int|
            0 <= i < tables.chunks.len() && !ids.contains(
                (#[trigger] tables.chunks[i]).session_id@,
            ) implies after.chunks.contains(tables.chunks[i]) by {
            let x = tables.chunks[i];
            assert(before.chunks.contains(x));
            let k = choose|k: int| 0 <= k < before.chunks.len() && before.chunks[k] == x;
            assert(other_chunks(id)(before.chunks[k]));
        }
        assert forall|i: int|
            0 <= i < tables.events.len() && !ids.contains(
                (#[trigger] tables.events[i]).session_id@,
            ) implies after.events.contains(tables.events[i]) by {
            let x = tables.events[i];
            assert(before.events.contains(x));
            let k = choose|k: int| 0 <= k < before.events.len() && before.events[k] == x;
            assert(other_events(id)(before.events[k]));
        }
        lemma_kept(before.runs, other_runs(id));
        assert forall|i: int| 0 <= i < after.runs.len() implies tables.runs.contains(
            #[trigger] after.runs[i],
        ) && !ids.contains(after.runs[i].session_id@) by {
            let x = after.runs[i];
            assert(other_runs(id)(x));
            let k = choose|k: int| 0 <= k < before.runs.len() && before.runs[k] == x;
            assert(tables.runs.contains(before.runs[k]));
        }
        assert forall|i: int|
            0 <= i < tables.runs.len() && !ids.contains(
                (#[trigger] tables.runs[i]).session_id@,
            ) implies after.runs.contains(tables.runs[i]) by {
            let x = tables.runs[i];
            assert(before.runs.contains(x));
            let k = choose|k: int| 0 <= k < before.runs.len() && before.runs[k] == x;
            assert(other_runs(id)(before.runs[k]));
        }
        let keep = other_jobs(before.chunks, id);
        lemma_kept(before.jobs, keep);
        assert forall|i: int| 0 <= i < after.jobs.len() implies tables.jobs.contains(
            #[trigger] after.jobs[i],
        ) && !is_of_any(after.jobs[i], tables.chunks, ids) by {
            let x = after.jobs[i];
            assert(keep(x));
            let k = choose|k: int| 0 <= k < before.jobs.len() && before.jobs[k] == x;
            assert(tables.jobs.contains(before.jobs[k]));
            assert(!is_of_any(before.jobs[k], tables.chunks, front));
            if is_of_any(x, tables.chunks, ids) {
                let c = choose|c: int|
                    0 <= c < tables.chunks.len() && (#[trigger] tables.chunks[c]).id@
                        == x.audio_chunk_id@ && ids.contains(tables.chunks[c].session_id@);
                assert(!front.contains(tables.chunks[c].session_id@));
                assert(before.chunks.contains(tables.chunks[c]));
                let d = choose|d: int|
                    0 <= d < before.chunks.len() && before.chunks[d] == tables.chunks[c];
                assert(before.chunks[d].session_id@ == id);
                assert(belongs_to(x, before.chunks, id));
            }
        }
        assert forall|i: int|
            0 <= i < tables.jobs.len() && !is_of_any(
                #[trigger] tables.jobs[i],
                tables.chunks,
                ids,
            ) implies after.jobs.contains(tables.jobs[i]) by {
            let x = tables.jobs[i];
            if is_of_any(x, tables.chunks, front) {
                let c = choose|c: int|
                    0 <= c < tables.chunks.len() && (#[trigger] tables.chunks[c]).id@
                        == x.audio_chunk_id@ && front.contains(tables.chunks[c].session_id@);
                assert(ids.contains(tables.chunks[c].session_id@));
            }
            assert(before.jobs.contains(x));
            let k = choose|k: int| 0 <= k < before.jobs.len() && before.jobs[k] == x;
            if belongs_to(x, before.chunks, id) {
                let d = choose|d: int|
                    0 <= d < before.chunks.len() && (#[trigger] before.chunks[d]).id@
                        == x.audio_chunk_id@ && before.chunks[d].session_id@ == id;
                assert(tables.chunks.contains(before.chunks[d]));
                let c = choose|c: int|
                    0 <= c < tables.chunks.len() && tables.chunks[c] == before.chunks[d];
                assert(ids.contains(tables.chunks[c].session_id@));
            }
            assert(keep(before.jobs[k]));
        }
    }
}

proof fn lemma_eligible_ids(tables: Tables, i: int)
    requires
        tables.wf(),
        0 <= i < tables.sessions.len(),
    ensures
        eligible_ids(tables).contains(tables.sessions[i].id@) == is_eligible(tables)(
            tables.sessions[i],
        ),
{
    let p = is_eligible(tables);
    let listed = tables.sessions.filter(p);
    let ids = eligible_ids(tables);
    lemma_kept(tables.sessions, p);
    let s = tables.sessions[i];
    if p(s) {
        assert(listed.contains(s));
        let k = choose|k: int| 0 <= k < listed.len() && listed[k] == s;
        assert(ids[k] == s.id@);
    }
    if ids.contains(s.id@) {
        let k = choose|k: int| 0 <= k < ids.len() && ids[k] == s.id@;
        let t = listed[k];
        assert(tables.sessions.contains(t) && p(t));
        let j = choose|j: int| 0 <= j < tables.sessions.len() && tables.sessions[j] == t;
        if i < j {
            assert(tables.sessions[i].id@ != tables.sessions[j].id@);
        } else if j < i {
            assert(tables.sessions[j].id@ != tables.sessions[i].id@);
        }
    }
}

/// Deleting the meetings that may be deleted takes every trace of them, and keeps every
/// other meeting with its runs, chunks, jobs and transcripts.
pub proof fn law_cleanup_takes_what_was_listed(tables: Tables, i: int)
    requires
        tables.wf(),
        0 <= i < tables.sessions.len(),
    ensures
        ({
            let after = without_all(tables, eligible_ids(tables));
            let s = tables.sessions[i];
            if is_eligible(tables)(s) {
                &&& !after.has_session(s.id@)
                &&& forall|k: int|
                    0 <= k < after.chunks.len() ==> (#[trigger] after.chunks[k]).session_id@
                        != s.id@
                &&& forall|k: int|
                    0 <= k < after.events.len() ==> (#[trigger] after.events[k]).session_id@
                        != s.id@
                &&& forall|k: int|
                    0 <= k < after.runs.len() ==> (#[trigger] after.runs[k]).session_id@ != s.id@
                &&& forall|k: int|
                    0 <= k < after.jobs.len() ==> !belongs_to(
                        #[trigger] after.jobs[k],
                        tables.chunks,
                        s.id@,
                    )
            } else {
                &&& after.sessions.contains(s)
                &&& forall|k: int|
                    0 <= k < tables.chunks.len() && (#[trigger] tables.chunks[k]).session_id@
                        == s.id@ ==> after.chunks.contains(tables.chunks[k])
                &&& forall|k: int|
                    0 <= k < tables.events.len() && (#[trigger] tables.events[k]).session_id@
                        == s.id@ ==> after.events.contains(tables.events[k])
                &&& forall|k: int|
                    0 <= k < tables.runs.len() && (#[trigger] tables.runs[k]).session_id@ == s.id@
                        ==> after.runs.contains(tables.runs[k])
                &&& forall|k: int|
                    0 <= k < tables.jobs.len() && belongs_to(
                        #[trigger] tables.jobs[k],
                        tables.chunks,
                        s.id@,
                    ) ==> after.jobs.contains(tables.jobs[k])
            }
        }),
{
    let ids = eligible_ids(tables);
    let after = without_all(tables, ids);
    let s = tables.sessions[i];
    lemma_eligible_ids(tables, i);
    lemma_without_all(tables, ids);
    if is_eligible(tables)(s) {
        assert forall|k: int| 0 <= k < after.jobs.len() implies !belongs_to(
            #[trigger] after.jobs[k],
            tables.chunks,
            s.id@,
        ) by {
            if belongs_to(after.jobs[k], tables.chunks, s.id@) {
                assert(is_of_any(after.jobs[k], tables.chunks, ids));
            }
        }
    } else {
        assert forall|k: int|
            0 <= k < tables.jobs.len() && belongs_to(
                #[trigger] tables.jobs[k],
                tables.chunks,
                s.id@,
            ) implies after.jobs.contains(tables.jobs[k]) by {
            let job = tables.jobs[k];
            let c = choose|c: int|
                0 <= c < tables.chunks.len() && (#[trigger] tables.chunks[c]).id@
                    == job.audio_chunk_id@ && tables.chunks[c].session_id@ == s.id@;
            if is_of_any(job, tables.chunks, ids) {
                let d = choose|d: int|
                    0 <= d < tables.chunks.len() && (#[trigger] tables.chunks[d]).id@
                        == job.audio_chunk_id@ && ids.contains(tables.chunks[d].session_id@);
                if c < d {
                    assert(tables.chunks[c].id@ != tables.chunks[d].id@);
                } else if d < c {
                    assert(tables.chunks[d].id@ != tables.chunks[c].id@);
                }
            }
        }
    }
}

/// Applying a cleanup reports the files, bytes and meetings that its preview reported, and
/// a preview after it reports none.
pub proof fn law_cleanup_reports_what_was_previewed(
    tables: Tables,
    sessions: Seq<EligibleSession>,
    later: Seq<EligibleSession>,
)
    requires
        tables.wf(),
        ids_of(sessions) == eligible_ids(tables),
        ids_of(later) == eligible_ids(cleaned(tables, ids_of(sessions)).0),
    ensures
        cleaned(tables, ids_of(sessions)) == (without_all(tables, ids_of(sessions)), true),
        sessions.len() == tables.sessions.filter(is_eligible(tables)).len(),
        totals(later) == (0u64, 0u64),
        later.len() == 0,
{
    lemma_cleaning_a_sound_store(tables, ids_of(sessions));
    law_cleanup_leaves_nothing_to_clean(tables);
    assert(ids_of(later).len() == 0);
    assert(ids_of(later).len() == later.len());
    assert(ids_of(sessions).len() == sessions.len());
}

/// Where every row belongs to one session, every meeting can be deleted.
proof fn lemma_cleaning_a_sound_store(tables: Tables, ids: Seq<Seq<char>>)
    requires
        tables.wf(),
    ensures
        cleaned(tables, ids) == (without_all(tables, ids), true),
        without_all(tables, ids).wf(),
    decreases ids.len(),
{
    if ids.len() > 0 {
        let before = without_all(tables, ids.drop_last());
        lemma_cleaning_a_sound_store(tables, ids.drop_last());
        law_no_session_is_needed_by_others(before, ids.last());
        lemma_deletion_keeps_wf(before, ids.last());
    }
}

/// Once the meetings that may be deleted are deleted, none is left that may be.
pub proof fn law_cleanup_leaves_nothing_to_clean(tables: Tables)
    requires
        tables.wf(),
    ensures
        ({
            let after = without_all(tables, eligible_ids(tables));
            after.sessions.filter(is_eligible(after)) == Seq::<SessionRecord>::empty()
        }),
{
    let ids = eligible_ids(tables);
    let after = without_all(tables, ids);
    let p = is_eligible(after);
    let left = after.sessions.filter(p);
    lemma_without_all(tables, ids);
    lemma_kept(after.sessions, p);
    if left.len() > 0 {
        let s = left[0];
        assert(after.sessions.contains(s) && p(s));
        let j = choose|j: int| 0 <= j < after.sessions.len() && after.sessions[j] == s;
        assert(tables.sessions.contains(after.sessions[j]));
        let i = choose|i: int| 0 <= i < tables.sessions.len() && tables.sessions[i] == s;
        assert forall|c: int|
            0 <= c < tables.chunks.len() && (#[trigger] tables.chunks[c]).session_id@
                == s.id@ implies tables.chunk_has_event(tables.chunks[c].id@) by {
            let chunk = tables.chunks[c];
            assert(after.chunks.contains(chunk));
            let d = choose|d: int| 0 <= d < after.chunks.len() && after.chunks[d] == chunk;
            assert(after.chunk_has_event(after.chunks[d].id@));
            let e = choose|e: int|
                0 <= e < after.events.len() && (#[trigger] after.events[e]).audio_chunk_id@
                    == chunk.id@;
            assert(tables.events.contains(after.events[e]));
            let f = choose|f: int|
                0 <= f < tables.events.len() && tables.events[f] == after.events[e];
            assert(tables.events[f].audio_chunk_id@ == chunk.id@);
        }
        assert(is_eligible(tables)(tables.sessions[i]));
        lemma_eligible_ids(tables, i);
        assert(false);
    }
}

/// A meeting is listed for cleanup exactly where it is complete and each of its chunks has a
/// transcript.
pub proof fn law_cleanup_lists_what_is_transcribed(tables: Tables, session: SessionRecord)
    ensures
        tables.sessions.filter(is_eligible(tables)).contains(session) <==> {
            &&& tables.sessions.contains(session)
            &&& session.state == SessionState::Completed
            &&& forall|c: int|
                0 <= c < tables.chunks.len() && (#[trigger] tables.chunks[c]).session_id@
                    == session.id@ ==> exists|e: int|
                    0 <= e < tables.events.len() && (#[trigger] tables.events[e]).audio_chunk_id@
                        == tables.chunks[c].id@
        },
{
    crate::storage::deletion::lemma_filter_keeps(tables.sessions, is_eligible(tables), session);
    assert forall|c: int| 0 <= c < tables.chunks.len() implies tables.chunk_has_event(
        (#[trigger] tables.chunks[c]).id@,
    ) == exists|e: int|
        0 <= e < tables.events.len() && (#[trigger] tables.events[e]).audio_chunk_id@
            == tables.chunks[c].id@ by {}
}

/// What is reported are the files and bytes of all meetings together, as far as 64 bits can
/// hold them.
pub proof fn law_totals_add_up(sessions: Seq<EligibleSession>)
    ensures
        ({
            let files = sessions.fold_left(0int, |sum: int, s: EligibleSession| sum + s.files);
            let bytes = sessions.fold_left(0int, |sum: int, s: EligibleSession| sum + s.bytes);
            &&& 0 <= files
            &&& 0 <= bytes
            &&& totals(sessions).0 == if files <= u64::MAX {
                files
            } else {
                u64::MAX as int
            }
            &&& totals(sessions).1 == if bytes <= u64::MAX {
                bytes
            } else {
                u64::MAX as int
            }
        }),
    decreases sessions.len(),
{
    if sessions.len() > 0 {
        law_totals_add_up(sessions.drop_last());
    }
}

/// Each meeting has a line, in the order of the list.
pub proof fn law_each_meeting_has_a_line(sessions: Seq<EligibleSession>)
    ensures
        session_lines(sessions) == sessions.map_values(
            |s: EligibleSession|
                "session "@ + s.id@ + " — "@ + text::decimal(s.files as nat) + " files, "@
                    + size_text(s.bytes) + "\n"@,
        ).flatten(),
    decreases sessions.len(),
{
    let f = |s: EligibleSession|
        "session "@ + s.id@ + " — "@ + text::decimal(s.files as nat) + " files, "@ + size_text(
            s.bytes,
        ) + "\n"@;
    let parts = sessions.map_values(f);
    parts.lemma_flatten_and_flatten_alt_are_equivalent();
    if sessions.len() > 0 {
        let front = sessions.drop_last();
        law_each_meeting_has_a_line(front);
        let before = front.map_values(f);
        before.lemma_flatten_and_flatten_alt_are_equivalent();
        assert(parts.drop_last() =~= before);
    }
}

/// The last line says whether meetings are deleted or would be, and how much that is.
pub proof fn law_a_preview_says_that_it_is_one(sessions: Seq<EligibleSession>)
    ensures
        ({
            let amount = text::decimal(totals(sessions).0 as nat) + " files ("@ + size_text(
                totals(sessions).1,
            ) + ") across "@ + text::decimal(sessions.len());
            &&& summary_line(sessions, true) == "Deleting "@ + amount + " sessions.\n"@
            &&& summary_line(sessions, false) == "Would delete "@ + amount
                + " sessions. Re-run with --apply to delete.\n"@
        }),
{
}

} // verus!
