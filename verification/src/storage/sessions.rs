//! Sessions and the runs that transcribe them.

use crate::audio::AudioDevice;
use crate::config::ProviderKind;
use crate::error::{fails, AppError, ErrorKind, Result};
use crate::sorting::{rank, ranked, Ranked};
use crate::storage::types::{
    DeviceSnapshot, SessionRecord, SessionSnapshot, SessionState, TranscriptionRunRecord,
};
use crate::storage::{
    find_session, id_taken, lemma_rows_still_belong, missing_reference, no_reference, taken, Store,
    Tables,
};
use crate::text;
use vstd::prelude::*;

verus! {

pub open spec fn device_id(device: Option<&AudioDevice>) -> Option<String> {
    match device {
        Some(d) => Some(d.id),
        None => None,
    }
}

pub open spec fn device_description(device: Option<&AudioDevice>) -> Option<String> {
    match device {
        Some(d) => Some(d.description),
        None => None,
    }
}

fn id_of(device: Option<&AudioDevice>) -> (r: Option<String>)
    ensures
        r == device_id(device),
{
    match device {
        Some(d) => Some(d.id.clone()),
        None => None,
    }
}

fn description_of(device: Option<&AudioDevice>) -> (r: Option<String>)
    ensures
        r == device_description(device),
{
    match device {
        Some(d) => Some(d.description.clone()),
        None => None,
    }
}

/// Stores a session that begins now.
pub fn insert_running_session(
    store: &mut Store,
    id: &str,
    microphone: Option<&AudioDevice>,
    output: Option<&AudioDevice>,
    monitor: Option<&AudioDevice>,
    now: &String,
) -> (r: Result<SessionRecord>)
    ensures
        if old(store)@.has_session(id@) {
            fails(r, ErrorKind::Database, taken("sessions.id"@)) && final(store)@ == old(store)@
        } else {
            r matches Ok(record) && record.id@ == id@ && record == (SessionRecord {
                id: record.id,
                state: SessionState::Running,
                started_at: *now,
                ended_at: None,
                microphone_id: device_id(microphone),
                microphone_description: device_description(microphone),
                output_id: device_id(output),
                output_description: device_description(output),
                monitor_id: device_id(monitor),
                monitor_description: device_description(monitor),
                created_at: *now,
                title: None,
            }) && final(store)@ == (Tables {
                sessions: old(store)@.sessions.push(record),
                ..old(store)@
            })
        },
        old(store)@.wf() ==> final(store)@.wf(),
{
    if store.session_index(id).is_some() {
        return Err(id_taken("sessions.id"));
    }
    let record = SessionRecord {
        id: id.to_owned(),
        state: SessionState::Running,
        started_at: now.clone(),
        ended_at: None,
        microphone_id: id_of(microphone),
        microphone_description: description_of(microphone),
        output_id: id_of(output),
        output_description: description_of(output),
        monitor_id: id_of(monitor),
        monitor_description: description_of(monitor),
        created_at: now.clone(),
        title: None,
    };
    add_session(store, record.clone());
    Ok(record)
}

/// Appends a session.
pub fn add_session(store: &mut Store, record: SessionRecord)
    ensures
        final(store)@ == (Tables {
            sessions: old(store)@.sessions.push(record),
            ..old(store)@
        }),
        old(store)@.wf() && !old(store)@.has_session(record.id@) ==> final(store)@.wf(),
{
    let ghost was = store@;
    store.sessions.push(record);
    proof {
        let now = store@;
        if was.wf() && !was.has_session(record.id@) {
            assert forall|id: Seq<char>| was.has_session(id) implies #[trigger] now.has_session(
                id,
            ) by {
                let i = choose|i: int|
                    0 <= i < was.sessions.len() && (#[trigger] was.sessions[i]).id@ == id;
                assert(now.sessions[i].id@ == id);
            }
            assert forall|i: int, j: int| 0 <= i < j < now.sessions.len() implies (
            #[trigger] now.sessions[i]).id@ != (#[trigger] now.sessions[j]).id@ by {
                assert(now.sessions[i] == was.sessions[i]);
            }
            lemma_references_follow(was, now);
            lemma_rows_still_belong(was, now);
        }
    }
}

/// References hold as long as the rows that they name stay.
pub proof fn lemma_references_follow(was: Tables, now: Tables)
    requires
        was.references_hold(),
        now.chunks == was.chunks,
        now.jobs == was.jobs,
        now.events == was.events,
        forall|id: Seq<char>| was.has_session(id) ==> #[trigger] now.has_session(id),
        forall|i: int| 0 <= i < was.runs.len() ==> i < now.runs.len() && #[trigger] now.runs[i] == was.runs[i],
        forall|i: int|
            was.runs.len() <= i < now.runs.len() ==> now.has_session(
                (#[trigger] now.runs[i]).session_id@,
            ),
    ensures
        now.references_hold(),
{
    assert forall|id: Seq<char>| was.has_run(id) implies #[trigger] now.has_run(id) by {
        let i = choose|i: int| 0 <= i < was.runs.len() && (#[trigger] was.runs[i]).id@ == id;
        assert(now.runs[i].id@ == id);
    }
    assert forall|i: int| 0 <= i < now.runs.len() implies now.has_session(
        (#[trigger] now.runs[i]).session_id@,
    ) by {
        if i < was.runs.len() {
            assert(was.has_session(was.runs[i].session_id@));
        }
    }
    assert forall|i: int| 0 <= i < now.chunks.len() implies now.has_session(
        (#[trigger] now.chunks[i]).session_id@,
    ) by {
        assert(was.has_session(was.chunks[i].session_id@));
    }
    assert forall|i: int| 0 <= i < now.jobs.len() implies now.has_chunk(
        (#[trigger] now.jobs[i]).audio_chunk_id@,
    ) && now.has_run(now.jobs[i].run_id@) by {
        assert(was.has_chunk(was.jobs[i].audio_chunk_id@));
        assert(was.has_run(was.jobs[i].run_id@));
    }
    assert forall|i: int| 0 <= i < now.events.len() implies now.has_job(
        (#[trigger] now.events[i]).job_id@,
    ) && now.has_chunk(now.events[i].audio_chunk_id@) by {
        assert(was.has_job(was.events[i].job_id@));
        assert(was.has_chunk(was.events[i].audio_chunk_id@));
    }
}

/// Changing what is not the key of the sessions keeps the tables well formed.
pub proof fn lemma_same_session_keys(was: Tables, now: Tables)
    requires
        now == (Tables { sessions: now.sessions, ..was }),
        now.sessions.len() == was.sessions.len(),
        forall|i: int|
            0 <= i < was.sessions.len() ==> (#[trigger] now.sessions[i]).id == was.sessions[i].id,
    ensures
        was.wf() ==> now.wf(),
{
    if was.wf() {
        assert forall|id: Seq<char>| was.has_session(id) implies #[trigger] now.has_session(id) by {
            let i = choose|i: int|
                0 <= i < was.sessions.len() && (#[trigger] was.sessions[i]).id@ == id;
            assert(now.sessions[i].id@ == id);
        }
        lemma_references_follow(was, now);
        lemma_rows_still_belong(was, now);
    }
}

/// Whether `run` is a run of a session that was made now.
pub open spec fn is_new_run(
    run: TranscriptionRunRecord,
    id: Seq<char>,
    session_id: Seq<char>,
    provider: ProviderKind,
    model: Seq<char>,
    now: String,
) -> bool {
    &&& run.id@ == id
    &&& run.session_id@ == session_id
    &&& run.provider == provider
    &&& run.model matches Some(m) && m@ == model
    &&& run.created_at == now
}

/// Stores a run of a session that is there.
pub fn insert_run(
    store: &mut Store,
    session_id: &str,
    provider: ProviderKind,
    model: &str,
    id: &str,
    now: &String,
) -> (r: Result<TranscriptionRunRecord>)
    ensures
        if old(store)@.has_run(id@) {
            fails(r, ErrorKind::Database, taken("transcription_runs.id"@)) && final(store)@ == old(
                store,
            )@
        } else if !old(store)@.has_session(session_id@) {
            fails(r, ErrorKind::Database, no_reference()) && final(store)@ == old(store)@
        } else {
            r matches Ok(run) && is_new_run(run, id@, session_id@, provider, model@, *now)
                && final(store)@ == (Tables { runs: old(store)@.runs.push(run), ..old(store)@ })
        },
        old(store)@.wf() ==> final(store)@.wf(),
{
    if store.has_run_row(id) {
        return Err(id_taken("transcription_runs.id"));
    }
    if store.session_index(session_id).is_none() {
        return Err(missing_reference());
    }
    let ghost was = store@;
    let run = TranscriptionRunRecord {
        id: id.to_owned(),
        session_id: session_id.to_owned(),
        provider,
        model: Some(model.to_owned()),
        created_at: now.clone(),
    };
    store.runs.push(run.clone());
    proof {
        if was.wf() {
            let now = store@;
            assert forall|i: int, j: int| 0 <= i < j < now.runs.len() implies (
            #[trigger] now.runs[i]).id@ != (#[trigger] now.runs[j]).id@ by {
                assert(now.runs[i] == was.runs[i]);
            }
            assert forall|id: Seq<char>| was.has_session(id) implies #[trigger] now.has_session(
                id,
            ) by {
            }
            lemma_references_follow(was, now);
            lemma_rows_still_belong(was, now);
        }
    }
    Ok(run)
}

pub fn get_session(store: &Store, id: &str) -> (r: Option<SessionRecord>)
    ensures
        r == find_session(store.sessions@, id@),
{
    match store.session_index(id) {
        Some(i) => Some(store.sessions[i].clone()),
        None => None,
    }
}

/// Whether `i` is the run of the session that was created last; of runs created at
/// one time the first.
pub open spec fn is_latest_run(
    runs: Seq<TranscriptionRunRecord>,
    session_id: Seq<char>,
    i: int,
) -> bool {
    &&& 0 <= i < runs.len()
    &&& runs[i].session_id@ == session_id
    &&& forall|k: int|
        0 <= k < runs.len() && (#[trigger] runs[k]).session_id@ == session_id ==> text::text_le(
            runs[k].created_at@,
            runs[i].created_at@,
        ) && (k < i ==> runs[k].created_at@ != runs[i].created_at@)
}

pub open spec fn has_runs(runs: Seq<TranscriptionRunRecord>, session_id: Seq<char>) -> bool {
    exists|k: int| 0 <= k < runs.len() && (#[trigger] runs[k]).session_id@ == session_id
}

pub fn latest_run(store: &Store, session_id: &str) -> (r: Option<TranscriptionRunRecord>)
    ensures
        match r {
            Some(run) => exists|i: int|
                #[trigger] is_latest_run(store.runs@, session_id@, i) && store.runs@[i] == run,
            None => !has_runs(store.runs@, session_id@),
        },
{
    let mut best: Option<usize> = None;
    let mut i: usize = 0;
    while i < store.runs.len()
        invariant
            i <= store.runs@.len(),
            match best {
                Some(b) => b < i && is_latest_run(store.runs@.take(i as int), session_id@, b as int),
                None => forall|k: int|
                    0 <= k < i ==> (#[trigger] store.runs@[k]).session_id@ != session_id@,
            },
        decreases store.runs.len() - i,
    {
        let ghost before = store.runs@.take(i as int);
        let ghost after = store.runs@.take(i + 1);
        if text::same(store.runs[i].session_id.as_str(), session_id) {
            match best {
                None => {
                    best = Some(i);
                    proof {
                        text::lemma_text_le_total(
                            after[i as int].created_at@,
                            after[i as int].created_at@,
                        );
                        assert(is_latest_run(after, session_id@, i as int));
                    }
                },
                Some(b) => {
                    if !text::at_most(
                        store.runs[i].created_at.as_str(),
                        store.runs[b].created_at.as_str(),
                    ) {
                        best = Some(i);
                        proof {
                            let x = after[i as int].created_at@;
                            let y = after[b as int].created_at@;
                            text::lemma_text_le_total(x, y);
                            text::lemma_text_le_total(x, x);
                            assert forall|k: int|
                                0 <= k < after.len() && (#[trigger] after[k]).session_id@
                                    == session_id@ implies text::text_le(after[k].created_at@, x)
                                && (k < i ==> after[k].created_at@ != x) by {
                                if k < i {
                                    assert(before[k].session_id@ == session_id@);
                                    text::lemma_text_le_transitive(after[k].created_at@, y, x);
                                }
                            }
                        }
                    } else {
                        proof {
                            assert forall|k: int|
                                0 <= k < after.len() && (#[trigger] after[k]).session_id@
                                    == session_id@ implies text::text_le(
                                after[k].created_at@,
                                after[b as int].created_at@,
                            ) && (k < b ==> after[k].created_at@ != after[b as int].created_at@) by {
                                if k < i {
                                    assert(before[k].session_id@ == session_id@);
                                }
                            }
                        }
                    }
                },
            }
        } else {
            proof {
                if let Some(b) = best {
                    assert forall|k: int|
                        0 <= k < after.len() && (#[trigger] after[k]).session_id@
                            == session_id@ implies text::text_le(
                        after[k].created_at@,
                        after[b as int].created_at@,
                    ) && (k < b ==> after[k].created_at@ != after[b as int].created_at@) by {
                        assert(before[k].session_id@ == session_id@);
                    }
                }
            }
        }
        i += 1;
    }
    assert(store.runs@.take(i as int) =~= store.runs@);
    match best {
        Some(b) => {
            assert(is_latest_run(store.runs@, session_id@, b as int));
            Some(store.runs[b].clone())
        },
        None => None,
    }
}

/// A session in another state.
pub open spec fn with_state(
    session: SessionRecord,
    state: SessionState,
    ended_at: Option<String>,
) -> SessionRecord {
    SessionRecord { state, ended_at, ..session }
}

/// Puts a session into a state.
pub fn set_session_state(
    store: &mut Store,
    id: &str,
    state: SessionState,
    ended_at: Option<String>,
)
    ensures
        final(store)@ == (Tables {
            sessions: old(store)@.sessions.map_values(
                |s: SessionRecord|
                    if s.id@ == id@ {
                        with_state(s, state, ended_at)
                    } else {
                        s
                    },
            ),
            ..old(store)@
        }),
        old(store)@.wf() ==> final(store)@.wf(),
{
    let ghost was = store@;
    let mut i: usize = 0;
    while i < store.sessions.len()
        invariant
            i <= store.sessions@.len(),
            store.sessions@.len() == was.sessions.len(),
            store@ == (Tables { sessions: store@.sessions, ..was }),
            forall|k: int|
                0 <= k < i ==> store.sessions@[k] == if (#[trigger] was.sessions[k]).id@ == id@ {
                    with_state(was.sessions[k], state, ended_at)
                } else {
                    was.sessions[k]
                },
            forall|k: int|
                i <= k < was.sessions.len() ==> store.sessions@[k] == #[trigger] was.sessions[k],
        decreases store.sessions.len() - i,
    {
        if text::same(store.sessions[i].id.as_str(), id) {
            let mut session = store.sessions[i].clone();
            session.state = state;
            session.ended_at = ended_at.clone();
            store.sessions[i] = session;
        }
        i += 1;
    }
    proof {
        lemma_same_session_keys(was, store@);
    }
}

/// Sessions stand by their start, the latest first.
impl Ranked for SessionRecord {
    open spec fn ranks_before(&self, other: &Self) -> bool {
        text::text_le(other.started_at@, self.started_at@)
    }

    proof fn lemma_total(a: &Self, b: &Self) {
        text::lemma_text_le_total(a.started_at@, b.started_at@);
    }

    proof fn lemma_transitive(a: &Self, b: &Self, c: &Self) {
        text::lemma_text_le_transitive(c.started_at@, b.started_at@, a.started_at@);
    }

    fn may_precede(&self, other: &Self) -> (r: bool) {
        text::at_most(other.started_at.as_str(), self.started_at.as_str())
    }
}

fn copied_sessions(store: &Store) -> (r: Vec<SessionRecord>)
    ensures
        r@ == store.sessions@,
{
    let mut r: Vec<SessionRecord> = Vec::new();
    let mut i: usize = 0;
    while i < store.sessions.len()
        invariant
            i <= store.sessions@.len(),
            r@ == store.sessions@.take(i as int),
        decreases store.sessions.len() - i,
    {
        r.push(store.sessions[i].clone());
        i += 1;
        assert(r@ =~= store.sessions@.take(i as int));
    }
    assert(store.sessions@.take(i as int) =~= store.sessions@);
    r
}

/// All sessions, the latest first.
pub fn list_sessions(store: &Store) -> (r: Vec<SessionRecord>)
    ensures
        r@ == ranked(store.sessions@),
{
    rank(copied_sessions(store))
}

/// The first session that runs.
pub open spec fn first_running(sessions: Seq<SessionRecord>) -> Option<SessionRecord>
    decreases sessions.len(),
{
    if sessions.len() == 0 {
        None
    } else if sessions[0].state == SessionState::Running {
        Some(sessions[0])
    } else {
        first_running(sessions.drop_first())
    }
}

/// The session that runs; of several the one that began last.
pub fn get_running_session(store: &Store) -> (r: Option<SessionRecord>)
    ensures
        r == first_running(ranked(store.sessions@)),
{
    let sessions = list_sessions(store);
    let mut i: usize = 0;
    assert(sessions@.skip(0) =~= sessions@);
    while i < sessions.len()
        invariant
            i <= sessions@.len(),
            sessions@ == ranked(store.sessions@),
            first_running(sessions@) == first_running(sessions@.skip(i as int)),
        decreases sessions.len() - i,
    {
        assert(sessions@.skip(i as int).drop_first() =~= sessions@.skip(i + 1));
        if sessions[i].state == SessionState::Running {
            return Some(sessions[i].clone());
        }
        i += 1;
    }
    None
}

/// How many sessions run.
pub open spec fn count_running(sessions: Seq<SessionRecord>) -> nat
    decreases sessions.len(),
{
    if sessions.len() == 0 {
        0
    } else {
        count_running(sessions.drop_last()) + if sessions.last().state == SessionState::Running {
            1nat
        } else {
            0nat
        }
    }
}

/// A session that runs is interrupted.
pub open spec fn interrupted(session: SessionRecord, now: String) -> SessionRecord {
    if session.state == SessionState::Running {
        with_state(session, SessionState::Interrupted, Some(now))
    } else {
        session
    }
}

/// Sessions that run are interrupted. Returns how many did.
pub fn interrupt_running_sessions(store: &mut Store, now: &String) -> (r: usize)
    ensures
        final(store)@ == (Tables {
            sessions: old(store)@.sessions.map_values(|s: SessionRecord| interrupted(s, *now)),
            ..old(store)@
        }),
        r == count_running(old(store)@.sessions),
        old(store)@.wf() ==> final(store)@.wf(),
{
    let ghost was = store@;
    let mut changed: usize = 0;
    let mut i: usize = 0;
    while i < store.sessions.len()
        invariant
            i <= store.sessions@.len(),
            store.sessions@.len() == was.sessions.len(),
            store@ == (Tables { sessions: store@.sessions, ..was }),
            forall|k: int|
                0 <= k < i ==> store.sessions@[k] == interrupted(#[trigger] was.sessions[k], *now),
            forall|k: int|
                i <= k < was.sessions.len() ==> store.sessions@[k] == #[trigger] was.sessions[k],
            changed == count_running(was.sessions.take(i as int)),
            changed <= i,
        decreases store.sessions.len() - i,
    {
        proof {
            assert(was.sessions.take(i + 1).drop_last() =~= was.sessions.take(i as int));
        }
        if store.sessions[i].state == SessionState::Running {
            let mut session = store.sessions[i].clone();
            session.state = SessionState::Interrupted;
            session.ended_at = Some(now.clone());
            store.sessions[i] = session;
            changed += 1;
        }
        i += 1;
    }
    assert(was.sessions.take(i as int) =~= was.sessions);
    proof {
        lemma_same_session_keys(was, store@);
    }
    changed
}

/// After sessions were interrupted none runs.
pub proof fn law_interrupting_leaves_no_running_session(
    sessions: Seq<SessionRecord>,
    now: String,
    i: int,
)
    requires
        0 <= i < sessions.len(),
    ensures
        sessions.map_values(|s: SessionRecord| interrupted(s, now))[i].state
            != SessionState::Running,
{
}

/// The message for a session that is not there.
pub open spec fn session_not_found(id: Seq<char>) -> Seq<char> {
    "Session "@ + id + " not found"@
}

pub fn not_found(id: &str) -> (e: AppError)
    ensures
        e@ == (ErrorKind::Other, session_not_found(id@)),
{
    let message = text::concat3("Session ", id, " not found");
    AppError::other(message.as_str())
}

/// Gives a session a title.
pub fn set_session_title(store: &mut Store, id: &str, title: &str) -> (r: Result<()>)
    ensures
        if old(store)@.has_session(id@) {
            &&& r is Ok
            &&& final(store)@.sessions.len() == old(store)@.sessions.len()
            &&& final(store)@ == (Tables { sessions: final(store)@.sessions, ..old(store)@ })
            &&& forall|k: int|
                #![trigger final(store)@.sessions[k]]
                0 <= k < old(store)@.sessions.len() ==> {
                    let was = old(store)@.sessions[k];
                    let now = final(store)@.sessions[k];
                    if was.id@ == id@ {
                        &&& now == (SessionRecord { title: now.title, ..was })
                        &&& now.title matches Some(t) && t@ == title@
                    } else {
                        now == was
                    }
                }
        } else {
            fails(r, ErrorKind::Other, session_not_found(id@)) && final(store)@ == old(store)@
        },
        old(store)@.wf() ==> final(store)@.wf(),
{
    let ghost was = store@;
    let mut changed = false;
    let mut i: usize = 0;
    while i < store.sessions.len()
        invariant
            i <= store.sessions@.len(),
            store.sessions@.len() == was.sessions.len(),
            store@ == (Tables { sessions: store@.sessions, ..was }),
            forall|k: int|
                #![trigger store.sessions@[k]]
                0 <= k < i ==> if was.sessions[k].id@ == id@ {
                    &&& store.sessions@[k] == (SessionRecord {
                        title: store.sessions@[k].title,
                        ..was.sessions[k]
                    })
                    &&& store.sessions@[k].title matches Some(t) && t@ == title@
                } else {
                    store.sessions@[k] == was.sessions[k]
                },
            forall|k: int|
                i <= k < was.sessions.len() ==> #[trigger] store.sessions@[k] == was.sessions[k],
            changed == (exists|k: int| 0 <= k < i && (#[trigger] was.sessions[k]).id@ == id@),
        decreases store.sessions.len() - i,
    {
        assert(store.sessions@[i as int] == was.sessions[i as int]);
        if text::same(store.sessions[i].id.as_str(), id) {
            let mut session = store.sessions[i].clone();
            session.title = Some(title.to_owned());
            store.sessions[i] = session;
            changed = true;
        }
        i += 1;
    }
    proof {
        lemma_same_session_keys(was, store@);
    }
    if !changed {
        assert(store@.sessions =~= was.sessions);
        return Err(not_found(id));
    }
    Ok(())
}

/// A device of which both parts are known.
pub open spec fn whole_device(id: Option<String>, description: Option<String>) -> Option<
    DeviceSnapshot,
> {
    match (id, description) {
        (Some(id), Some(description)) => Some(DeviceSnapshot { id, description }),
        _ => None,
    }
}

fn device_snapshot(id: &Option<String>, description: &Option<String>) -> (r: Option<DeviceSnapshot>)
    ensures
        r == whole_device(*id, *description),
{
    match (id, description) {
        (Some(id), Some(description)) => Some(
            DeviceSnapshot { id: id.clone(), description: description.clone() },
        ),
        _ => None,
    }
}

/// A session as it is written to `session.json`.
pub open spec fn snapshot_of(record: SessionRecord) -> SessionSnapshot {
    SessionSnapshot {
        id: record.id,
        state: record.state,
        started_at: record.started_at,
        ended_at: record.ended_at,
        microphone: whole_device(record.microphone_id, record.microphone_description),
        output: whole_device(record.output_id, record.output_description),
        monitor: whole_device(record.monitor_id, record.monitor_description),
        title: record.title,
    }
}

pub fn snapshot_from_record(record: &SessionRecord) -> (r: SessionSnapshot)
    ensures
        r == snapshot_of(*record),
{
    SessionSnapshot {
        id: record.id.clone(),
        state: record.state,
        started_at: record.started_at.clone(),
        ended_at: record.ended_at.clone(),
        microphone: device_snapshot(&record.microphone_id, &record.microphone_description),
        output: device_snapshot(&record.output_id, &record.output_description),
        monitor: device_snapshot(&record.monitor_id, &record.monitor_description),
        title: record.title.clone(),
    }
}

/// Sessions are listed with the one that began last first; none is lost.
pub proof fn law_the_latest_session_comes_first(sessions: Seq<SessionRecord>, i: int, j: int)
    requires
        0 <= i < j < sessions.len(),
    ensures
        text::text_le(ranked(sessions)[j].started_at@, ranked(sessions)[i].started_at@),
        ranked(sessions).len() == sessions.len(),
        ranked(sessions).to_multiset() == sessions.to_multiset(),
{
    crate::sorting::law_ranking_keeps_all_values_in_order(sessions);
    let r = ranked(sessions);
    assert(r[i].ranks_before(&r[j]));
}

/// The session that runs is the first that does; there is none only where none runs.
pub proof fn law_the_running_session_is_found(sessions: Seq<SessionRecord>)
    ensures
        first_running(sessions) matches Some(s) ==> sessions.contains(s) && s.state
            == SessionState::Running,
        first_running(sessions) is None <==> forall|i: int|
            0 <= i < sessions.len() ==> (#[trigger] sessions[i]).state != SessionState::Running,
    decreases sessions.len(),
{
    if sessions.len() > 0 {
        let rest = sessions.drop_first();
        law_the_running_session_is_found(rest);
        if sessions[0].state == SessionState::Running {
            assert(sessions.contains(sessions[0]));
        } else {
            if let Some(s) = first_running(rest) {
                let i = choose|i: int| 0 <= i < rest.len() && rest[i] == s;
                assert(sessions[i + 1] == s);
            } else {
                assert forall|i: int| 0 <= i < sessions.len() implies (
                #[trigger] sessions[i]).state != SessionState::Running by {
                    if i > 0 {
                        assert(rest[i - 1] == sessions[i]);
                    }
                }
            }
        }
    }
}

/// A session that runs is interrupted with the time, and keeps everything else; one that
/// is over stays as it is.
pub proof fn law_interruption_changes_running_sessions_alone(session: SessionRecord, now: String)
    ensures
        session.state == SessionState::Running ==> interrupted(session, now) == (SessionRecord {
            state: SessionState::Interrupted,
            ended_at: Some(now),
            ..session
        }),
        session.state != SessionState::Running ==> interrupted(session, now) == session,
{
}

/// The sessions that run are counted one by one.
pub proof fn law_running_sessions_are_counted(sessions: Seq<SessionRecord>)
    ensures
        count_running(sessions) == sessions.filter(
            |s: SessionRecord| s.state == SessionState::Running,
        ).len(),
    decreases sessions.len(),
{
    reveal(Seq::filter);
    if sessions.len() > 0 {
        law_running_sessions_are_counted(sessions.drop_last());
    }
}

/// What is written of a session is what is stored of it; a device is written where both its
/// name and its description are known.
pub proof fn law_snapshots_show_the_record(record: SessionRecord)
    ensures
        ({
            let s = snapshot_of(record);
            &&& s.id == record.id
            &&& s.state == record.state
            &&& s.started_at == record.started_at
            &&& s.ended_at == record.ended_at
            &&& s.title == record.title
            &&& s.microphone matches Some(d) ==> record.microphone_id == Some(d.id)
                && record.microphone_description == Some(d.description)
            &&& s.output matches Some(d) ==> record.output_id == Some(d.id)
                && record.output_description == Some(d.description)
            &&& s.monitor matches Some(d) ==> record.monitor_id == Some(d.id)
                && record.monitor_description == Some(d.description)
            &&& s.microphone is Some <==> record.microphone_id is Some
                && record.microphone_description is Some
            &&& s.output is Some <==> record.output_id is Some && record.output_description is Some
            &&& s.monitor is Some <==> record.monitor_id is Some
                && record.monitor_description is Some
        }),
{
}

/// A session that is given another state keeps everything but its end.
pub proof fn law_a_state_is_set_alone(
    session: SessionRecord,
    state: SessionState,
    ended_at: Option<String>,
)
    ensures
        with_state(session, state, ended_at) == (SessionRecord { state, ended_at, ..session }),
{
}

/// A new run is made of what it was asked for with.
pub proof fn law_a_new_run_is_what_was_asked_for(
    run: TranscriptionRunRecord,
    id: Seq<char>,
    session_id: Seq<char>,
    provider: ProviderKind,
    model: Seq<char>,
    now: String,
)
    requires
        is_new_run(run, id, session_id, provider, model, now),
    ensures
        run.id@ == id,
        run.session_id@ == session_id,
        run.provider == provider,
        run.model matches Some(m) && m@ == model,
        run.created_at@ == now@,
{
}

/// No run of a session was made after its latest, and of those made at one time the first
/// counts.
pub proof fn law_no_run_is_later_than_the_latest(
    runs: Seq<TranscriptionRunRecord>,
    session_id: Seq<char>,
    i: int,
    k: int,
)
    requires
        is_latest_run(runs, session_id, i),
        0 <= k < runs.len(),
        runs[k].session_id@ == session_id,
    ensures
        runs[i].session_id@ == session_id,
        text::text_le(runs[k].created_at@, runs[i].created_at@),
        runs[k].created_at@ == runs[i].created_at@ ==> i <= k,
{
}

/// A session keeps the identifiers and descriptions of its devices.
pub proof fn law_a_session_keeps_its_devices(d: AudioDevice)
    ensures
        device_id(Some(&d)) == Some(d.id),
        device_description(Some(&d)) == Some(d.description),
        device_id(None) is None,
        device_description(None) is None,
{
}

} // verus!
