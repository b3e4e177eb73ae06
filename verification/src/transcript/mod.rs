//! The transcript of a meeting as text.

use std::cmp::Ordering;

use crate::audio::AudioSource;
use crate::error::{fails, ErrorKind, Result};
use crate::sorting::{law_ranking_keeps_all_values_in_order, rank, ranked, Ranked};
use crate::storage::chunks::lemma_source_names_differ;
use crate::storage::events::{
    is_canonical_of, is_restamped, list_canonical_events, restamp_canonical_events_from_audio,
    AudioFile, TranscriptEventRecord,
};
use crate::storage::sessions::{not_found, session_not_found};
use crate::storage::types::AudioChunkRecord;
use crate::storage::{find_session, Store};
use crate::text;
use crate::timeutil::{
    format_offset, four_digits_anywhere, invalid_timestamp, is_about, is_local_stamp, is_shown,
    law_local_stamps_keep_the_time, local_display, not_later, parse_rfc3339, parsed_time,
    rfc3339_parsed, UtcTime,
};
use crate::tree::{
    fields_model, is_flat, is_json_line, json_text, number_value, object_value, put, text_value,
    write_json, Tree, TreeModel,
};
use vstd::prelude::*;

verus! {

/// Whether a start is no later than another; a missing one is the earliest.
pub open spec fn starts_no_later(a: Option<UtcTime>, b: Option<UtcTime>) -> bool {
    match (a, b) {
        (None, _) => true,
        (Some(_), None) => false,
        (Some(x), Some(y)) => not_later(x, y),
    }
}

/// Transcripts stand by their start, then by the name of their source, then by number.
impl Ranked for TranscriptEventRecord {
    open spec fn ranks_before(&self, other: &Self) -> bool {
        let a = parsed_time(self.started_at@);
        let b = parsed_time(other.started_at@);
        if a != b {
            starts_no_later(a, b)
        } else if self.source != other.source {
            text::text_le(self.source.name(), other.source.name())
        } else {
            self.sequence <= other.sequence
        }
    }

    proof fn lemma_total(a: &Self, b: &Self) {
        text::lemma_text_le_total(a.source.name(), b.source.name());
    }

    proof fn lemma_transitive(a: &Self, b: &Self, c: &Self) {
        lemma_source_names_differ();
    }

    fn may_precede(&self, other: &Self) -> (r: bool) {
        let a = start_of(self);
        let b = start_of(other);
        match (a, b) {
            (None, Some(_)) => true,
            (Some(_), None) => false,
            (Some(x), Some(y)) => if x != y {
                x.at_most(y)
            } else {
                source_and_number_at_most(self, other)
            },
            (None, None) => source_and_number_at_most(self, other),
        }
    }
}

fn start_of(event: &TranscriptEventRecord) -> (r: Option<UtcTime>)
    ensures
        r == parsed_time(event.started_at@),
{
    match parse_rfc3339(event.started_at.as_str()) {
        Ok(t) => Some(t),
        Err(_) => None,
    }
}

fn source_and_number_at_most(a: &TranscriptEventRecord, b: &TranscriptEventRecord) -> (r: bool)
    ensures
        r == if a.source != b.source {
            text::text_le(a.source.name(), b.source.name())
        } else {
            a.sequence <= b.sequence
        },
{
    if a.source != b.source {
        text::at_most(a.source.as_str(), b.source.as_str())
    } else {
        a.sequence <= b.sequence
    }
}

/// How two transcripts stand to each other.
pub fn cmp_events(a: &TranscriptEventRecord, b: &TranscriptEventRecord) -> (r: Ordering)
    ensures
        match r {
            Ordering::Less => a.ranks_before(b) && !b.ranks_before(a),
            Ordering::Equal => a.ranks_before(b) && b.ranks_before(a),
            Ordering::Greater => b.ranks_before(a) && !a.ranks_before(b),
        },
{
    proof {
        TranscriptEventRecord::lemma_total(a, b);
    }
    if a.may_precede(b) {
        if b.may_precede(a) {
            Ordering::Equal
        } else {
            Ordering::Less
        }
    } else {
        Ordering::Greater
    }
}

/// Sorts transcripts; those that tie keep their order.
pub fn sort_events(events: &mut Vec<TranscriptEventRecord>)
    ensures
        final(events)@ == ranked(old(events)@),
{
    let mut all: Vec<TranscriptEventRecord> = Vec::new();
    std::mem::swap(&mut all, events);
    *events = rank(all);
}

/// Whether a source has a transcript with words.
pub open spec fn speaks(events: Seq<TranscriptEventRecord>, source: AudioSource) -> bool {
    exists|i: int|
        0 <= i < events.len() && (#[trigger] events[i]).source == source && !text::is_blank(
            events[i].text@,
        )
}

/// How many sources have a transcript with words.
pub fn sources_with_text(events: &Vec<TranscriptEventRecord>) -> (r: usize)
    ensures
        r == (if speaks(events@, AudioSource::Mic) {
            1int
        } else {
            0int
        }) + (if speaks(events@, AudioSource::System) {
            1int
        } else {
            0int
        }),
{
    let mut mic = false;
    let mut system = false;
    let mut i: usize = 0;
    while i < events.len()
        invariant
            i <= events@.len(),
            mic == exists|k: int|
                0 <= k < i && (#[trigger] events@[k]).source == AudioSource::Mic && !text::is_blank(
                    events@[k].text@,
                ),
            system == exists|k: int|
                0 <= k < i && (#[trigger] events@[k]).source == AudioSource::System
                    && !text::is_blank(events@[k].text@),
        decreases events.len() - i,
    {
        if !text::blank(events[i].text.as_str()) {
            match events[i].source {
                AudioSource::Mic => {
                    mic = true;
                },
                AudioSource::System => {
                    system = true;
                },
            }
        }
        i += 1;
    }
    let a: usize = if mic {
        1
    } else {
        0
    };
    let b: usize = if system {
        1
    } else {
        0
    };
    a + b
}

/// Whether headers are left out: that was asked for, and at most one source has words.
pub open spec fn hides_headers(events: Seq<TranscriptEventRecord>, omit: bool) -> bool {
    omit && !(speaks(events, AudioSource::Mic) && speaks(events, AudioSource::System))
}

pub open spec fn header_label(source: AudioSource) -> Seq<char> {
    match source {
        AudioSource::Mic => "MIC"@,
        AudioSource::System => "SYSTEM"@,
    }
}

/// What the transcript says of one stretch of speech that began at `time`.
pub open spec fn entry(event: TranscriptEventRecord, time: Seq<char>, hide: bool) -> Seq<char> {
    let words = text::trimmed(event.text@);
    if hide && words.len() == 0 {
        Seq::empty()
    } else if hide {
        "\n"@ + words + "\n"@
    } else {
        "\n"@ + time + " ["@ + header_label(event.source) + "]\n"@ + words + "\n"@
    }
}

/// The entries one after the other.
pub open spec fn entries(
    events: Seq<TranscriptEventRecord>,
    times: Seq<Seq<char>>,
    hide: bool,
) -> Seq<char>
    decreases events.len(),
{
    if events.len() == 0 {
        Seq::empty()
    } else {
        entries(events.drop_last(), times, hide) + entry(
            events.last(),
            times[events.len() - 1],
            hide,
        )
    }
}

/// The line with the title, where there is one.
pub open spec fn title_line(title: Option<Seq<char>>) -> Seq<char> {
    match title {
        Some(t) => if text::is_blank(t) {
            Seq::empty()
        } else {
            "Title: "@ + text::trimmed(t) + "\n"@
        },
        None => Seq::empty(),
    }
}

/// The part of the transcript before its entries.
pub open spec fn preamble(
    session_id: Seq<char>,
    started: Seq<char>,
    title: Option<Seq<char>>,
) -> Seq<char> {
    "# Audio session\n\n"@ + title_line(title) + "Session: "@ + session_id + "\nStarted: "@
        + started + "\n\n## Transcript\n"@
}

/// The transcript in Markdown. `started` and `times` are how the start of the session
/// and of each entry are shown.
pub open spec fn markdown(
    session_id: Seq<char>,
    started: Seq<char>,
    events: Seq<TranscriptEventRecord>,
    times: Seq<Seq<char>>,
    omit: bool,
    title: Option<Seq<char>>,
) -> Seq<char> {
    preamble(session_id, started, title) + entries(events, times, hides_headers(events, omit))
}

pub open spec fn str_of(o: Option<&str>) -> Option<Seq<char>> {
    match o {
        Some(s) => Some(s@),
        None => None,
    }
}

fn push_entry(out: &mut String, event: &TranscriptEventRecord, time: &str, hide: bool)
    ensures
        final(out)@ == old(out)@ + entry(*event, time@, hide),
{
    let ghost was = out@;
    let words = text::trim(event.text.as_str());
    if hide {
        if words.as_str().is_empty() {
            assert(out@ =~= was + entry(*event, time@, hide));
            return;
        }
        let line = text::concat3("\n", words.as_str(), "\n");
        out.append(line.as_str());
        return;
    }
    let label = match event.source {
        AudioSource::Mic => "MIC",
        AudioSource::System => "SYSTEM",
    };
    let head = text::concat5("\n", time, " [", label, "]\n");
    let line = text::concat3(head.as_str(), words.as_str(), "\n");
    out.append(line.as_str());
}

/// The transcript in Markdown, with the times as they are shown.
pub fn render_markdown_with(
    session_id: &str,
    started_display: &str,
    events: &Vec<TranscriptEventRecord>,
    times: &Vec<String>,
    omit_single_source_headers: bool,
    title: Option<&str>,
) -> (r: String)
    requires
        times@.len() == events@.len(),
    ensures
        r@ == markdown(
            session_id@,
            started_display@,
            events@,
            text::views(times@),
            omit_single_source_headers,
            str_of(title),
        ),
{
    let heading = match title {
        Some(t) => {
            if text::blank(t) {
                String::new()
            } else {
                text::concat3("Title: ", text::trim(t).as_str(), "\n")
            }
        },
        None => String::new(),
    };
    assert(heading@ =~= title_line(str_of(title)));
    let first = text::concat4("# Audio session\n\n", heading.as_str(), "Session: ", session_id);
    let mut out = text::concat4(
        first.as_str(),
        "\nStarted: ",
        started_display,
        "\n\n## Transcript\n",
    );
    let ghost head = out@;
    assert(head =~= preamble(session_id@, started_display@, str_of(title)));
    let hide = omit_single_source_headers && sources_with_text(events) <= 1;
    let mut i: usize = 0;
    assert(events@.take(0) =~= Seq::empty());
    while i < events.len()
        invariant
            i <= events@.len(),
            times@.len() == events@.len(),
            out@ == head + entries(events@.take(i as int), text::views(times@), hide),
        decreases events.len() - i,
    {
        let ghost before = out@;
        push_entry(&mut out, &events[i], times[i].as_str(), hide);
        i += 1;
        proof {
            let now = events@.take(i as int);
            assert(now.drop_last() =~= events@.take(i - 1));
            assert(text::views(times@)[i - 1] == times@[i - 1]@);
            assert(out@ =~= head + entries(now, text::views(times@), hide));
        }
    }
    assert(events@.take(i as int) =~= events@);
    out
}

/// Whether this is how a text is shown: a time in some time zone in this format, another
/// text as it is.
pub open spec fn shows(shown: Seq<char>, value: Seq<char>, format: Seq<char>) -> bool {
    match parsed_time(value) {
        Some(t) => is_shown(shown, t, format),
        None => shown == value,
    }
}

/// How a time is shown: in the time zone of the machine, or as it is written where it
/// is no time.
fn shown_time(value: &str, format: &str) -> (r: String)
    requires
        crate::timeutil::is_display_format(format@),
    ensures
        shows(r@, value@, format@),
{
    match local_display(value, format) {
        Some(shown) => shown,
        None => value.to_owned(),
    }
}

/// Whether these are how the starts of the transcripts are shown.
pub open spec fn are_shown(events: Seq<TranscriptEventRecord>, times: Seq<Seq<char>>) -> bool {
    &&& times.len() == events.len()
    &&& forall|i: int|
        0 <= i < events.len() ==> shows(
            #[trigger] times[i],
            events[i].started_at@,
            "%H:%M:%S"@,
        )
}

/// How the start of each transcript is shown.
pub fn shown_starts(events: &Vec<TranscriptEventRecord>) -> (r: Vec<String>)
    ensures
        are_shown(events@, text::views(r@)),
{
    let mut times: Vec<String> = Vec::new();
    let mut i: usize = 0;
    while i < events.len()
        invariant
            i <= events@.len(),
            times@.len() == i,
            forall|k: int|
                0 <= k < i ==> shows(
                    (#[trigger] times@[k])@,
                    events@[k].started_at@,
                    "%H:%M:%S"@,
                ),
        decreases events.len() - i,
    {
        times.push(shown_time(events[i].started_at.as_str(), "%H:%M:%S"));
        i += 1;
    }
    times
}

/// The transcript in Markdown, with times in the time zone of the machine: the start of
/// the session with its date, the starts of the entries by the clock alone. A text that
/// is no time is shown as it is.
pub fn render_markdown(
    session_id: &str,
    started_at: &str,
    events: &Vec<TranscriptEventRecord>,
    omit_single_source_headers: bool,
    title: Option<&str>,
) -> (r: String)
    ensures
        exists|started: Seq<char>, times: Seq<Seq<char>>|
            are_shown(events@, times) && shows(started, started_at@, "%Y-%m-%d %H:%M:%S %:z"@)
                && r@ == #[trigger] markdown(
                session_id@,
                started,
                events@,
                times,
                omit_single_source_headers,
                str_of(title),
            ),
{
    let started = shown_time(started_at, "%Y-%m-%d %H:%M:%S %:z");
    let times = shown_starts(events);
    render_markdown_with(
        session_id,
        started.as_str(),
        events,
        &times,
        omit_single_source_headers,
        title,
    )
}

proof fn lemma_infix(a: Seq<char>, p: Seq<char>, b: Seq<char>)
    ensures
        text::has_infix(a + p + b, p),
{
    let s = a + p + b;
    let at = a.len() as int;
    assert(s.subrange(at, at + p.len()) =~= p);
    assert(text::occurs_at(s, p, at));
}

proof fn lemma_infix_grows(a: Seq<char>, s: Seq<char>, b: Seq<char>, p: Seq<char>)
    requires
        text::has_infix(s, p),
    ensures
        text::has_infix(a + s + b, p),
{
    let i = choose|i: int| text::occurs_at(s, p, i);
    let whole = a + s + b;
    let at = a.len() + i;
    assert(whole.subrange(at, at + p.len()) =~= s.subrange(i, i + p.len()));
    assert(text::occurs_at(whole, p, at));
}

proof fn lemma_entries_hold(
    events: Seq<TranscriptEventRecord>,
    times: Seq<Seq<char>>,
    hide: bool,
    i: int,
)
    requires
        0 <= i < events.len(),
    ensures
        text::has_infix(entries(events, times, hide), entry(events[i], times[i], hide)),
    decreases events.len(),
{
    let front = entries(events.drop_last(), times, hide);
    let last = entry(events.last(), times[events.len() - 1], hide);
    if i == events.len() - 1 {
        lemma_infix(front, last, Seq::empty());
        assert(front + last + Seq::<char>::empty() =~= front + last);
    } else {
        lemma_entries_hold(events.drop_last(), times, hide, i);
        lemma_infix_grows(Seq::empty(), front, last, entry(events[i], times[i], hide));
        assert(Seq::<char>::empty() + front + last =~= front + last);
    }
}

/// Every stretch of speech is in the transcript, with the words as they were heard but
/// for space around them; where headers are shown, also its time and source.
pub proof fn law_transcript_holds_every_entry(
    session_id: Seq<char>,
    started: Seq<char>,
    events: Seq<TranscriptEventRecord>,
    times: Seq<Seq<char>>,
    omit: bool,
    title: Option<Seq<char>>,
    i: int,
)
    requires
        0 <= i < events.len(),
        times.len() == events.len(),
    ensures
        text::has_infix(
            markdown(session_id, started, events, times, omit, title),
            entry(events[i], times[i], hides_headers(events, omit)),
        ),
        text::has_infix(
            markdown(session_id, started, events, times, omit, title),
            text::trimmed(events[i].text@),
        ),
{
    let hide = hides_headers(events, omit);
    let body = entries(events, times, hide);
    let head = preamble(session_id, started, title);
    let e = entry(events[i], times[i], hide);
    let words = text::trimmed(events[i].text@);
    let whole = markdown(session_id, started, events, times, omit, title);
    lemma_entries_hold(events, times, hide, i);
    lemma_infix_grows(head, body, Seq::empty(), e);
    assert(head + body + Seq::<char>::empty() =~= whole);
    if hide && words.len() == 0 {
        lemma_infix(Seq::empty(), words, whole);
        assert(Seq::<char>::empty() + words + whole =~= whole);
    } else {
        if hide {
            lemma_infix("\n"@, words, "\n"@);
        } else {
            lemma_infix(
                "\n"@ + times[i] + " ["@ + header_label(events[i].source) + "]\n"@,
                words,
                "\n"@,
            );
        }
        let k = choose|k: int| text::occurs_at(whole, e, k);
        let inside = whole.subrange(k, k + e.len());
        assert(inside == e);
        lemma_infix_grows(whole.take(k), e, whole.skip(k + e.len()), words);
        assert(whole.take(k) + e + whole.skip(k + e.len()) =~= whole);
    }
}

/// With one speaker alone and headers to be left out, no entry shows its time or
/// source, and blank entries are gone.
pub proof fn law_a_lone_source_has_no_headers(
    events: Seq<TranscriptEventRecord>,
    source: AudioSource,
    i: int,
    time: Seq<char>,
)
    requires
        0 <= i < events.len(),
        !speaks(events, source),
    ensures
        entry(events[i], time, hides_headers(events, true)) == if text::trimmed(
            events[i].text@,
        ).len() == 0 {
            Seq::empty()
        } else {
            "\n"@ + text::trimmed(events[i].text@) + "\n"@
        },
{
}

/// What a line of the machine-readable transcript says.
pub open spec fn line_model(
    event: TranscriptEventRecord,
    started: Seq<char>,
    ended: Seq<char>,
) -> TreeModel {
    TreeModel::Object(
        seq![
            ("source"@, TreeModel::Text(event.source.name())),
            ("sequence"@, TreeModel::Number(text::decimal(event.sequence as nat))),
            ("started_at"@, TreeModel::Text(started)),
            ("ended_at"@, TreeModel::Text(ended)),
            ("text"@, TreeModel::Text(event.text@)),
            ("provider"@, TreeModel::Text(event.provider.name())),
            ("model"@, TreeModel::Text(event.model@)),
        ],
    )
}

/// The machine-readable transcript: a line of JSON for each stretch of speech. `times`
/// are how its start and end are written.
pub open spec fn jsonl(
    events: Seq<TranscriptEventRecord>,
    times: Seq<(Seq<char>, Seq<char>)>,
) -> Seq<char>
    decreases events.len(),
{
    if events.len() == 0 {
        Seq::empty()
    } else {
        let n = events.len() - 1;
        jsonl(events.drop_last(), times) + json_text(
            line_model(events.last(), times[n].0, times[n].1),
        ) + "\n"@
    }
}

proof fn lemma_lines_hold(
    events: Seq<TranscriptEventRecord>,
    times: Seq<(Seq<char>, Seq<char>)>,
    i: int,
)
    requires
        0 <= i < events.len(),
    ensures
        text::has_infix(
            jsonl(events, times),
            json_text(line_model(events[i], times[i].0, times[i].1)) + "\n"@,
        ),
    decreases events.len(),
{
    let n = events.len() - 1;
    let front = jsonl(events.drop_last(), times);
    let last = json_text(line_model(events.last(), times[n].0, times[n].1)) + "\n"@;
    assert(jsonl(events, times) =~= front + last);
    if i == n {
        lemma_infix(front, last, Seq::empty());
        assert(front + last + Seq::<char>::empty() =~= front + last);
    } else {
        lemma_lines_hold(events.drop_last(), times, i);
        lemma_infix_grows(
            Seq::empty(),
            front,
            last,
            json_text(line_model(events[i], times[i].0, times[i].1)) + "\n"@,
        );
        assert(Seq::<char>::empty() + front + last =~= front + last);
    }
}

/// Every transcript that counts is told: when the transcripts are made anew, its words are
/// in the text, but for space around them, and the machine-readable form has its line.
pub proof fn law_transcripts_that_count_are_told(
    was: Seq<TranscriptEventRecord>,
    now: Seq<TranscriptEventRecord>,
    chunks: Seq<AudioChunkRecord>,
    files: Seq<AudioFile>,
    session_id: Seq<char>,
    event: TranscriptEventRecord,
    started: Seq<char>,
    shown: Seq<Seq<char>>,
    stamps: Seq<(Seq<char>, Seq<char>)>,
    omit: bool,
    title: Option<Seq<char>>,
)
    requires
        was.contains(event),
        is_canonical_of(event, session_id),
        now.len() == was.len(),
        forall|i: int|
            0 <= i < was.len() ==> is_restamped(
                #[trigger] was[i],
                now[i],
                chunks,
                session_id,
                files,
            ),
        shown.len() == told(now, session_id).len(),
        stamps.len() == told(now, session_id).len(),
    ensures
        text::has_infix(
            markdown(session_id, started, told(now, session_id), shown, omit, title),
            text::trimmed(event.text@),
        ),
        exists|i: int|
            0 <= i < stamps.len() && {
                let line = #[trigger] told(now, session_id)[i];
                &&& line == (TranscriptEventRecord {
                    started_at: line.started_at,
                    ended_at: line.ended_at,
                    ..event
                })
                &&& text::has_infix(
                    jsonl(told(now, session_id), stamps),
                    json_text(line_model(line, stamps[i].0, stamps[i].1)) + "\n"@,
                )
            },
{
    let at = choose|i: int| 0 <= i < was.len() && was[i] == event;
    let line = now[at];
    assert(is_restamped(was[at], now[at], chunks, session_id, files));
    let count = |e: TranscriptEventRecord| is_canonical_of(e, session_id);
    now.lemma_filter_contains_rev(count, line);
    let kept = now.filter(count);
    let all = told(now, session_id);
    law_ranking_keeps_all_values_in_order(kept);
    assert(kept.to_multiset().contains(line)) by {
        kept.to_multiset_ensures();
    }
    all.to_multiset_ensures();
    assert(all.contains(line));
    let i = choose|i: int| 0 <= i < all.len() && all[i] == line;
    law_transcript_holds_every_entry(session_id, started, all, shown, omit, title, i);
    lemma_lines_hold(all, stamps, i);
}

pub open spec fn pairs(times: Seq<(String, String)>) -> Seq<(Seq<char>, Seq<char>)> {
    times.map_values(|t: (String, String)| (t.0@, t.1@))
}

/// One line of the machine-readable transcript.
fn json_line(event: &TranscriptEventRecord, started: &str, ended: &str) -> (r: String)
    ensures
        r@ == json_text(line_model(*event, started@, ended@)),
        is_json_line(r@, line_model(*event, started@, ended@)),
{
    let mut fields: Vec<(String, Tree)> = Vec::new();
    put(&mut fields, "source", text_value(event.source.as_str()));
    put(&mut fields, "sequence", number_value(event.sequence));
    put(&mut fields, "started_at", text_value(started));
    put(&mut fields, "ended_at", text_value(ended));
    put(&mut fields, "text", text_value(event.text.as_str()));
    put(&mut fields, "provider", text_value(event.provider.as_str()));
    put(&mut fields, "model", text_value(event.model.as_str()));
    assert(fields_model(fields@) =~= line_model(*event, started@, ended@)->Object_0);
    let line = object_value(fields);
    write_json(&line)
}

/// The machine-readable transcript, with the times as they are written.
pub fn render_jsonl_with(
    events: &Vec<TranscriptEventRecord>,
    times: &Vec<(String, String)>,
) -> (r: String)
    requires
        times@.len() == events@.len(),
    ensures
        r@ == jsonl(events@, pairs(times@)),
{
    let mut out = String::new();
    let mut i: usize = 0;
    assert(out@ =~= jsonl(events@.take(0), pairs(times@)));
    while i < events.len()
        invariant
            i <= events@.len(),
            times@.len() == events@.len(),
            out@ == jsonl(events@.take(i as int), pairs(times@)),
        decreases events.len() - i,
    {
        let line = json_line(&events[i], times[i].0.as_str(), times[i].1.as_str());
        let ended = text::concat2(line.as_str(), "\n");
        let ghost before = out@;
        out.append(ended.as_str());
        i += 1;
        proof {
            let now = events@.take(i as int);
            assert(now.drop_last() =~= events@.take(i - 1));
            assert(pairs(times@)[i - 1] == (times@[i - 1].0@, times@[i - 1].1@));
            assert(out@ =~= jsonl(now, pairs(times@)));
        }
    }
    assert(events@.take(i as int) =~= events@);
    out
}

/// The first text among the times of the transcripts that is no time.
pub open spec fn first_bad_time(events: Seq<TranscriptEventRecord>) -> Option<Seq<char>>
    decreases events.len(),
{
    if events.len() == 0 {
        None
    } else if parsed_time(events[0].started_at@) is None {
        Some(events[0].started_at@)
    } else if parsed_time(events[0].ended_at@) is None {
        Some(events[0].ended_at@)
    } else {
        first_bad_time(events.drop_first())
    }
}

/// Whether these are the stamps of a start and an end, each in some time zone.
pub open spec fn is_stamped(
    times: (Seq<char>, Seq<char>),
    started_at: Seq<char>,
    ended_at: Seq<char>,
) -> bool {
    &&& parsed_time(started_at) matches Some(t) && is_local_stamp(times.0, t)
    &&& parsed_time(ended_at) matches Some(t) && is_local_stamp(times.1, t)
}

/// Whether these are the stamps of the starts and ends of the transcripts.
pub open spec fn are_stamped(
    events: Seq<TranscriptEventRecord>,
    times: Seq<(Seq<char>, Seq<char>)>,
) -> bool {
    &&& times.len() == events.len()
    &&& forall|i: int|
        0 <= i < events.len() ==> is_stamped(
            #[trigger] times[i],
            events[i].started_at@,
            events[i].ended_at@,
        )
}

/// The stamps of the starts and ends of the transcripts, in the time zone of the machine.
pub fn stamped_times(events: &Vec<TranscriptEventRecord>) -> (r: Result<Vec<(String, String)>>)
    ensures
        match first_bad_time(events@) {
            Some(bad) => fails(
                r,
                ErrorKind::Other,
                invalid_timestamp(bad, rfc3339_parsed(bad)->Err_0),
            ),
            None => r matches Ok(times) && are_stamped(events@, pairs(times@)),
        },
{
    let mut times: Vec<(String, String)> = Vec::new();
    let mut i: usize = 0;
    assert(events@.skip(0) =~= events@);
    while i < events.len()
        invariant
            i <= events@.len(),
            times@.len() == i,
            first_bad_time(events@) == first_bad_time(events@.skip(i as int)),
            forall|k: int|
                0 <= k < i ==> is_stamped(
                    ((#[trigger] times@[k]).0@, times@[k].1@),
                    events@[k].started_at@,
                    events@[k].ended_at@,
                ),
        decreases events.len() - i,
    {
        assert(events@.skip(i as int).drop_first() =~= events@.skip(i + 1));
        assert(events@.skip(i as int)[0] == events@[i as int]);
        let started = match format_offset(events[i].started_at.as_str()) {
            Ok(started) => started,
            Err(e) => return Err(e),
        };
        let ended = match format_offset(events[i].ended_at.as_str()) {
            Ok(ended) => ended,
            Err(e) => return Err(e),
        };
        times.push((started, ended));
        i += 1;
    }
    Ok(times)
}

/// The machine-readable transcript, with times in the time zone of the machine.
pub fn render_jsonl(events: &Vec<TranscriptEventRecord>) -> (r: Result<String>)
    ensures
        match first_bad_time(events@) {
            Some(bad) => fails(
                r,
                ErrorKind::Other,
                invalid_timestamp(bad, rfc3339_parsed(bad)->Err_0),
            ),
            None => r matches Ok(out) && exists|times: Seq<(Seq<char>, Seq<char>)>|
                are_stamped(events@, times) && out@ == #[trigger] jsonl(events@, times),
        },
{
    match stamped_times(events) {
        Ok(times) => Ok(render_jsonl_with(events, &times)),
        Err(e) => Err(e),
    }
}

proof fn lemma_line_is_flat(event: TranscriptEventRecord, started: Seq<char>, ended: Seq<char>)
    ensures
        is_flat(line_model(event, started, ended)),
{
    let t = line_model(event, started, ended);
    reveal_strlit("source");
    reveal_strlit("sequence");
    reveal_strlit("started_at");
    reveal_strlit("ended_at");
    reveal_strlit("text");
    reveal_strlit("provider");
    reveal_strlit("model");
    assert("source"@.len() == 6 && "sequence"@.len() == 8 && "started_at"@.len() == 10);
    assert("ended_at"@.len() == 8 && "text"@.len() == 4 && "provider"@.len() == 8);
    assert("model"@.len() == 5);
    assert("sequence"@[0] == 's' && "ended_at"@[0] == 'e' && "provider"@[0] == 'p');
    assert forall|i: int|
        #![trigger t->Object_0[i]]
        0 <= i < t->Object_0.len() implies crate::tree::is_leaf(t->Object_0[i].1) by {
        assert(text::decimal(event.sequence as nat) == text::decimal(event.sequence as nat));
    }
}

/// Whether a time that is read back is this one, as far as a stamp tells it. Times within
/// a day of the first and the last year of four digits, and leap seconds, are left out.
pub open spec fn keeps_time(stamp: Seq<char>, value: Seq<char>) -> bool {
    match parsed_time(value) {
        Some(t) => four_digits_anywhere(t.secs as int) && t.nanos < 1_000_000_000 ==> match
            parsed_time(stamp) {
            Some(r) => is_about(r, t),
            None => text::has_suffix(stamp, "24:00"@),
        },
        None => true,
    }
}

/// A line of the machine-readable transcript is read back as what it was written from:
/// its text, source, number, provider and model, and its start and its end.
pub proof fn law_json_lines_are_read_back(
    event: TranscriptEventRecord,
    started: Seq<char>,
    ended: Seq<char>,
    line: Seq<char>,
)
    requires
        is_json_line(line, line_model(event, started, ended)),
    ensures
        !line.contains('\n'),
        crate::tree::json_parsed(line) matches Ok(p) && {
            &&& p.text_field("text"@) == Some(event.text@)
            &&& p.text_field("source"@) == Some(event.source.name())
            &&& p.field("sequence"@) == Some(
                TreeModel::Number(text::decimal(event.sequence as nat)),
            )
            &&& p.text_field("provider"@) == Some(event.provider.name())
            &&& p.text_field("model"@) == Some(event.model@)
            &&& p.text_field("started_at"@) == Some(started)
            &&& p.text_field("ended_at"@) == Some(ended)
        },
        is_stamped((started, ended), event.started_at@, event.ended_at@) ==> keeps_time(
            started,
            event.started_at@,
        ) && keeps_time(ended, event.ended_at@),
{
    let t = line_model(event, started, ended);
    if is_stamped((started, ended), event.started_at@, event.ended_at@) {
        let start = parsed_time(event.started_at@)->Some_0;
        if four_digits_anywhere(start.secs as int) && start.nanos < 1_000_000_000 {
            law_local_stamps_keep_the_time(started, start);
        }
        let end = parsed_time(event.ended_at@)->Some_0;
        if four_digits_anywhere(end.secs as int) && end.nanos < 1_000_000_000 {
            law_local_stamps_keep_the_time(ended, end);
        }
    }
    lemma_line_is_flat(event, started, ended);
    let f = t->Object_0;
    lemma_field_at(f, 0);
    lemma_field_at(f, 1);
    lemma_field_at(f, 2);
    lemma_field_at(f, 3);
    lemma_field_at(f, 4);
    lemma_field_at(f, 5);
    lemma_field_at(f, 6);
    let p = crate::tree::json_parsed(line)->Ok_0;
    assert(p.field("started_at"@) == t.field("started_at"@));
    assert(p.field("ended_at"@) == t.field("ended_at"@));
    assert(p.field("text"@) == t.field("text"@));
    assert(p.field("source"@) == t.field("source"@));
    assert(p.field("sequence"@) == t.field("sequence"@));
    assert(p.field("provider"@) == t.field("provider"@));
    assert(p.field("model"@) == t.field("model"@));
}

/// Of distinct names each finds its own field.
proof fn lemma_field_at(fields: Seq<(Seq<char>, TreeModel)>, i: int)
    requires
        0 <= i < fields.len(),
        forall|a: int, b: int|
            #![trigger fields[a], fields[b]]
            0 <= a < b < fields.len() ==> fields[a].0 != fields[b].0,
    ensures
        crate::tree::field_of(fields, fields[i].0) == Some(fields[i].1),
    decreases fields.len(),
{
    if i > 0 {
        let rest = fields.drop_first();
        assert(fields[0].0 != fields[i].0);
        assert forall|a: int, b: int|
            #![trigger rest[a], rest[b]]
            0 <= a < b < rest.len() implies rest[a].0 != rest[b].0 by {
            assert(rest[a] == fields[a + 1] && rest[b] == fields[b + 1]);
        }
        lemma_field_at(rest, i - 1);
    }
}

/// What is told of a session: its transcripts that count, in order.
pub open spec fn told(
    events: Seq<TranscriptEventRecord>,
    session_id: Seq<char>,
) -> Seq<TranscriptEventRecord> {
    ranked(events.filter(|e: TranscriptEventRecord| is_canonical_of(e, session_id)))
}

/// The two forms of a transcript.
#[derive(Debug)]
pub struct Transcripts {
    pub markdown: String,
    pub jsonl: String,
}

/// Makes the transcripts of a session anew: its transcripts that count get their times
/// from the audio, stand in order, and are rendered. `files` are the audio files of the
/// session that are there.
pub fn regenerate_session_transcripts(
    store: &mut Store,
    session_id: &str,
    files: &Vec<AudioFile>,
    omit_single_source_headers: bool,
) -> (r: Result<Transcripts>)
    ensures
        final(store)@ == (crate::storage::Tables { events: final(store)@.events, ..old(store)@ }),
        final(store)@.events.len() == old(store)@.events.len(),
        forall|i: int|
            #![trigger final(store)@.events[i]]
            0 <= i < old(store)@.events.len() ==> crate::storage::events::is_restamped(
                old(store)@.events[i],
                final(store)@.events[i],
                old(store)@.chunks,
                session_id@,
                files@,
            ),
        old(store)@.wf() ==> final(store)@.wf(),
        ({
            let told = told(final(store)@.events, session_id@);
            match find_session(old(store)@.sessions, session_id@) {
                None => fails(r, ErrorKind::Other, session_not_found(session_id@)),
                Some(session) => match first_bad_time(told) {
                    Some(bad) => fails(
                        r,
                        ErrorKind::Other,
                        invalid_timestamp(bad, rfc3339_parsed(bad)->Err_0),
                    ),
                    None => r matches Ok(t) && (exists|
                        started: Seq<char>,
                        times: Seq<Seq<char>>,
                    |
                        are_shown(told, times) && shows(
                            started,
                            session.started_at@,
                            "%Y-%m-%d %H:%M:%S %:z"@,
                        ) && t.markdown@ == #[trigger] markdown(
                            session_id@,
                            started,
                            told,
                            times,
                            omit_single_source_headers,
                            text::text_of(session.title),
                        )) && (exists|times: Seq<(Seq<char>, Seq<char>)>|
                        are_stamped(told, times) && t.jsonl@ == #[trigger] jsonl(told, times)),
                },
            }
        }),
{
    restamp_canonical_events_from_audio(store, session_id, files);
    let session = match store.session_index(session_id) {
        Some(at) => store.sessions[at].clone(),
        None => return Err(not_found(session_id)),
    };
    let mut events = list_canonical_events(store, session_id);
    sort_events(&mut events);
    let title = match &session.title {
        Some(title) => Some(title.as_str()),
        None => None,
    };
    assert(str_of(title) == text::text_of(session.title));
    let markdown = render_markdown(
        session_id,
        session.started_at.as_str(),
        &events,
        omit_single_source_headers,
        title,
    );
    match render_jsonl(&events) {
        Ok(jsonl) => Ok(Transcripts { markdown, jsonl }),
        Err(e) => Err(e),
    }
}

/// A transcript tells the meeting in the order in which it was spoken.
pub proof fn law_transcripts_are_in_order(events: Seq<TranscriptEventRecord>, i: int, j: int)
    requires
        0 <= i < j < events.len(),
    ensures
        ranked(events).len() == events.len(),
        ranked(events).to_multiset() == events.to_multiset(),
        starts_no_later(
            parsed_time(ranked(events)[i].started_at@),
            parsed_time(ranked(events)[j].started_at@),
        ),
{
    crate::sorting::law_ranking_keeps_all_values_in_order(events);
    let r = ranked(events);
    assert(r[i].ranks_before(&r[j]));
}

proof fn lemma_entries_in_order(
    events: Seq<TranscriptEventRecord>,
    times: Seq<Seq<char>>,
    hide: bool,
    parts: Seq<Seq<char>>,
)
    requires
        parts.len() == events.len(),
        forall|k: int| 0 <= k < events.len() ==> #[trigger] parts[k] == entry(
            events[k],
            times[k],
            hide,
        ),
    ensures
        entries(events, times, hide) == parts.flatten(),
    decreases events.len(),
{
    if events.len() > 0 {
        let front = parts.drop_last();
        lemma_entries_in_order(events.drop_last(), times, hide, front);
        parts.lemma_flatten_and_flatten_alt_are_equivalent();
        front.lemma_flatten_and_flatten_alt_are_equivalent();
        assert(parts.last() == entry(events.last(), times[events.len() - 1], hide));
    }
}

/// The transcript is a head with the session, its start and its title, and then what was
/// said, from the first event down to the last. Over each stretch of words stand its time
/// and its source, unless those are to be left out and at most one source spoke; then
/// stretches without words are left out too.
pub proof fn law_the_transcript_goes_from_top_to_bottom(
    session_id: Seq<char>,
    started: Seq<char>,
    events: Seq<TranscriptEventRecord>,
    times: Seq<Seq<char>>,
    omit: bool,
    title: Option<Seq<char>>,
    head: Seq<char>,
    parts: Seq<Seq<char>>,
)
    requires
        times.len() == events.len(),
        parts.len() == events.len(),
        head == "# Audio session\n\n"@ + (match title {
            Some(t) if text::trimmed(t).len() > 0 => "Title: "@ + text::trimmed(t) + "\n"@,
            _ => Seq::empty(),
        }) + "Session: "@ + session_id + "\nStarted: "@ + started + "\n\n## Transcript\n"@,
        ({
            let both = (exists|i: int|
                0 <= i < events.len() && (#[trigger] events[i]).source == AudioSource::Mic
                    && text::trimmed(events[i].text@).len() > 0) && (exists|i: int|
                0 <= i < events.len() && (#[trigger] events[i]).source == AudioSource::System
                    && text::trimmed(events[i].text@).len() > 0);
            forall|k: int|
                0 <= k < events.len() ==> #[trigger] parts[k] == {
                    let words = text::trimmed(events[k].text@);
                    if omit && !both {
                        if words.len() == 0 {
                            Seq::empty()
                        } else {
                            "\n"@ + words + "\n"@
                        }
                    } else {
                        match events[k].source {
                            AudioSource::Mic => "\n"@ + times[k] + " ["@ + "MIC"@ + "]\n"@ + words
                                + "\n"@,
                            AudioSource::System => "\n"@ + times[k] + " ["@ + "SYSTEM"@ + "]\n"@
                                + words + "\n"@,
                        }
                    }
                }
        }),
    ensures
        markdown(session_id, started, events, times, omit, title) == head + parts.flatten(),
{
    let mic = exists|i: int|
        0 <= i < events.len() && (#[trigger] events[i]).source == AudioSource::Mic
            && text::trimmed(events[i].text@).len() > 0;
    let system = exists|i: int|
        0 <= i < events.len() && (#[trigger] events[i]).source == AudioSource::System
            && text::trimmed(events[i].text@).len() > 0;
    assert(mic == speaks(events, AudioSource::Mic));
    assert(system == speaks(events, AudioSource::System));
    let hide = hides_headers(events, omit);
    assert(hide == (omit && !(mic && system)));
    lemma_entries_in_order(events, times, hide, parts);
    assert(head == preamble(session_id, started, title));
}

/// The machine-readable transcript has one line for each event, from the first to the last.
pub proof fn law_the_lines_go_from_top_to_bottom(
    events: Seq<TranscriptEventRecord>,
    times: Seq<(Seq<char>, Seq<char>)>,
    lines: Seq<Seq<char>>,
)
    requires
        times.len() == events.len(),
        lines.len() == events.len(),
        forall|k: int|
            0 <= k < events.len() ==> #[trigger] lines[k] == json_text(
                TreeModel::Object(
                    seq![
                        ("source"@, TreeModel::Text(events[k].source.name())),
                        (
                            "sequence"@,
                            TreeModel::Number(text::decimal(events[k].sequence as nat)),
                        ),
                        ("started_at"@, TreeModel::Text(times[k].0)),
                        ("ended_at"@, TreeModel::Text(times[k].1)),
                        ("text"@, TreeModel::Text(events[k].text@)),
                        ("provider"@, TreeModel::Text(events[k].provider.name())),
                        ("model"@, TreeModel::Text(events[k].model@)),
                    ],
                ),
            ) + "\n"@,
    ensures
        jsonl(events, times) == lines.flatten(),
    decreases events.len(),
{
    if events.len() > 0 {
        let front = lines.drop_last();
        let n = events.len() - 1;
        law_the_lines_go_from_top_to_bottom(events.drop_last(), times.drop_last(), front);
        lemma_jsonl_prefix(events.drop_last(), times, times.drop_last());
        lines.lemma_flatten_and_flatten_alt_are_equivalent();
        front.lemma_flatten_and_flatten_alt_are_equivalent();
        assert(lines.last() == json_text(line_model(events.last(), times[n].0, times[n].1))
            + "\n"@);
        assert(jsonl(events, times) =~= lines.flatten());
    }
}

proof fn lemma_jsonl_prefix(
    events: Seq<TranscriptEventRecord>,
    a: Seq<(Seq<char>, Seq<char>)>,
    b: Seq<(Seq<char>, Seq<char>)>,
)
    requires
        events.len() <= a.len(),
        events.len() <= b.len(),
        forall|k: int| 0 <= k < events.len() ==> a[k] == b[k],
    ensures
        jsonl(events, a) == jsonl(events, b),
    decreases events.len(),
{
    if events.len() > 0 {
        lemma_jsonl_prefix(events.drop_last(), a, b);
        assert(a[events.len() - 1] == b[events.len() - 1]);
    }
}

/// Sorted transcripts stand by the time of their start; at the same time the microphone
/// comes before the system, and what has the lower number before what has the higher.
/// What has no time that can be read comes first.
pub proof fn law_transcripts_stand_by_their_start(
    events: Seq<TranscriptEventRecord>,
    i: int,
    j: int,
)
    requires
        0 <= i < j < events.len(),
    ensures
        ({
            let a = ranked(events)[i];
            let b = ranked(events)[j];
            match (rfc3339_parsed(a.started_at@), rfc3339_parsed(b.started_at@)) {
                (Ok(x), Ok(y)) => {
                    ||| x.0 < y.0
                    ||| x.0 == y.0 && x.1 < y.1
                    ||| x == y && a.source == AudioSource::Mic && b.source == AudioSource::System
                    ||| x == y && a.source == b.source && a.sequence <= b.sequence
                },
                (Ok(_), Err(_)) => false,
                (Err(_), Ok(_)) => true,
                (Err(_), Err(_)) => {
                    ||| a.source == AudioSource::Mic && b.source == AudioSource::System
                    ||| a.source == b.source && a.sequence <= b.sequence
                },
            }
        }),
        ranked(events).len() == events.len(),
        ranked(events).to_multiset() == events.to_multiset(),
{
    law_ranking_keeps_all_values_in_order(events);
    let r = ranked(events);
    assert(r[i].ranks_before(&r[j]));
    let a = r[i];
    let b = r[j];
    if a.source != b.source {
        lemma_source_names_differ();
    }
}

/// What is told of a session are its own transcripts that count, and all of them.
pub proof fn law_only_what_counts_is_told(
    events: Seq<TranscriptEventRecord>,
    session_id: Seq<char>,
    event: TranscriptEventRecord,
)
    ensures
        told(events, session_id).contains(event) <==> events.contains(event)
            && event.session_id@ == session_id && event.is_canonical,
{
    let counts = |e: TranscriptEventRecord| is_canonical_of(e, session_id);
    let kept = events.filter(counts);
    law_ranking_keeps_all_values_in_order(kept);
    let all = told(events, session_id);
    kept.to_multiset_ensures();
    all.to_multiset_ensures();
    if events.contains(event) && counts(event) {
        events.lemma_filter_contains_rev(counts, event);
        assert(kept.to_multiset().contains(event));
        assert(all.contains(event));
    }
    if all.contains(event) {
        assert(all.to_multiset().contains(event));
        assert(kept.contains(event));
        lemma_kept_were_there(events, counts, event);
    }
}

proof fn lemma_kept_were_there(
    events: Seq<TranscriptEventRecord>,
    keep: spec_fn(TranscriptEventRecord) -> bool,
    event: TranscriptEventRecord,
)
    requires
        events.filter(keep).contains(event),
    ensures
        events.contains(event) && keep(event),
    decreases events.len(),
{
    reveal(Seq::filter);
    if events.len() > 0 {
        let front = events.drop_last();
        if keep(events.last()) && event == events.last() {
            assert(events[events.len() - 1] == event);
        } else {
            let all = events.filter(keep);
            let k = choose|k: int| 0 <= k < all.len() && all[k] == event;
            assert(front.filter(keep)[k] == event);
            lemma_kept_were_there(front, keep, event);
            let i = choose|i: int| 0 <= i < front.len() && front[i] == event;
            assert(events[i] == event);
        }
    }
}

/// A transcript cannot be told in lines where a time of one of its events is none, and the
/// first such time is named.
pub proof fn law_the_first_bad_time_is_named(events: Seq<TranscriptEventRecord>, i: int)
    requires
        0 <= i <= events.len(),
        forall|k: int|
            0 <= k < i ==> parsed_time((#[trigger] events[k]).started_at@) is Some && parsed_time(
                events[k].ended_at@,
            ) is Some,
    ensures
        i == events.len() ==> first_bad_time(events) is None,
        i < events.len() && parsed_time(events[i].started_at@) is None ==> first_bad_time(events)
            == Some(events[i].started_at@),
        i < events.len() && parsed_time(events[i].started_at@) is Some && parsed_time(
            events[i].ended_at@,
        ) is None ==> first_bad_time(events) == Some(events[i].ended_at@),
    decreases i,
{
    if i > 0 {
        assert(parsed_time(events[0].started_at@) is Some);
        let rest = events.drop_first();
        assert forall|k: int| 0 <= k < i - 1 implies parsed_time((#[trigger] rest[k]).started_at@)
            is Some && parsed_time(rest[k].ended_at@) is Some by {
            assert(rest[k] == events[k + 1]);
        }
        if i < events.len() {
            assert(rest[i - 1] == events[i]);
        }
        law_the_first_bad_time_is_named(rest, i - 1);
    }
}

/// A time that is none is shown as it stands.
pub proof fn law_what_is_no_time_is_shown_as_it_stands(
    shown: Seq<char>,
    value: Seq<char>,
    format: Seq<char>,
)
    requires
        shows(shown, value, format),
    ensures
        parsed_time(value) is None ==> shown == value,
        parsed_time(value) matches Some(t) ==> is_shown(shown, t, format),
{
}

} // verus!
