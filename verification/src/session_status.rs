//! What the user is shown of a meeting.

use crate::config::{Config, ProviderKind};
use crate::storage::types::{
    AudioChunkRecord, JobState, SessionRecord, SessionState, TranscriptionJobRecord,
};
use crate::text;
use crate::timeutil::{
    clock_stamp, four_digits_anywhere, is_offset, is_shown, is_shown_at, local_display, not_later,
    parse_rfc3339, parsed_time, shows_plainly, UtcTime,
};
use vstd::prelude::*;

verus! {

#[derive(Clone, Copy, Debug, PartialEq, Eq, Structural)]
pub enum UiSessionStatus {
    Recording,
    Transcribing,
    Complete,
    WaitingRetry,
    Attention,
    Interrupted,
}

impl UiSessionStatus {
    pub open spec fn name(self) -> Seq<char> {
        match self {
            UiSessionStatus::Recording => "recording"@,
            UiSessionStatus::Transcribing => "transcribing"@,
            UiSessionStatus::Complete => "complete"@,
            UiSessionStatus::WaitingRetry => "waiting_retry"@,
            UiSessionStatus::Attention => "attention"@,
            UiSessionStatus::Interrupted => "interrupted"@,
        }
    }

    pub open spec fn label(self) -> Seq<char> {
        match self {
            UiSessionStatus::Recording => "Recording"@,
            UiSessionStatus::Transcribing => "Transcribing"@,
            UiSessionStatus::Complete => "Complete"@,
            UiSessionStatus::WaitingRetry => "Waiting to retry"@,
            UiSessionStatus::Attention => "Needs attention"@,
            UiSessionStatus::Interrupted => "Interrupted"@,
        }
    }

    pub fn as_str(self) -> (r: &'static str)
        ensures
            r@ == self.name(),
    {
        match self {
            UiSessionStatus::Recording => "recording",
            UiSessionStatus::Transcribing => "transcribing",
            UiSessionStatus::Complete => "complete",
            UiSessionStatus::WaitingRetry => "waiting_retry",
            UiSessionStatus::Attention => "attention",
            UiSessionStatus::Interrupted => "interrupted",
        }
    }

    pub fn display_label(self) -> (r: &'static str)
        ensures
            r@ == self.label(),
    {
        match self {
            UiSessionStatus::Recording => "Recording",
            UiSessionStatus::Transcribing => "Transcribing",
            UiSessionStatus::Complete => "Complete",
            UiSessionStatus::WaitingRetry => "Waiting to retry",
            UiSessionStatus::Attention => "Needs attention",
            UiSessionStatus::Interrupted => "Interrupted",
        }
    }
}

/// What a status depends on besides the meeting: the settings, the time, and which
/// programs and files are there.
#[derive(Debug)]
pub struct StatusContext<'a> {
    pub config: &'a Config,
    pub now: UtcTime,
    pub voxtype_available: bool,
    pub whisper_executable_exists: bool,
    pub whisper_model_is_file: bool,
}

/// The first chunk without a transcript whose audio is gone. `present` says of each
/// chunk whether its file is there.
pub open spec fn first_lost(
    chunks: Seq<AudioChunkRecord>,
    present: Seq<bool>,
    transcribed: Seq<Seq<char>>,
) -> Option<Seq<char>>
    decreases chunks.len(),
{
    if chunks.len() == 0 {
        None
    } else if !transcribed.contains(chunks[0].id@) && !present[0] {
        Some(chunks[0].file_path@)
    } else {
        first_lost(chunks.drop_first(), present.drop_first(), transcribed)
    }
}

/// Why a provider cannot work.
pub open spec fn provider_trouble(provider: ProviderKind, ctx: StatusContext<'_>) -> Option<
    Seq<char>,
> {
    match provider {
        ProviderKind::Voxtype => if ctx.voxtype_available {
            None
        } else {
            Some("Voxtype is not installed or unavailable"@)
        },
        ProviderKind::Openai => Some(
            "this meeting used the removed OpenAI provider; retranscribe with voxtype or whisper_cpp"@,
        ),
        ProviderKind::WhisperCpp => if !ctx.whisper_executable_exists {
            Some(
                "whisper-cli was not found at "@
                    + ctx.config.transcription.whisper_cpp.executable@,
            )
        } else if !ctx.whisper_model_is_file {
            Some(
                "whisper.cpp model was not found at "@ + ctx.config.transcription.whisper_cpp.model@,
            )
        } else {
            None
        },
    }
}

/// The first trouble with the provider of a job that is not complete.
pub open spec fn job_trouble(jobs: Seq<TranscriptionJobRecord>, ctx: StatusContext<'_>) -> Option<
    Seq<char>,
>
    decreases jobs.len(),
{
    if jobs.len() == 0 {
        None
    } else if jobs[0].state != JobState::Completed && provider_trouble(jobs[0].provider, ctx) is Some {
        provider_trouble(jobs[0].provider, ctx)
    } else {
        job_trouble(jobs.drop_first(), ctx)
    }
}

/// Why a meeting needs attention.
pub open spec fn trouble(
    chunks: Seq<AudioChunkRecord>,
    present: Seq<bool>,
    jobs: Seq<TranscriptionJobRecord>,
    transcribed: Seq<Seq<char>>,
    ctx: StatusContext<'_>,
) -> Option<Seq<char>> {
    match first_lost(chunks, present, transcribed) {
        Some(path) => Some("Audio file is missing: "@ + path),
        None => job_trouble(jobs, ctx),
    }
}

fn reason_of(provider: ProviderKind, ctx: &StatusContext<'_>) -> (r: Option<String>)
    ensures
        text::text_of(r) == provider_trouble(provider, *ctx),
{
    match provider {
        ProviderKind::Voxtype => {
            if ctx.voxtype_available {
                None
            } else {
                Some("Voxtype is not installed or unavailable".to_owned())
            }
        },
        ProviderKind::Openai => Some(
            "this meeting used the removed OpenAI provider; retranscribe with voxtype or whisper_cpp".to_owned(),
        ),
        ProviderKind::WhisperCpp => {
            if !ctx.whisper_executable_exists {
                Some(
                    text::concat2(
                        "whisper-cli was not found at ",
                        ctx.config.transcription.whisper_cpp.executable.as_str(),
                    ),
                )
            } else if !ctx.whisper_model_is_file {
                Some(
                    text::concat2(
                        "whisper.cpp model was not found at ",
                        ctx.config.transcription.whisper_cpp.model.as_str(),
                    ),
                )
            } else {
                None
            }
        },
    }
}

/// Why a meeting needs attention. `audio_present` says of each chunk whether its file is
/// there.
pub fn attention_reason(
    chunks: &Vec<AudioChunkRecord>,
    audio_present: &Vec<bool>,
    jobs: &Vec<TranscriptionJobRecord>,
    transcribed_chunk_ids: &Vec<String>,
    ctx: &StatusContext<'_>,
) -> (r: Option<String>)
    requires
        audio_present@.len() == chunks@.len(),
    ensures
        text::text_of(r) == trouble(
            chunks@,
            audio_present@,
            jobs@,
            text::views(transcribed_chunk_ids@),
            *ctx,
        ),
{
    let ghost ids = text::views(transcribed_chunk_ids@);
    let mut i: usize = 0;
    assert(chunks@.skip(0) =~= chunks@);
    assert(audio_present@.skip(0) =~= audio_present@);
    while i < chunks.len()
        invariant
            i <= chunks@.len(),
            audio_present@.len() == chunks@.len(),
            ids == text::views(transcribed_chunk_ids@),
            first_lost(chunks@, audio_present@, ids) == first_lost(
                chunks@.skip(i as int),
                audio_present@.skip(i as int),
                ids,
            ),
        decreases chunks.len() - i,
    {
        assert(chunks@.skip(i as int).drop_first() =~= chunks@.skip(i + 1));
        assert(audio_present@.skip(i as int).drop_first() =~= audio_present@.skip(i + 1));
        assert(chunks@.skip(i as int)[0] == chunks@[i as int]);
        assert(audio_present@.skip(i as int)[0] == audio_present@[i as int]);
        if !text::is_among(transcribed_chunk_ids, chunks[i].id.as_str()) && !audio_present[i] {
            return Some(
                text::concat2("Audio file is missing: ", chunks[i].file_path.as_str()),
            );
        }
        i += 1;
    }
    let mut j: usize = 0;
    assert(jobs@.skip(0) =~= jobs@);
    while j < jobs.len()
        invariant
            j <= jobs@.len(),
            first_lost(chunks@, audio_present@, ids) is None,
            ids == text::views(transcribed_chunk_ids@),
            job_trouble(jobs@, *ctx) == job_trouble(jobs@.skip(j as int), *ctx),
        decreases jobs.len() - j,
    {
        assert(jobs@.skip(j as int).drop_first() =~= jobs@.skip(j + 1));
        assert(jobs@.skip(j as int)[0] == jobs@[j as int]);
        if jobs[j].state != JobState::Completed {
            let reason = reason_of(jobs[j].provider, ctx);
            if reason.is_some() {
                return reason;
            }
        }
        j += 1;
    }
    None
}

/// Whether a job waits for a time that is still to come.
pub open spec fn waits(job: TranscriptionJobRecord, now: UtcTime) -> bool {
    &&& job.state == JobState::Pending
    &&& job.next_retry_at matches Some(at) && parsed_time(at@) matches Some(when) && !not_later(
        when,
        now,
    )
}

/// Whether some job has this state.
pub open spec fn some_job(jobs: Seq<TranscriptionJobRecord>, state: JobState) -> bool {
    exists|i: int| 0 <= i < jobs.len() && (#[trigger] jobs[i]).state == state
}

/// Whether some job waits for a time that is still to come.
pub open spec fn some_wait(jobs: Seq<TranscriptionJobRecord>, now: UtcTime) -> bool {
    exists|i: int| 0 <= i < jobs.len() && waits(#[trigger] jobs[i], now)
}

/// Whether every chunk has a transcript.
pub open spec fn all_transcribed(
    chunks: Seq<AudioChunkRecord>,
    transcribed: Seq<Seq<char>>,
) -> bool {
    forall|i: int| 0 <= i < chunks.len() ==> transcribed.contains((#[trigger] chunks[i]).id@)
}

/// The status of a meeting: what comes first in this list applies.
pub open spec fn ui_status(
    session: SessionRecord,
    chunks: Seq<AudioChunkRecord>,
    present: Seq<bool>,
    jobs: Seq<TranscriptionJobRecord>,
    transcribed: Seq<Seq<char>>,
    ctx: StatusContext<'_>,
) -> UiSessionStatus {
    if session.state == SessionState::Running {
        UiSessionStatus::Recording
    } else if trouble(chunks, present, jobs, transcribed, ctx) is Some {
        UiSessionStatus::Attention
    } else if some_job(jobs, JobState::Processing) {
        UiSessionStatus::Transcribing
    } else if some_job(jobs, JobState::Pending) {
        if some_wait(jobs, ctx.now) {
            UiSessionStatus::WaitingRetry
        } else {
            UiSessionStatus::Transcribing
        }
    } else if all_transcribed(chunks, transcribed) {
        UiSessionStatus::Complete
    } else if session.state == SessionState::Interrupted {
        UiSessionStatus::Interrupted
    } else {
        UiSessionStatus::Transcribing
    }
}

fn has_job_in(jobs: &Vec<TranscriptionJobRecord>, state: JobState) -> (r: bool)
    ensures
        r == some_job(jobs@, state),
{
    let mut i: usize = 0;
    while i < jobs.len()
        invariant
            i <= jobs@.len(),
            forall|k: int| 0 <= k < i ==> (#[trigger] jobs@[k]).state != state,
        decreases jobs.len() - i,
    {
        if jobs[i].state == state {
            return true;
        }
        i += 1;
    }
    false
}

fn has_waiting_job(jobs: &Vec<TranscriptionJobRecord>, now: UtcTime) -> (r: bool)
    ensures
        r == some_wait(jobs@, now),
{
    let mut i: usize = 0;
    while i < jobs.len()
        invariant
            i <= jobs@.len(),
            forall|k: int| 0 <= k < i ==> !waits(#[trigger] jobs@[k], now),
        decreases jobs.len() - i,
    {
        if jobs[i].state == JobState::Pending {
            if let Some(at) = &jobs[i].next_retry_at {
                if let Ok(when) = parse_rfc3339(at.as_str()) {
                    if !when.at_most(now) {
                        assert(waits(jobs@[i as int], now));
                        return true;
                    }
                }
            }
        }
        i += 1;
    }
    false
}

fn every_chunk_transcribed(chunks: &Vec<AudioChunkRecord>, ids: &Vec<String>) -> (r: bool)
    ensures
        r == all_transcribed(chunks@, text::views(ids@)),
{
    let mut i: usize = 0;
    while i < chunks.len()
        invariant
            i <= chunks@.len(),
            forall|k: int|
                0 <= k < i ==> text::views(ids@).contains((#[trigger] chunks@[k]).id@),
        decreases chunks.len() - i,
    {
        if !text::is_among(ids, chunks[i].id.as_str()) {
            return false;
        }
        i += 1;
    }
    true
}

/// The status of a meeting. `audio_present` says of each chunk whether its file is there.
pub fn derive_ui_status(
    session: &SessionRecord,
    chunks: &Vec<AudioChunkRecord>,
    audio_present: &Vec<bool>,
    jobs: &Vec<TranscriptionJobRecord>,
    transcribed_chunk_ids: &Vec<String>,
    ctx: &StatusContext<'_>,
) -> (r: UiSessionStatus)
    requires
        audio_present@.len() == chunks@.len(),
    ensures
        r == ui_status(
            *session,
            chunks@,
            audio_present@,
            jobs@,
            text::views(transcribed_chunk_ids@),
            *ctx,
        ),
{
    if session.state == SessionState::Running {
        return UiSessionStatus::Recording;
    }
    if attention_reason(chunks, audio_present, jobs, transcribed_chunk_ids, ctx).is_some() {
        return UiSessionStatus::Attention;
    }
    if has_job_in(jobs, JobState::Processing) {
        return UiSessionStatus::Transcribing;
    }
    if has_job_in(jobs, JobState::Pending) {
        return if has_waiting_job(jobs, ctx.now) {
            UiSessionStatus::WaitingRetry
        } else {
            UiSessionStatus::Transcribing
        };
    }
    if every_chunk_transcribed(chunks, transcribed_chunk_ids) {
        return UiSessionStatus::Complete;
    }
    if session.state == SessionState::Interrupted {
        return UiSessionStatus::Interrupted;
    }
    UiSessionStatus::Transcribing
}

/// A meeting is complete only where it does not run, no job is left and every chunk has
/// a transcript, interrupted or not.
pub proof fn law_complete_means_transcribed(
    session: SessionRecord,
    chunks: Seq<AudioChunkRecord>,
    present: Seq<bool>,
    jobs: Seq<TranscriptionJobRecord>,
    transcribed: Seq<Seq<char>>,
    ctx: StatusContext<'_>,
)
    ensures
        ui_status(session, chunks, present, jobs, transcribed, ctx) == UiSessionStatus::Complete
            ==> {
            &&& session.state != SessionState::Running
            &&& forall|i: int|
                0 <= i < jobs.len() ==> (#[trigger] jobs[i]).state == JobState::Completed
            &&& all_transcribed(chunks, transcribed)
        },
{
    assert forall|i: int|
        0 <= i < jobs.len() && !some_job(jobs, JobState::Processing) && !some_job(
            jobs,
            JobState::Pending,
        ) implies (#[trigger] jobs[i]).state == JobState::Completed by {
        match jobs[i].state {
            JobState::Pending => {
                assert(some_job(jobs, JobState::Pending));
            },
            JobState::Processing => {
                assert(some_job(jobs, JobState::Processing));
            },
            JobState::Completed => {},
        }
    }
}

/// The title that a meeting was given, where it was.
pub open spec fn given_title(session: SessionRecord) -> Option<Seq<char>> {
    match session.title {
        Some(title) => if text::is_blank(title@) {
            None
        } else {
            Some(text::trimmed(title@))
        },
        None => None,
    }
}

/// The title of a meeting without one, of how its start is shown.
pub open spec fn fallback_of(shown: Option<Seq<char>>) -> Seq<char> {
    match shown {
        Some(start) => "Recording "@ + start,
        None => "Recording"@,
    }
}

/// Whether a title is made of the start of a meeting, as it is shown in some time zone.
pub open spec fn is_fallback(title: Seq<char>, started_at: Seq<char>) -> bool {
    match parsed_time(started_at) {
        Some(t) => exists|shown: Seq<char>|
            is_shown(shown, t, "%d %b %Y, %H:%M"@) && title == #[trigger] fallback_of(Some(shown)),
        None => title == fallback_of(None),
    }
}

/// The title of a meeting.
pub fn display_title(session: &SessionRecord) -> (r: String)
    ensures
        match given_title(*session) {
            Some(title) => r@ == title,
            None => is_fallback(r@, session.started_at@),
        },
{
    if let Some(title) = &session.title {
        let trimmed = text::trim(title.as_str());
        if !trimmed.as_str().is_empty() {
            return trimmed;
        }
    }
    fallback_title(session.started_at.as_str())
}

/// The title of a meeting without one. `shown` is how its start is shown, where it is a
/// time.
pub fn fallback_title_with(shown: Option<&str>) -> (r: String)
    ensures
        r@ == fallback_of(crate::transcript::str_of(shown)),
{
    match shown {
        Some(start) => text::concat2("Recording ", start),
        None => "Recording".to_owned(),
    }
}

/// A title made of the start of a meeting.
pub fn fallback_title(started_at: &str) -> (r: String)
    ensures
        is_fallback(r@, started_at@),
{
    match local_display(started_at, "%d %b %Y, %H:%M") {
        Some(shown) => {
            let title = fallback_title_with(Some(shown.as_str()));
            assert(title@ == fallback_of(Some(shown@)));
            title
        },
        None => fallback_title_with(None),
    }
}

/// A title made of the start of a meeting holds a year that is the one of the start, or
/// the one of less than a day before or after it.
pub proof fn law_fallback_titles_hold_the_year(title: Seq<char>, started_at: Seq<char>)
    requires
        is_fallback(title, started_at),
        parsed_time(started_at) matches Some(t) && four_digits_anywhere(t.secs as int) && t.nanos
            < 1_000_000_000,
    ensures
        parsed_time(started_at) matches Some(t) && exists|off: int|
            is_offset(off) && text::has_infix(
                title,
                #[trigger] clock_stamp(t.secs as int, t.nanos, off).take(4),
            ),
{
    let t = parsed_time(started_at)->Some_0;
    let format = "%d %b %Y, %H:%M"@;
    let shown = choose|shown: Seq<char>|
        is_shown(shown, t, format) && title == #[trigger] fallback_of(Some(shown));
    let off = choose|off: int| #[trigger] is_shown_at(shown, t.secs, t.nanos, format, off);
    let stamp = clock_stamp(t.secs as int, t.nanos, off);
    assert(shows_plainly(t.secs as int, t.nanos, off));
    reveal_strlit("%d %b %Y, %H:%M");
    reveal_strlit("%H:%M:%S");
    assert(format.len() == 15 && "%H:%M:%S"@.len() == 8);
    let before = "Recording "@ + stamp.subrange(8, 10) + " "@ + crate::timeutil::month_name(
        stamp[5],
        stamp[6],
    ) + " "@;
    let after = ", "@ + stamp.subrange(11, 16);
    assert(stamp.take(4) =~= stamp.subrange(0, 4));
    assert(title =~= before + stamp.take(4) + after);
    let at = before.len() as int;
    assert(title.subrange(at, at + 4) =~= stamp.take(4));
    assert(text::occurs_at(title, stamp.take(4), at));
}

/// A length of time in words.
pub open spec fn duration_text(secs: int) -> Seq<char> {
    if secs < 0 {
        "0 sec"@
    } else if secs < 60 {
        text::decimal(secs as nat) + " sec"@
    } else if secs < 3600 {
        text::decimal((secs / 60) as nat) + " min"@
    } else if secs % 3600 / 60 == 0 {
        text::decimal((secs / 3600) as nat) + " h"@
    } else {
        text::decimal((secs / 3600) as nat) + " h "@ + text::decimal((secs % 3600 / 60) as nat)
            + " min"@
    }
}

/// A length of time in words; one below zero counts as zero.
pub fn format_duration_secs(secs: i64) -> (r: String)
    ensures
        r@ == duration_text(secs as int),
{
    if secs < 0 {
        return "0 sec".to_owned();
    }
    let secs: u64 = secs as u64;
    if secs < 60 {
        text::concat2(text::decimal_of(secs).as_str(), " sec")
    } else if secs < 3600 {
        text::concat2(text::decimal_of(secs / 60).as_str(), " min")
    } else {
        let hours = text::decimal_of(secs / 3600);
        let minutes: u64 = (secs % 3600) / 60;
        if minutes == 0 {
            text::concat2(hours.as_str(), " h")
        } else {
            text::concat4(hours.as_str(), " h ", text::decimal_of(minutes).as_str(), " min")
        }
    }
}

/// Whether what a provider needs is there.
pub open spec fn can_work(provider: ProviderKind, ctx: StatusContext<'_>) -> bool {
    match provider {
        ProviderKind::Voxtype => ctx.voxtype_available,
        ProviderKind::Openai => false,
        ProviderKind::WhisperCpp => ctx.whisper_executable_exists && ctx.whisper_model_is_file,
    }
}

/// Whether a chunk has neither a transcript nor its audio.
pub open spec fn is_lost(
    chunks: Seq<AudioChunkRecord>,
    present: Seq<bool>,
    transcribed: Seq<Seq<char>>,
    i: int,
) -> bool {
    !transcribed.contains(chunks[i].id@) && !present[i]
}

/// Whether a job is not complete and its provider cannot work.
pub open spec fn is_stuck(job: TranscriptionJobRecord, ctx: StatusContext<'_>) -> bool {
    job.state != JobState::Completed && !can_work(job.provider, ctx)
}

proof fn lemma_first_lost(
    chunks: Seq<AudioChunkRecord>,
    present: Seq<bool>,
    transcribed: Seq<Seq<char>>,
)
    requires
        present.len() == chunks.len(),
    ensures
        first_lost(chunks, present, transcribed) is None ==> forall|i: int|
            0 <= i < chunks.len() ==> !#[trigger] is_lost(chunks, present, transcribed, i),
        first_lost(chunks, present, transcribed) matches Some(path) ==> exists|i: int|
            0 <= i < chunks.len() && #[trigger] is_lost(chunks, present, transcribed, i)
                && chunks[i].file_path@ == path && (forall|k: int|
                0 <= k < i ==> !#[trigger] is_lost(chunks, present, transcribed, k)),
    decreases chunks.len(),
{
    if chunks.len() > 0 {
        let rest = chunks.drop_first();
        let there = present.drop_first();
        lemma_first_lost(rest, there, transcribed);
        assert forall|i: int| 0 <= i < rest.len() implies #[trigger] is_lost(
            rest,
            there,
            transcribed,
            i,
        ) == is_lost(chunks, present, transcribed, i + 1) by {}
        if is_lost(chunks, present, transcribed, 0) {
            assert(first_lost(chunks, present, transcribed) == Some(chunks[0].file_path@));
        } else if let Some(path) = first_lost(rest, there, transcribed) {
            let i = choose|i: int|
                0 <= i < rest.len() && #[trigger] is_lost(rest, there, transcribed, i)
                    && rest[i].file_path@ == path && (forall|k: int|
                    0 <= k < i ==> !#[trigger] is_lost(rest, there, transcribed, k));
            assert forall|k: int| 0 <= k < i + 1 implies !#[trigger] is_lost(
                chunks,
                present,
                transcribed,
                k,
            ) by {
                if k > 0 {
                    assert(!is_lost(rest, there, transcribed, k - 1));
                }
            }
            assert(is_lost(chunks, present, transcribed, i + 1));
            assert(chunks[i + 1].file_path@ == path);
        } else {
            assert forall|i: int| 0 <= i < chunks.len() implies !#[trigger] is_lost(
                chunks,
                present,
                transcribed,
                i,
            ) by {
                if i > 0 {
                    assert(!is_lost(rest, there, transcribed, i - 1));
                }
            }
        }
    }
}

proof fn lemma_job_trouble(jobs: Seq<TranscriptionJobRecord>, ctx: StatusContext<'_>)
    ensures
        job_trouble(jobs, ctx) is None ==> forall|j: int|
            0 <= j < jobs.len() ==> !is_stuck(#[trigger] jobs[j], ctx),
        job_trouble(jobs, ctx) is Some ==> exists|j: int|
            0 <= j < jobs.len() && is_stuck(#[trigger] jobs[j], ctx) && provider_trouble(
                jobs[j].provider,
                ctx,
            ) == job_trouble(jobs, ctx) && (forall|k: int|
                0 <= k < j ==> !is_stuck(#[trigger] jobs[k], ctx)),
    decreases jobs.len(),
{
    if jobs.len() > 0 {
        let rest = jobs.drop_first();
        lemma_job_trouble(rest, ctx);
        if is_stuck(jobs[0], ctx) {
        } else if job_trouble(rest, ctx) is Some {
            let j = choose|j: int|
                0 <= j < rest.len() && is_stuck(#[trigger] rest[j], ctx) && provider_trouble(
                    rest[j].provider,
                    ctx,
                ) == job_trouble(rest, ctx) && (forall|k: int|
                    0 <= k < j ==> !is_stuck(#[trigger] rest[k], ctx));
            assert forall|k: int| 0 <= k < j + 1 implies !is_stuck(#[trigger] jobs[k], ctx) by {
                if k > 0 {
                    assert(!is_stuck(rest[k - 1], ctx));
                }
            }
            assert(jobs[j + 1] == rest[j]);
        } else {
            assert forall|j: int| 0 <= j < jobs.len() implies !is_stuck(#[trigger] jobs[j], ctx) by {
                if j > 0 {
                    assert(!is_stuck(rest[j - 1], ctx));
                }
            }
        }
    }
}

/// A meeting that is over needs attention exactly where a chunk has neither a transcript
/// nor its audio, or a job is left whose provider cannot work. A meeting that runs is being
/// recorded, whatever else holds.
pub proof fn law_attention_is_shown_for_cause(
    session: SessionRecord,
    chunks: Seq<AudioChunkRecord>,
    present: Seq<bool>,
    jobs: Seq<TranscriptionJobRecord>,
    transcribed: Seq<Seq<char>>,
    ctx: StatusContext<'_>,
)
    requires
        present.len() == chunks.len(),
    ensures
        ({
            let status = ui_status(session, chunks, present, jobs, transcribed, ctx);
            let lost = exists|i: int|
                0 <= i < chunks.len() && !transcribed.contains((#[trigger] chunks[i]).id@)
                    && !present[i];
            let stuck = exists|j: int|
                0 <= j < jobs.len() && (#[trigger] jobs[j]).state != JobState::Completed
                    && match jobs[j].provider {
                    ProviderKind::Voxtype => !ctx.voxtype_available,
                    ProviderKind::Openai => true,
                    ProviderKind::WhisperCpp => !ctx.whisper_executable_exists
                        || !ctx.whisper_model_is_file,
                };
            &&& status == UiSessionStatus::Recording <==> session.state == SessionState::Running
            &&& status == UiSessionStatus::Attention <==> session.state != SessionState::Running
                && (lost || stuck)
        }),
{
    lemma_first_lost(chunks, present, transcribed);
    lemma_job_trouble(jobs, ctx);
    if first_lost(chunks, present, transcribed) is None {
        assert forall|i: int| 0 <= i < chunks.len() implies transcribed.contains(
            (#[trigger] chunks[i]).id@,
        ) || present[i] by {
            assert(!is_lost(chunks, present, transcribed, i));
        }
        if job_trouble(jobs, ctx) is None {
            assert forall|j: int| 0 <= j < jobs.len() implies !is_stuck(#[trigger] jobs[j], ctx) by {}
        }
    }
}

/// Where nothing needs attention, a meeting that is over is shown by what is left to do:
/// a job in work is being transcribed; else jobs that wait are, unless one of them waits
/// for a time to come; else it is complete where every chunk has its transcript.
pub proof fn law_status_shows_what_is_left_to_do(
    session: SessionRecord,
    chunks: Seq<AudioChunkRecord>,
    present: Seq<bool>,
    jobs: Seq<TranscriptionJobRecord>,
    transcribed: Seq<Seq<char>>,
    ctx: StatusContext<'_>,
)
    requires
        session.state != SessionState::Running,
        ui_status(session, chunks, present, jobs, transcribed, ctx) != UiSessionStatus::Attention,
    ensures
        ({
            let status = ui_status(session, chunks, present, jobs, transcribed, ctx);
            let in_work = exists|j: int|
                0 <= j < jobs.len() && (#[trigger] jobs[j]).state == JobState::Processing;
            let pending = exists|j: int|
                0 <= j < jobs.len() && (#[trigger] jobs[j]).state == JobState::Pending;
            let waiting = exists|j: int|
                0 <= j < jobs.len() && (#[trigger] jobs[j]).state == JobState::Pending
                    && (jobs[j].next_retry_at matches Some(at) && parsed_time(at@) matches Some(when)
                    && (when.secs > ctx.now.secs || (when.secs == ctx.now.secs && when.nanos
                    > ctx.now.nanos)));
            let done = forall|i: int|
                0 <= i < chunks.len() ==> transcribed.contains((#[trigger] chunks[i]).id@);
            &&& in_work ==> status == UiSessionStatus::Transcribing
            &&& !in_work && waiting ==> status == UiSessionStatus::WaitingRetry
            &&& !in_work && pending && !waiting ==> status == UiSessionStatus::Transcribing
            &&& !in_work && !pending && done ==> status == UiSessionStatus::Complete
            &&& !in_work && !pending && !done && session.state == SessionState::Interrupted
                ==> status == UiSessionStatus::Interrupted
            &&& !in_work && !pending && !done && session.state != SessionState::Interrupted
                ==> status == UiSessionStatus::Transcribing
        }),
{
    assert forall|j: int| 0 <= j < jobs.len() && waits(#[trigger] jobs[j], ctx.now) implies {
        let at = jobs[j].next_retry_at->0;
        let when = parsed_time(at@)->0;
        &&& jobs[j].state == JobState::Pending
        &&& when.secs > ctx.now.secs || (when.secs == ctx.now.secs && when.nanos > ctx.now.nanos)
    } by {}
    assert forall|j: int|
        0 <= j < jobs.len() && (#[trigger] jobs[j]).state == JobState::Pending && (
        jobs[j].next_retry_at matches Some(at) && parsed_time(at@) matches Some(when) && (when.secs
            > ctx.now.secs || (when.secs == ctx.now.secs && when.nanos
            > ctx.now.nanos))) implies waits(jobs[j], ctx.now) by {}
}

/// What the user reads of a meeting that needs attention: the file of the first chunk that
/// is lost, or else what the first job that is stuck lacks.
pub proof fn law_the_reason_names_what_is_missing(
    chunks: Seq<AudioChunkRecord>,
    present: Seq<bool>,
    jobs: Seq<TranscriptionJobRecord>,
    transcribed: Seq<Seq<char>>,
    ctx: StatusContext<'_>,
    i: int,
    j: int,
)
    requires
        present.len() == chunks.len(),
    ensures
        0 <= i < chunks.len() && is_lost(chunks, present, transcribed, i) && (forall|k: int|
            0 <= k < i ==> !#[trigger] is_lost(chunks, present, transcribed, k)) ==> trouble(
            chunks,
            present,
            jobs,
            transcribed,
            ctx,
        ) == Some("Audio file is missing: "@ + chunks[i].file_path@),
        (forall|k: int|
            0 <= k < chunks.len() ==> !#[trigger] is_lost(chunks, present, transcribed, k)) && 0
            <= j < jobs.len() && is_stuck(jobs[j], ctx) && (forall|k: int|
            0 <= k < j ==> !is_stuck(#[trigger] jobs[k], ctx)) ==> trouble(
            chunks,
            present,
            jobs,
            transcribed,
            ctx,
        ) == Some(
            match jobs[j].provider {
                ProviderKind::Voxtype => "Voxtype is not installed or unavailable"@,
                ProviderKind::Openai => "this meeting used the removed OpenAI provider; retranscribe with voxtype or whisper_cpp"@,
                ProviderKind::WhisperCpp => if !ctx.whisper_executable_exists {
                    "whisper-cli was not found at "@
                        + ctx.config.transcription.whisper_cpp.executable@
                } else {
                    "whisper.cpp model was not found at "@
                        + ctx.config.transcription.whisper_cpp.model@
                },
            },
        ),
{
    lemma_first_lost(chunks, present, transcribed);
    lemma_job_trouble(jobs, ctx);
    if let Some(path) = first_lost(chunks, present, transcribed) {
        let at = choose|at: int|
            0 <= at < chunks.len() && #[trigger] is_lost(chunks, present, transcribed, at)
                && chunks[at].file_path@ == path && (forall|k: int|
                0 <= k < at ==> !#[trigger] is_lost(chunks, present, transcribed, k));
        assert(is_lost(chunks, present, transcribed, at));
        if 0 <= i < chunks.len() && is_lost(chunks, present, transcribed, i) && (forall|k: int|
            0 <= k < i ==> !#[trigger] is_lost(chunks, present, transcribed, k)) {
            assert(!(i < at) && !(at < i));
        }
    } else if job_trouble(jobs, ctx) is Some {
        let at = choose|at: int|
            0 <= at < jobs.len() && is_stuck(#[trigger] jobs[at], ctx) && provider_trouble(
                jobs[at].provider,
                ctx,
            ) == job_trouble(jobs, ctx) && (forall|k: int|
                0 <= k < at ==> !is_stuck(#[trigger] jobs[k], ctx));
        if 0 <= j < jobs.len() && is_stuck(jobs[j], ctx) && (forall|k: int|
            0 <= k < j ==> !is_stuck(#[trigger] jobs[k], ctx)) {
            assert(!(j < at) && !(at < j));
        }
    }
}

/// What the user reads of each state of a meeting.
pub proof fn law_status_words()
    ensures
        UiSessionStatus::Recording.label() == "Recording"@,
        UiSessionStatus::Transcribing.label() == "Transcribing"@,
        UiSessionStatus::Complete.label() == "Complete"@,
        UiSessionStatus::WaitingRetry.label() == "Waiting to retry"@,
        UiSessionStatus::Attention.label() == "Needs attention"@,
        UiSessionStatus::Interrupted.label() == "Interrupted"@,
        UiSessionStatus::Recording.name() == "recording"@,
        UiSessionStatus::Transcribing.name() == "transcribing"@,
        UiSessionStatus::Complete.name() == "complete"@,
        UiSessionStatus::WaitingRetry.name() == "waiting_retry"@,
        UiSessionStatus::Attention.name() == "attention"@,
        UiSessionStatus::Interrupted.name() == "interrupted"@,
{
}

/// A length of time is given in its largest whole unit, hours together with the minutes
/// after them: nothing that is shown is more than what passed, and less than one of the
/// smallest unit shown is left out.
pub proof fn law_durations_name_whole_units(hours: nat, minutes: nat, seconds: nat)
    requires
        minutes < 60,
        seconds < 60,
    ensures
        ({
            let shown = duration_text((hours * 3600 + minutes * 60 + seconds) as int);
            &&& hours == 0 && minutes == 0 ==> shown == text::decimal(seconds) + " sec"@
            &&& hours == 0 && minutes > 0 ==> shown == text::decimal(minutes) + " min"@
            &&& hours > 0 && minutes == 0 ==> shown == text::decimal(hours) + " h"@
            &&& hours > 0 && minutes > 0 ==> shown == text::decimal(hours) + " h "@
                + text::decimal(minutes) + " min"@
        }),
{
}

/// A meeting is called by the title it was given, without space around it; a title of
/// nothing but space is none.
pub proof fn law_given_titles_are_kept(session: SessionRecord)
    ensures
        session.title is None ==> given_title(session) is None,
        session.title matches Some(title) ==> {
            &&& given_title(session) is None <==> forall|i: int|
                0 <= i < title@.len() ==> text::is_white(#[trigger] title@[i])
            &&& given_title(session) matches Some(shown) ==> shown == text::trimmed(title@)
        },
{
    if let Some(title) = session.title {
        text::law_trimming_takes_white_space_off(title@);
    }
}

/// A meeting without a title goes by when it began, and where that is not known by nothing
/// but the word.
pub proof fn law_meetings_without_a_title(title: Seq<char>, started_at: Seq<char>)
    requires
        is_fallback(title, started_at),
    ensures
        parsed_time(started_at) is None ==> title == "Recording"@,
        parsed_time(started_at) matches Some(t) ==> exists|at: Seq<char>|
            #[trigger] is_shown(at, t, "%d %b %Y, %H:%M"@) && title == "Recording "@ + at,
{
}

} // verus!
