//! The control socket: lines of JSON in both directions.

use crate::audio::AudioDevice;
use crate::disk::{format_bytes, size_text};
use crate::error::{fails, AppError, ErrorKind, Result};
use crate::paths::{join, joined_path, PathResolver};
use crate::runtime::{AudioServerHealth, RuntimeStatus};
use crate::text;
use protocol::{Response, StatusPayload};
use vstd::prelude::*;
use vstd::utf8::{decode_utf8, encode_utf8, valid_utf8};

pub mod handlers;
pub mod protocol;

verus! {

/// Where the first line of some bytes ends, or how many there are.
pub open spec fn line_end(s: Seq<u8>) -> int
    decreases s.len(),
{
    if s.len() == 0 {
        0
    } else if s[0] == 10 {
        0
    } else {
        1 + line_end(s.drop_first())
    }
}

/// What came of reading a line.
#[derive(Debug)]
pub enum LineStep {
    /// The line is not at its end yet.
    More,
    Line(String),
    TooLong,
    InvalidUtf8,
}

/// Whether `step` is what comes of all the bytes that were read: the first line, where
/// it is complete and has no more than `max` bytes.
pub open spec fn is_step(step: LineStep, read: Seq<u8>, max: int) -> bool {
    let end = line_end(read);
    if end > max {
        step is TooLong
    } else if end == read.len() {
        step is More
    } else if !valid_utf8(read.take(end)) {
        step is InvalidUtf8
    } else {
        step matches LineStep::Line(s) && s@ == decode_utf8(read.take(end))
    }
}

proof fn lemma_line_end(s: Seq<u8>, i: int)
    requires
        0 <= i <= s.len(),
        forall|k: int| 0 <= k < i ==> #[trigger] s[k] != 10,
        i < s.len() ==> s[i] == 10,
    ensures
        line_end(s) == i,
    decreases i,
{
    if i > 0 {
        let rest = s.drop_first();
        assert(s[0] != 10);
        assert forall|k: int| 0 <= k < i - 1 implies #[trigger] rest[k] != 10 by {
            assert(rest[k] == s[k + 1]);
        }
        lemma_line_end(rest, i - 1);
    }
}

/// The part of a line that was read.
#[derive(Debug)]
pub struct LineReader {
    pub buf: Vec<u8>,
    pub max: usize,
}

impl LineReader {
    /// What was read is no longer than a line may be and does not end it.
    pub open spec fn wf(self) -> bool {
        &&& self.buf@.len() <= self.max
        &&& forall|k: int| 0 <= k < self.buf@.len() ==> #[trigger] self.buf@[k] != 10
    }

    pub fn new(max: usize) -> (r: Self)
        ensures
            r.wf(),
            r.buf@.len() == 0,
            r.max == max,
    {
        LineReader { buf: Vec::new(), max }
    }

    /// Takes in more bytes. Once a step is not `More` the reader is done.
    pub fn feed(&mut self, bytes: &[u8]) -> (r: LineStep)
        requires
            old(self).wf(),
        ensures
            is_step(r, old(self).buf@ + bytes@, old(self).max as int),
            final(self).max == old(self).max,
            r is More ==> final(self).wf() && final(self).buf@ == old(self).buf@ + bytes@,
    {
        let ghost was = self.buf@;
        let ghost read = was + bytes@;
        let mut i: usize = 0;
        while i < bytes.len()
            invariant
                i <= bytes@.len(),
                read == was + bytes@,
                old(self).wf(),
                was == old(self).buf@,
                self.max == old(self).max,
                self.buf@ == was + bytes@.take(i as int),
                self.buf@.len() <= self.max,
                forall|k: int| 0 <= k < self.buf@.len() ==> #[trigger] self.buf@[k] != 10,
            decreases bytes.len() - i,
        {
            let ghost n = self.buf@.len() as int;
            proof {
                assert(read[n] == bytes@[i as int]);
                assert(read.take(n) =~= self.buf@);
                assert forall|k: int| 0 <= k < n implies #[trigger] read[k] != 10 by {
                    assert(read[k] == self.buf@[k]);
                }
            }
            if bytes[i] == 10 {
                proof {
                    lemma_line_end(read, n);
                }
                return match text::utf8_text(self.buf.as_slice()) {
                    Ok(line) => LineStep::Line(line),
                    Err(_) => LineStep::InvalidUtf8,
                };
            }
            if self.buf.len() >= self.max {
                proof {
                    lemma_line_end_beyond(read, n + 1);
                }
                return LineStep::TooLong;
            }
            self.buf.push(bytes[i]);
            i += 1;
            assert(self.buf@ =~= was + bytes@.take(i as int));
        }
        proof {
            assert(bytes@.take(i as int) =~= bytes@);
            lemma_line_end(read, read.len() as int);
        }
        LineStep::More
    }
}

proof fn lemma_line_end_range(s: Seq<u8>)
    ensures
        0 <= line_end(s) <= s.len(),
    decreases s.len(),
{
    if s.len() > 0 && s[0] != 10 {
        lemma_line_end_range(s.drop_first());
    }
}

proof fn lemma_line_end_beyond(s: Seq<u8>, i: int)
    requires
        0 <= i <= s.len(),
        forall|k: int| 0 <= k < i ==> #[trigger] s[k] != 10,
    ensures
        line_end(s) >= i,
    decreases i,
{
    lemma_line_end_range(s);
    if i > 0 {
        let rest = s.drop_first();
        assert(s[0] != 10);
        assert forall|k: int| 0 <= k < i - 1 implies #[trigger] rest[k] != 10 by {
            assert(rest[k] == s[k + 1]);
        }
        lemma_line_end_beyond(rest, i - 1);
    }
}

/// A line that fits is read whole, however it arrives: what was read before it ended
/// asked for more, and with its end the line is there.
pub proof fn law_a_line_is_read_whole(line: Seq<char>, max: int, before: Seq<u8>, step: LineStep)
    requires
        encode_utf8(line).len() <= max,
        forall|k: int| 0 <= k < encode_utf8(line).len() ==> #[trigger] encode_utf8(line)[k] != 10,
        is_step(step, encode_utf8(line).push(10), max),
        before.is_prefix_of(encode_utf8(line)),
    ensures
        step matches LineStep::Line(s) && s@ == line,
        forall|early: LineStep| is_step(early, before, max) ==> #[trigger] (early is More),
{
    let bytes = encode_utf8(line);
    let read = bytes.push(10);
    assert forall|k: int| 0 <= k < bytes.len() implies #[trigger] read[k] != 10 by {
        assert(read[k] == bytes[k]);
    }
    lemma_line_end(read, bytes.len() as int);
    assert(read.take(bytes.len() as int) =~= bytes);
    vstd::utf8::encode_utf8_valid_utf8(line);
    vstd::utf8::encode_utf8_decode_utf8(line);
    assert forall|k: int| 0 <= k < before.len() implies #[trigger] before[k] != 10 by {
        assert(before[k] == bytes[k]);
    }
    lemma_line_end(before, before.len() as int);
}

/// A line that is too long is refused, however it arrives.
pub proof fn law_a_long_line_is_refused(read: Seq<u8>, max: int, step: LineStep)
    requires
        0 <= max < read.len(),
        forall|k: int| 0 <= k <= max ==> #[trigger] read[k] != 10,
        is_step(step, read, max),
    ensures
        step is TooLong,
{
    lemma_line_end_beyond(read, max + 1);
}

/// Why a line could not be read.
#[derive(Debug)]
pub enum LineReadError {
    Timeout,
    Closed,
    TooLong,
    InvalidUtf8,
    Io(String),
}

impl LineReadError {
    pub open spec fn message(self) -> Seq<char> {
        match self {
            LineReadError::Timeout => "timed out waiting for control socket response"@,
            LineReadError::Closed => "control socket closed without a response"@,
            LineReadError::TooLong => "control message exceeds protocol maximum"@,
            LineReadError::InvalidUtf8 => "control message is not valid UTF-8"@,
            LineReadError::Io(e) => "control socket read failed: "@ + e@,
        }
    }

    pub fn into_control(self) -> (e: AppError)
        ensures
            e@ == (ErrorKind::Control, self.message()),
    {
        match self {
            LineReadError::Timeout => AppError::control(
                "timed out waiting for control socket response",
            ),
            LineReadError::Closed => AppError::control("control socket closed without a response"),
            LineReadError::TooLong => AppError::control("control message exceeds protocol maximum"),
            LineReadError::InvalidUtf8 => AppError::control("control message is not valid UTF-8"),
            LineReadError::Io(e) => {
                let message = text::concat2("control socket read failed: ", e.as_str());
                AppError::control(message.as_str())
            },
        }
    }
}

/// What a client is answered whose request could not be read. Only one that is too long
/// is answered.
pub fn answer_to_unread(error: &LineReadError) -> (r: Option<Response>)
    ensures
        match *error {
            LineReadError::TooLong => r matches Some(answer) && protocol::is_error(
                answer,
                "control message exceeds protocol maximum"@,
                None,
                None,
            ),
            _ => r is None,
        },
{
    match error {
        LineReadError::TooLong => Some(
            Response::error("control message exceeds protocol maximum"),
        ),
        _ => None,
    }
}

/// Refuses to send a request that the service would not read.
pub fn check_request_length(payload: &str) -> (r: Result<()>)
    ensures
        if encode_utf8(payload@).len() > crate::runtime::CONTROL_MAX_LINE_BYTES {
            fails(r, ErrorKind::Control, "control message exceeds protocol maximum"@)
        } else {
            r is Ok
        },
{
    if text::byte_len(payload) > crate::runtime::CONTROL_MAX_LINE_BYTES {
        Err(AppError::control("control message exceeds protocol maximum"))
    } else {
        Ok(())
    }
}

/// What is done about a socket before the service listens on it.
#[derive(Clone, Copy, Debug, PartialEq, Eq, Structural)]
pub enum SocketAction {
    Bind,
    RemoveAndBind,
}

/// What is done about the socket: one that nobody listens on is removed; where somebody
/// does, the service runs already.
pub fn socket_action(exists: bool, answers: bool) -> (r: Result<SocketAction>)
    ensures
        if exists && answers {
            fails(r, ErrorKind::Control, "voxtype-meeting-service is already running"@)
        } else {
            r matches Ok(action) && action == if exists {
                SocketAction::RemoveAndBind
            } else {
                SocketAction::Bind
            }
        },
{
    if exists {
        if answers {
            Err(AppError::control("voxtype-meeting-service is already running"))
        } else {
            Ok(SocketAction::RemoveAndBind)
        }
    } else {
        Ok(SocketAction::Bind)
    }
}

/// A device in words, where there is one.
pub open spec fn device_text(device: Option<AudioDevice>) -> Option<Seq<char>> {
    match device {
        Some(d) => Some(d.summary_text()),
        None => None,
    }
}

fn summary_of(device: &Option<AudioDevice>) -> (r: Option<String>)
    ensures
        text::text_of(r) == device_text(*device),
{
    match device {
        Some(d) => Some(d.summary()),
        None => None,
    }
}

fn copied(o: &Option<String>) -> (r: Option<String>)
    ensures
        r == *o,
{
    match o {
        Some(s) => Some(s.clone()),
        None => None,
    }
}

/// What the service tells of itself. `jobs` are how many jobs wait, are in work and are
/// complete; `free` is the free space in bytes, where it is known.
pub fn collect_status(
    paths: &PathResolver,
    status: &RuntimeStatus,
    jobs: (usize, usize, usize),
    stored: u64,
    free: Option<u64>,
) -> (r: StatusPayload)
    ensures
        r.session_id == status.session_id,
        r.session_started == status.session_started_at,
        text::text_of(r.microphone) == device_text(status.microphone),
        text::text_of(r.output) == device_text(status.output),
        text::text_of(r.monitor) == device_text(status.monitor),
        r.audio_server@ == match status.audio_server {
            AudioServerHealth::Available => "available"@,
            AudioServerHealth::Unavailable => "unavailable"@,
        },
        r.provider@ == status.provider.name(),
        r.pending_jobs == jobs.0,
        r.processing_jobs == jobs.1,
        r.completed_jobs == jobs.2,
        r.stored_audio@ == size_text(stored),
        r.free_disk@ == match free {
            Some(bytes) => size_text(bytes),
            None => "unknown"@,
        },
        text::text_of(r.transcript_path) == match status.session_id {
            Some(id) => Some(joined_path(paths@.session_dir(id@), "transcript.md"@)),
            None => None,
        },
        r.capture_active == status.capture_active,
        r.capture_stop_reason == status.capture_stop_reason,
{
    let transcript_path = match &status.session_id {
        Some(id) => Some(join(paths.session_dir(id.as_str()).as_str(), "transcript.md")),
        None => None,
    };
    let audio_server = match status.audio_server {
        AudioServerHealth::Available => "available".to_owned(),
        AudioServerHealth::Unavailable => "unavailable".to_owned(),
    };
    let free_disk = match free {
        Some(bytes) => format_bytes(bytes),
        None => "unknown".to_owned(),
    };
    StatusPayload {
        session_id: copied(&status.session_id),
        session_started: copied(&status.session_started_at),
        microphone: summary_of(&status.microphone),
        output: summary_of(&status.output),
        monitor: summary_of(&status.monitor),
        audio_server,
        provider: status.provider.as_str().to_owned(),
        pending_jobs: jobs.0 as u64,
        processing_jobs: jobs.1 as u64,
        completed_jobs: jobs.2 as u64,
        stored_audio: format_bytes(stored),
        free_disk,
        transcript_path,
        capture_active: status.capture_active,
        capture_stop_reason: copied(&status.capture_stop_reason),
    }
}

/// A line with a label and a value.
pub open spec fn labelled(label: Seq<char>, value: Seq<char>) -> Seq<char> {
    label + value + "\n"@
}

/// A line with a label and a value, where there is one.
pub open spec fn labelled_if(label: Seq<char>, value: Option<String>) -> Seq<char> {
    match value {
        Some(v) => labelled(label, v@),
        None => Seq::empty(),
    }
}

pub open spec fn or_unknown(value: Option<String>) -> Seq<char> {
    match value {
        Some(v) => v@,
        None => "unknown"@,
    }
}

/// The lines on jobs and disk space.
pub open spec fn totals_text(s: StatusPayload) -> Seq<char> {
    labelled("Pending jobs: "@, text::decimal(s.pending_jobs as nat)) + labelled(
        "Processing jobs: "@,
        text::decimal(s.processing_jobs as nat),
    ) + labelled("Completed jobs: "@, text::decimal(s.completed_jobs as nat)) + labelled(
        "Stored audio size: "@,
        s.stored_audio@,
    ) + labelled("Free disk space: "@, s.free_disk@)
}

/// The lines on the session and the devices that it records.
pub open spec fn capture_text(id: Seq<char>, s: StatusPayload) -> Seq<char> {
    labelled("Session ID: "@, id) + labelled_if("Session started: "@, s.session_started) + labelled(
        "Microphone device: "@,
        or_unknown(s.microphone),
    ) + labelled("System output device: "@, or_unknown(s.output)) + labelled_if(
        "Monitor source: "@,
        s.monitor,
    ) + labelled("Audio server status: "@, s.audio_server@) + labelled(
        "Transcription provider: "@,
        s.provider@,
    )
}

/// The lines on the transcript and on why a recording stopped.
pub open spec fn outcome_text(s: StatusPayload) -> Seq<char> {
    labelled_if("Transcript path: "@, s.transcript_path) + labelled_if(
        "Capture stopped: "@,
        s.capture_stop_reason,
    )
}

/// The status as the user reads it.
pub open spec fn status_text(service: Seq<char>, payload: Option<StatusPayload>) -> Seq<char> {
    labelled("Service: "@, service) + match payload {
        None => "No active session.\n"@,
        Some(s) => match s.session_id {
            None => "No active session.\n"@ + totals_text(s),
            Some(id) => capture_text(id@, s) + totals_text(s) + outcome_text(s),
        },
    }
}

fn push_labelled(out: &mut String, label: &str, value: &str)
    ensures
        final(out)@ == old(out)@ + labelled(label@, value@),
{
    let line = text::concat3(label, value, "\n");
    out.append(line.as_str());
}

fn push_labelled_if(out: &mut String, label: &str, value: &Option<String>)
    ensures
        final(out)@ == old(out)@ + labelled_if(label@, *value),
{
    let ghost was = out@;
    match value {
        Some(v) => push_labelled(out, label, v.as_str()),
        None => {
            assert(out@ =~= was + labelled_if(label@, *value));
        },
    }
}

fn known(value: &Option<String>) -> (r: String)
    ensures
        r@ == or_unknown(*value),
{
    match value {
        Some(v) => v.clone(),
        None => "unknown".to_owned(),
    }
}

fn push_totals(out: &mut String, s: &StatusPayload)
    ensures
        final(out)@ == old(out)@ + totals_text(*s),
{
    let ghost was = out@;
    push_labelled(out, "Pending jobs: ", text::decimal_of(s.pending_jobs).as_str());
    push_labelled(out, "Processing jobs: ", text::decimal_of(s.processing_jobs).as_str());
    push_labelled(out, "Completed jobs: ", text::decimal_of(s.completed_jobs).as_str());
    push_labelled(out, "Stored audio size: ", s.stored_audio.as_str());
    push_labelled(out, "Free disk space: ", s.free_disk.as_str());
    assert(out@ =~= was + totals_text(*s));
}

fn push_capture(out: &mut String, id: &str, s: &StatusPayload)
    ensures
        final(out)@ == old(out)@ + capture_text(id@, *s),
{
    let ghost was = out@;
    push_labelled(out, "Session ID: ", id);
    push_labelled_if(out, "Session started: ", &s.session_started);
    push_labelled(out, "Microphone device: ", known(&s.microphone).as_str());
    push_labelled(out, "System output device: ", known(&s.output).as_str());
    push_labelled_if(out, "Monitor source: ", &s.monitor);
    push_labelled(out, "Audio server status: ", s.audio_server.as_str());
    push_labelled(out, "Transcription provider: ", s.provider.as_str());
    assert(out@ =~= was + capture_text(id@, *s));
}

fn push_outcome(out: &mut String, s: &StatusPayload)
    ensures
        final(out)@ == old(out)@ + outcome_text(*s),
{
    let ghost was = out@;
    push_labelled_if(out, "Transcript path: ", &s.transcript_path);
    push_labelled_if(out, "Capture stopped: ", &s.capture_stop_reason);
    assert(out@ =~= was + outcome_text(*s));
}

/// The status as the user reads it.
pub fn format_status_text(service: &str, payload: Option<&StatusPayload>) -> (r: String)
    ensures
        r@ == status_text(
            service@,
            match payload {
                Some(s) => Some(*s),
                None => None,
            },
        ),
{
    let mut out = String::new();
    push_labelled(&mut out, "Service: ", service);
    match payload {
        None => {
            out.append("No active session.\n");
        },
        Some(s) => match &s.session_id {
            None => {
                out.append("No active session.\n");
                push_totals(&mut out, s);
            },
            Some(id) => {
                push_capture(&mut out, id.as_str(), s);
                push_totals(&mut out, s);
                push_outcome(&mut out, s);
            },
        },
    }
    proof {
        let p = match payload {
            Some(s) => Some(*s),
            None => None,
        };
        assert(out@ =~= status_text(service@, p));
    }
    out
}

/// What asking the service fails on.
#[derive(Debug)]
pub enum SendFault {
    ConnectExpired,
    /// There is no connection; why.
    NotConnected(String),
    WriteExpired,
    NotWritten(String),
    CloseExpired,
    NotClosed(String),
    /// The answer is none; why.
    BadAnswer(String),
}

impl SendFault {
    pub open spec fn message(self, path: Seq<char>) -> Seq<char> {
        match self {
            SendFault::ConnectExpired => "timed out connecting to control socket"@,
            SendFault::NotConnected(e) => "could not connect to control socket "@ + path + ": "@
                + e@,
            SendFault::WriteExpired => "timed out writing control socket request"@,
            SendFault::NotWritten(e) => "control socket write failed: "@ + e@,
            SendFault::CloseExpired => "timed out closing control socket write"@,
            SendFault::NotClosed(e) => "control socket shutdown failed: "@ + e@,
            SendFault::BadAnswer(e) => "invalid control socket response: "@ + e@,
        }
    }

    /// The error for the user; `path` is that of the socket.
    pub fn error(&self, path: &str) -> (e: AppError)
        ensures
            e@ == (ErrorKind::Control, self.message(path@)),
    {
        let message = match self {
            SendFault::ConnectExpired => "timed out connecting to control socket".to_owned(),
            SendFault::NotConnected(e) => text::concat4(
                "could not connect to control socket ",
                path,
                ": ",
                e.as_str(),
            ),
            SendFault::WriteExpired => "timed out writing control socket request".to_owned(),
            SendFault::NotWritten(e) => text::concat2("control socket write failed: ", e.as_str()),
            SendFault::CloseExpired => "timed out closing control socket write".to_owned(),
            SendFault::NotClosed(e) => text::concat2(
                "control socket shutdown failed: ",
                e.as_str(),
            ),
            SendFault::BadAnswer(e) => text::concat2(
                "invalid control socket response: ",
                e.as_str(),
            ),
        };
        AppError::control(message.as_str())
    }
}

/// The error of a socket that cannot be listened on.
pub fn bind_error(path: &str, reason: &str) -> (e: AppError)
    ensures
        e@ == (ErrorKind::Control, "could not bind control socket "@ + path@ + ": "@ + reason@),
{
    let message = text::concat4("could not bind control socket ", path, ": ", reason);
    AppError::control(message.as_str())
}

/// A request ends at the first line break: what came before it is the line, and a line that
/// is too long, or not text, is told as such. Without a break more is waited for.
pub proof fn law_a_line_ends_at_its_break(step: LineStep, line: Seq<u8>, rest: Seq<u8>, max: int)
    requires
        forall|k: int| 0 <= k < line.len() ==> #[trigger] line[k] != 10,
        is_step(step, line.push(10) + rest, max) || is_step(step, line, max),
    ensures
        is_step(step, line.push(10) + rest, max) ==> {
            &&& line.len() > max ==> step is TooLong
            &&& line.len() <= max && !valid_utf8(line) ==> step is InvalidUtf8
            &&& line.len() <= max && valid_utf8(line) ==> (step matches LineStep::Line(s) && s@
                == decode_utf8(line))
        },
        is_step(step, line, max) ==> {
            &&& line.len() > max ==> step is TooLong
            &&& line.len() <= max ==> step is More
        },
{
    let all = line.push(10) + rest;
    lemma_line_ends(all, line.len() as int);
    lemma_line_ends(line, line.len() as int);
    assert(all.take(line.len() as int) =~= line);
}

proof fn lemma_line_ends(s: Seq<u8>, at: int)
    requires
        0 <= at <= s.len(),
        forall|k: int| 0 <= k < at ==> #[trigger] s[k] != 10,
        at < s.len() ==> s[at] == 10,
    ensures
        line_end(s) == at,
    decreases s.len(),
{
    if at > 0 {
        let rest = s.drop_first();
        assert(s[0] != 10);
        assert forall|k: int| 0 <= k < at - 1 implies #[trigger] rest[k] != 10 by {
            assert(rest[k] == s[k + 1]);
        }
        lemma_line_ends(rest, at - 1);
    }
}

/// The status names the service first; with a session it goes on with the session and its
/// devices, then with the jobs and the room, then with the transcript.
pub proof fn law_what_the_status_shows(service: Seq<char>, s: StatusPayload)
    ensures
        status_text(service, None) == "Service: "@ + service + "\n"@ + "No active session.\n"@,
        s.session_id is None ==> status_text(service, Some(s)) == "Service: "@ + service + "\n"@ + (
        "No active session.\n"@ + totals_text(s)),
        s.session_id matches Some(id) ==> status_text(service, Some(s)) == "Service: "@ + service
            + "\n"@ + (capture_text(id@, s) + totals_text(s) + outcome_text(s)),
        totals_text(s) == "Pending jobs: "@ + text::decimal(s.pending_jobs as nat) + "\n"@ + (
        "Processing jobs: "@ + text::decimal(s.processing_jobs as nat) + "\n"@) + (
        "Completed jobs: "@ + text::decimal(s.completed_jobs as nat) + "\n"@) + (
        "Stored audio size: "@ + s.stored_audio@ + "\n"@) + ("Free disk space: "@ + s.free_disk@
            + "\n"@),
{
}

/// What is told of a running session: each device under its label, as unknown where it is
/// not known, and what may be missing only where it is there.
pub proof fn law_what_is_shown_of_a_session(id: Seq<char>, s: StatusPayload, mic: String, out: String)
    ensures
        or_unknown(Some(mic)) == mic@,
        or_unknown(None) == "unknown"@,
        s.session_started is None && s.monitor is None && s.microphone == Some(mic) && s.output
            == Some(out) ==> capture_text(id, s) == "Session ID: "@ + id + "\n"@ + (
        "Microphone device: "@ + mic@ + "\n"@) + ("System output device: "@ + out@ + "\n"@) + (
        "Audio server status: "@ + s.audio_server@ + "\n"@) + ("Transcription provider: "@
            + s.provider@ + "\n"@),
        s.session_started matches Some(at) ==> labelled_if("Session started: "@, s.session_started)
            == "Session started: "@ + at@ + "\n"@,
        s.monitor matches Some(m) ==> (s.session_started is None && s.microphone == Some(mic)
            && s.output == Some(out) ==> capture_text(id, s) == "Session ID: "@ + id + "\n"@ + (
        "Microphone device: "@ + mic@ + "\n"@) + ("System output device: "@ + out@ + "\n"@) + (
        "Monitor source: "@ + m@ + "\n"@) + ("Audio server status: "@ + s.audio_server@ + "\n"@) + (
        "Transcription provider: "@ + s.provider@ + "\n"@)),
        s.transcript_path matches Some(p) ==> (s.capture_stop_reason matches Some(why)
            ==> outcome_text(s) == "Transcript path: "@ + p@ + "\n"@ + ("Capture stopped: "@ + why@
            + "\n"@)),
        s.transcript_path is None && s.capture_stop_reason is None ==> outcome_text(s).len() == 0,
{
    if s.session_started is None && s.microphone == Some(mic) && s.output == Some(out) {
        let a = "Session ID: "@ + id + "\n"@;
        assert(a + Seq::<char>::empty() =~= a);
        if s.monitor is None {
            let b = a + ("Microphone device: "@ + mic@ + "\n"@) + ("System output device: "@ + out@
                + "\n"@);
            assert(b + Seq::<char>::empty() =~= b);
        }
    }
}

/// Devices are told by their names.
pub proof fn law_devices_are_told_by_name(d: AudioDevice)
    ensures
        device_text(Some(d)) == Some(d.summary_text()),
        device_text(None) is None,
{
}

} // verus!
