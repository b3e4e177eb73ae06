//! Requests to the service and its answers.

use crate::runtime::UiEvent;
use crate::text;
use crate::tree::{
    fields_model, flag_value, holds_field, json_text, number_value, object_value, optional_text,
    optional_value, ordered_text, put, text_value, write_json, write_ordered, Tree, TreeModel,
};
use vstd::prelude::*;

verus! {

/// What the service is asked to do.
#[derive(Debug)]
pub struct Request {
    pub op: String,
    pub session_id: Option<String>,
    pub title: Option<String>,
    pub provider: Option<String>,
    pub config: Option<Tree>,
    pub language: Option<String>,
}

/// What the service tells of itself.
#[derive(Debug)]
pub struct StatusPayload {
    pub session_id: Option<String>,
    pub session_started: Option<String>,
    pub microphone: Option<String>,
    pub output: Option<String>,
    pub monitor: Option<String>,
    pub audio_server: String,
    pub provider: String,
    pub pending_jobs: u64,
    pub processing_jobs: u64,
    pub completed_jobs: u64,
    pub stored_audio: String,
    pub free_disk: String,
    pub transcript_path: Option<String>,
    pub capture_active: bool,
    pub capture_stop_reason: Option<String>,
}

/// An answer of the service.
#[derive(Debug)]
pub enum Response {
    OkStatus { ok: bool, status: Box<StatusPayload> },
    OkStop { ok: bool },
    Failed {
        ok: bool,
        error: String,
        code: Option<String>,
        details: Option<String>,
        fields: Option<Vec<(String, String)>>,
    },
}

/// Whether the names are distinct and in ascending order.
pub open spec fn names_ascend(fields: Seq<(String, String)>) -> bool {
    forall|i: int, j: int|
        #![trigger fields[i], fields[j]]
        0 <= i < j < fields.len() ==> fields[i].0@ != fields[j].0@ && text::text_le(
            fields[i].0@,
            fields[j].0@,
        )
}

impl Response {
    /// The settings that an error is about stand by their names, each once.
    pub open spec fn wf(self) -> bool {
        self matches Response::Failed { fields: Some(fields), .. } ==> names_ascend(fields@)
    }

    pub fn status(status: StatusPayload) -> (r: Self)
        ensures
            r == (Response::OkStatus { ok: true, status: Box::new(status) }),
            r.wf(),
    {
        Response::OkStatus { ok: true, status: Box::new(status) }
    }

    pub fn stop() -> (r: Self)
        ensures
            r == (Response::OkStop { ok: true }),
            r.wf(),
    {
        Response::OkStop { ok: true }
    }

    pub fn error(message: &str) -> (r: Self)
        ensures
            is_error(r, message@, None, None),
            r.wf(),
    {
        Response::Failed {
            ok: false,
            error: message.to_owned(),
            code: None,
            details: None,
            fields: None,
        }
    }

    pub fn error_code(code: &str, message: &str) -> (r: Self)
        ensures
            is_error(r, message@, Some(code@), None),
            r.wf(),
    {
        Response::Failed {
            ok: false,
            error: message.to_owned(),
            code: Some(code.to_owned()),
            details: None,
            fields: None,
        }
    }

    /// An error about settings. `fields` are the names of those, in order, each with what
    /// is wrong with it.
    pub fn error_fields(message: &str, fields: Vec<(String, String)>) -> (r: Self)
        requires
            names_ascend(fields@),
        ensures
            is_error(r, message@, Some("validation"@), Some(fields@)),
            r.wf(),
    {
        Response::Failed {
            ok: false,
            error: message.to_owned(),
            code: Some("validation".to_owned()),
            details: None,
            fields: Some(fields),
        }
    }
}

/// Whether an answer is this error.
pub open spec fn is_error(
    r: Response,
    message: Seq<char>,
    code: Option<Seq<char>>,
    fields: Option<Seq<(String, String)>>,
) -> bool {
    r matches Response::Failed { ok, error, code: c, details, fields: f } && !ok && error@ == message
        && text::text_of(c) == code && details is None && match (f, fields) {
        (Some(a), Some(b)) => a@ == b,
        (None, None) => true,
        _ => false,
    }
}

/// What the service tells of itself, as it is written.
pub open spec fn status_model(s: StatusPayload) -> TreeModel {
    TreeModel::Object(
        seq![
            ("session_id"@, optional_text(text::text_of(s.session_id))),
            ("session_started"@, optional_text(text::text_of(s.session_started))),
            ("microphone"@, optional_text(text::text_of(s.microphone))),
            ("output"@, optional_text(text::text_of(s.output))),
            ("monitor"@, optional_text(text::text_of(s.monitor))),
            ("audio_server"@, TreeModel::Text(s.audio_server@)),
            ("provider"@, TreeModel::Text(s.provider@)),
            ("pending_jobs"@, TreeModel::Number(text::decimal(s.pending_jobs as nat))),
            ("processing_jobs"@, TreeModel::Number(text::decimal(s.processing_jobs as nat))),
            ("completed_jobs"@, TreeModel::Number(text::decimal(s.completed_jobs as nat))),
            ("stored_audio"@, TreeModel::Text(s.stored_audio@)),
            ("free_disk"@, TreeModel::Text(s.free_disk@)),
            ("transcript_path"@, optional_text(text::text_of(s.transcript_path))),
            ("capture_active"@, TreeModel::Bool(s.capture_active)),
            ("capture_stop_reason"@, optional_text(text::text_of(s.capture_stop_reason))),
        ],
    )
}

fn status_tree(s: &StatusPayload) -> (r: Tree)
    ensures
        r@ == status_model(*s),
{
    let mut f: Vec<(String, Tree)> = Vec::new();
    put(&mut f, "session_id", optional_value(&s.session_id));
    put(&mut f, "session_started", optional_value(&s.session_started));
    put(&mut f, "microphone", optional_value(&s.microphone));
    put(&mut f, "output", optional_value(&s.output));
    put(&mut f, "monitor", optional_value(&s.monitor));
    put(&mut f, "audio_server", text_value(s.audio_server.as_str()));
    put(&mut f, "provider", text_value(s.provider.as_str()));
    put(&mut f, "pending_jobs", number_value(s.pending_jobs));
    put(&mut f, "processing_jobs", number_value(s.processing_jobs));
    put(&mut f, "completed_jobs", number_value(s.completed_jobs));
    put(&mut f, "stored_audio", text_value(s.stored_audio.as_str()));
    put(&mut f, "free_disk", text_value(s.free_disk.as_str()));
    put(&mut f, "transcript_path", optional_value(&s.transcript_path));
    put(&mut f, "capture_active", flag_value(s.capture_active));
    put(&mut f, "capture_stop_reason", optional_value(&s.capture_stop_reason));
    assert(fields_model(f@) =~= status_model(*s)->Object_0);
    object_value(f)
}

/// A field that is written only where it is there.
pub open spec fn optional_field(name: Seq<char>, value: Option<Seq<char>>) -> Seq<
    (Seq<char>, TreeModel),
> {
    match value {
        Some(v) => seq![(name, TreeModel::Text(v))],
        None => Seq::empty(),
    }
}

/// Texts by name, as they are written.
pub open spec fn texts_model(fields: Seq<(String, String)>) -> TreeModel {
    TreeModel::Object(fields.map_values(|f: (String, String)| (f.0@, TreeModel::Text(f.1@))))
}

/// An answer as it is written.
pub open spec fn response_model(r: Response) -> TreeModel {
    match r {
        Response::OkStatus { ok, status } => TreeModel::Object(
            seq![("ok"@, TreeModel::Bool(ok)), ("status"@, status_model(*status))],
        ),
        Response::OkStop { ok } => TreeModel::Object(seq![("ok"@, TreeModel::Bool(ok))]),
        Response::Failed { ok, error, code, details, fields } => TreeModel::Object(
            seq![("ok"@, TreeModel::Bool(ok)), ("error"@, TreeModel::Text(error@))]
                + optional_field("code"@, text::text_of(code)) + optional_field(
                "details"@,
                text::text_of(details),
            ) + match fields {
                Some(f) => seq![("fields"@, texts_model(f@))],
                None => Seq::empty(),
            },
        ),
    }
}

fn put_optional(f: &mut Vec<(String, Tree)>, name: &str, value: &Option<String>)
    ensures
        fields_model(final(f)@) == fields_model(old(f)@) + optional_field(
            name@,
            text::text_of(*value),
        ),
{
    let ghost was = fields_model(f@);
    if let Some(v) = value {
        put(f, name, text_value(v.as_str()));
    }
    assert(fields_model(f@) =~= was + optional_field(name@, text::text_of(*value)));
}

fn texts_tree(fields: &Vec<(String, String)>) -> (r: Tree)
    ensures
        r@ == texts_model(fields@),
{
    let ghost all = texts_model(fields@)->Object_0;
    let mut f: Vec<(String, Tree)> = Vec::new();
    let mut i: usize = 0;
    assert(fields_model(f@) =~= all.take(0));
    while i < fields.len()
        invariant
            i <= fields@.len(),
            all == texts_model(fields@)->Object_0,
            fields_model(f@) == all.take(i as int),
        decreases fields.len() - i,
    {
        put(&mut f, fields[i].0.as_str(), text_value(fields[i].1.as_str()));
        i += 1;
        assert(fields_model(f@) =~= all.take(i as int));
    }
    assert(all.take(i as int) =~= all);
    object_value(f)
}

fn response_tree(response: &Response) -> (r: Tree)
    ensures
        r@ == response_model(*response),
{
    let mut f: Vec<(String, Tree)> = Vec::new();
    match response {
        Response::OkStatus { ok, status } => {
            put(&mut f, "ok", flag_value(*ok));
            put(&mut f, "status", status_tree(status));
        },
        Response::OkStop { ok } => {
            put(&mut f, "ok", flag_value(*ok));
        },
        Response::Failed { ok, error, code, details, fields } => {
            put(&mut f, "ok", flag_value(*ok));
            put(&mut f, "error", text_value(error.as_str()));
            put_optional(&mut f, "code", code);
            put_optional(&mut f, "details", details);
            if let Some(texts) = fields {
                put(&mut f, "fields", texts_tree(texts));
            }
        },
    }
    assert(fields_model(f@) =~= response_model(*response)->Object_0);
    object_value(f)
}

/// An answer as a line of JSON.
pub fn encode_response(response: &Response) -> (r: String)
    ensures
        r@ == ordered_text(response_model(*response)),
{
    write_ordered(&response_tree(response))
}

/// An answer that says that all is well, and more.
pub open spec fn ok_model(extra: Seq<(Seq<char>, TreeModel)>) -> TreeModel {
    TreeModel::Object(seq![("ok"@, TreeModel::Bool(true))] + extra)
}

/// An answer that says that all is well, and more, as a line of JSON.
pub fn encode_ok(extra: Vec<(String, Tree)>) -> (r: String)
    ensures
        r@ == json_text(ok_model(fields_model(extra@))),
{
    let ghost all = fields_model(extra@);
    let mut f: Vec<(String, Tree)> = Vec::new();
    put(&mut f, "ok", flag_value(true));
    let ghost first = f@;
    assert(fields_model(first) =~= seq![("ok"@, TreeModel::Bool(true))]);
    let mut rest = extra;
    f.append(&mut rest);
    proof {
        assert(f@ =~= first + extra@);
        assert(fields_model(f@) =~= fields_model(first) + all);
    }
    let t = object_value(f);
    write_json(&t)
}

/// A message for those who watch the service, as it is written.
pub open spec fn event_model(e: UiEvent) -> TreeModel {
    TreeModel::Object(
        seq![("event"@, TreeModel::Text(e.event@))] + optional_field(
            "session_id"@,
            text::text_of(e.session_id),
        ) + optional_field("message"@, text::text_of(e.message)),
    )
}

/// A message for those who watch the service, as a line of JSON.
pub fn encode_event(e: &UiEvent) -> (r: String)
    ensures
        r@ == ordered_text(event_model(*e)),
{
    let mut f: Vec<(String, Tree)> = Vec::new();
    put(&mut f, "event", text_value(e.event.as_str()));
    assert(fields_model(f@) =~= seq![("event"@, TreeModel::Text(e.event@))]);
    put_optional(&mut f, "session_id", &e.session_id);
    put_optional(&mut f, "message", &e.message);
    write_ordered(&object_value(f))
}

/// The message for a request that is none.
pub fn invalid_request(reason: &str) -> (r: Response)
    ensures
        is_error(r, "invalid control request: "@ + reason@, None, None),
{
    let message = text::concat2("invalid control request: ", reason);
    Response::error(message.as_str())
}

/// What the service tells of itself is written under these names.
#[verifier::rlimit(50)]
pub proof fn law_what_a_status_says(s: StatusPayload)
    ensures
        ({
            let t = status_model(s);
            &&& holds_field(t, "session_id"@, optional_text(text::text_of(s.session_id)))
            &&& holds_field(t, "session_started"@, optional_text(text::text_of(s.session_started)))
            &&& holds_field(t, "microphone"@, optional_text(text::text_of(s.microphone)))
            &&& holds_field(t, "output"@, optional_text(text::text_of(s.output)))
            &&& holds_field(t, "monitor"@, optional_text(text::text_of(s.monitor)))
            &&& holds_field(t, "audio_server"@, TreeModel::Text(s.audio_server@))
            &&& holds_field(t, "provider"@, TreeModel::Text(s.provider@))
            &&& holds_field(
                t,
                "pending_jobs"@,
                TreeModel::Number(text::decimal(s.pending_jobs as nat)),
            )
            &&& holds_field(
                t,
                "processing_jobs"@,
                TreeModel::Number(text::decimal(s.processing_jobs as nat)),
            )
            &&& holds_field(
                t,
                "completed_jobs"@,
                TreeModel::Number(text::decimal(s.completed_jobs as nat)),
            )
            &&& holds_field(t, "stored_audio"@, TreeModel::Text(s.stored_audio@))
            &&& holds_field(t, "free_disk"@, TreeModel::Text(s.free_disk@))
            &&& holds_field(t, "transcript_path"@, optional_text(text::text_of(s.transcript_path)))
            &&& holds_field(t, "capture_active"@, TreeModel::Bool(s.capture_active))
            &&& holds_field(
                t,
                "capture_stop_reason"@,
                optional_text(text::text_of(s.capture_stop_reason)),
            )
        }),
{
    let f = status_model(s)->Object_0;
    assert(f.contains(f[0]) && f.contains(f[1]) && f.contains(f[2]) && f.contains(f[3]));
    assert(f.contains(f[4]) && f.contains(f[5]) && f.contains(f[6]) && f.contains(f[7]));
    assert(f.contains(f[8]) && f.contains(f[9]) && f.contains(f[10]) && f.contains(f[11]));
    assert(f.contains(f[12]) && f.contains(f[13]) && f.contains(f[14]));
}

/// An answer says first whether all is well; an error also says why, and its code where it
/// has one.
pub proof fn law_what_an_answer_says(
    r: Response,
    message: Seq<char>,
    code: Option<Seq<char>>,
    fields: Option<Seq<(String, String)>>,
    extra: Seq<(Seq<char>, TreeModel)>,
    status: StatusPayload,
)
    ensures
        is_error(r, message, code, fields) ==> {
            &&& response_model(r)->Object_0[0] == ("ok"@, TreeModel::Bool(false))
            &&& response_model(r)->Object_0[1] == ("error"@, TreeModel::Text(message))
            &&& code matches Some(c) ==> holds_field(response_model(r), "code"@, TreeModel::Text(c))
        },
        ok_model(extra)->Object_0[0] == ("ok"@, TreeModel::Bool(true)),
        ok_model(extra)->Object_0.skip(1) == extra,
        response_model(Response::OkStop { ok: true }) == TreeModel::Object(
            seq![("ok"@, TreeModel::Bool(true))],
        ),
        response_model(Response::OkStatus { ok: true, status: Box::new(status) })
            == TreeModel::Object(
            seq![("ok"@, TreeModel::Bool(true)), ("status"@, status_model(status))],
        ),
{
    assert(ok_model(extra)->Object_0.skip(1) =~= extra);
    if is_error(r, message, code, fields) {
        if code is Some {
            let f = response_model(r)->Object_0;
            assert(f[2] == ("code"@, TreeModel::Text(code->0)));
            assert(f.contains(f[2]));
        }
    }
}

/// News say what happened, and of which session where it is about one.
pub proof fn law_what_news_say(e: UiEvent)
    ensures
        event_model(e)->Object_0[0] == ("event"@, TreeModel::Text(e.event@)),
        e.session_id matches Some(id) ==> holds_field(
            event_model(e),
            "session_id"@,
            TreeModel::Text(id@),
        ),
        e.message matches Some(m) ==> holds_field(
            event_model(e),
            "message"@,
            TreeModel::Text(m@),
        ),
        e.session_id is None && e.message is None ==> event_model(e)->Object_0.len() == 1,
{
    let f = event_model(e)->Object_0;
    if e.session_id is Some {
        assert(f.contains(f[1]));
    }
    if e.message is Some {
        assert(f.contains(f[f.len() - 1]));
    }
}

/// An answer that refuses settings says of each field why.
pub proof fn law_refusals_name_their_fields(fields: Seq<(String, String)>, i: int)
    requires
        0 <= i < fields.len(),
    ensures
        texts_model(fields)->Object_0.len() == fields.len(),
        texts_model(fields)->Object_0[i] == (fields[i].0@, TreeModel::Text(fields[i].1@)),
{
}

} // verus!
